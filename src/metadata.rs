//! Metadata: string values attached to a path under a string key.

use vstd::prelude::*;

verus! {

/// A key under which a value is attached to a path.
#[derive(Debug, Clone, PartialEq, Eq)]
pub enum MetadataKey {
    StringKey(String),
}

impl View for MetadataKey {
    type V = Seq<char>;

    open spec fn view(&self) -> Seq<char> {
        match self {
            MetadataKey::StringKey(k) => k@,
        }
    }
}

impl MetadataKey {
    pub fn as_string(&self) -> (r: String)
        ensures
            r@ == self@,
    {
        match self {
            MetadataKey::StringKey(k) => k.clone(),
        }
    }

    pub fn from_text(s: &str) -> (r: MetadataKey)
        ensures
            r@ == s@,
    {
        MetadataKey::StringKey(s.to_string())
    }

    pub fn duplicate(&self) -> (r: MetadataKey)
        ensures
            r == *self,
    {
        match self {
            MetadataKey::StringKey(k) => MetadataKey::StringKey(k.clone()),
        }
    }
}

/// A value attached to a path.
#[derive(Debug, Clone, PartialEq, Eq)]
pub struct MetadataEntry {
    value: String,
}

impl View for MetadataEntry {
    type V = Seq<char>;

    closed spec fn view(&self) -> Seq<char> {
        self.value@
    }
}

impl MetadataEntry {
    pub fn as_string(&self) -> (r: String)
        ensures
            r@ == self@,
    {
        self.value.clone()
    }

    pub fn from_text(s: &str) -> (r: MetadataEntry)
        ensures
            r@ == s@,
    {
        MetadataEntry { value: s.to_string() }
    }

    pub fn duplicate(&self) -> (r: MetadataEntry)
        ensures
            r == *self,
    {
        MetadataEntry { value: self.value.clone() }
    }
}

/// The view of an optional entry.
pub open spec fn entry_view(e: Option<MetadataEntry>) -> Option<Seq<char>> {
    match e {
        Some(v) => Some(v@),
        None => None,
    }
}

/// The value under `(path, key)` in a metadata map, if any.
pub open spec fn md_lookup(
    m: Map<(Seq<char>, Seq<char>), Seq<char>>,
    path: Seq<char>,
    key: Seq<char>,
) -> Option<Seq<char>> {
    if m.contains_key((path, key)) {
        Some(m[(path, key)])
    } else {
        None
    }
}

/// The metadata map after setting `(path, key)` to `value`; `None` removes it.
pub open spec fn md_update(
    m: Map<(Seq<char>, Seq<char>), Seq<char>>,
    path: Seq<char>,
    key: Seq<char>,
    value: Option<Seq<char>>,
) -> Map<(Seq<char>, Seq<char>), Seq<char>> {
    match value {
        Some(v) => m.insert((path, key), v),
        None => m.remove((path, key)),
    }
}

/// The paths that have at least one key: those that the persisted document lists.
pub open spec fn md_paths(m: Map<(Seq<char>, Seq<char>), Seq<char>>) -> Set<Seq<char>> {
    Set::new(|p: Seq<char>| exists|k: Seq<char>| m.contains_key((p, k)))
}

/// Removing the only key of a path drops the path from the document, and
/// setting a value keeps or adds it.
pub proof fn lemma_md_paths_compact(
    m: Map<(Seq<char>, Seq<char>), Seq<char>>,
    path: Seq<char>,
    key: Seq<char>,
    value: Option<Seq<char>>,
)
    requires
        value is None ==> forall|k: Seq<char>| k != key ==> !m.contains_key((path, k)),
    ensures
        value is None ==> !md_paths(md_update(m, path, key, value)).contains(path),
        value is Some ==> md_paths(md_update(m, path, key, value)).contains(path),
{
    let m2 = md_update(m, path, key, value);
    if value is Some {
        assert(m2.contains_key((path, key)));
    } else {
        assert forall|k: Seq<char>| !m2.contains_key((path, k)) by {
            if k != key {
                assert(!m.contains_key((path, k)));
            }
        }
    }
}

/// One stored value.
#[derive(Debug, Clone)]
pub struct MetadataRecord {
    pub path: String,
    pub key: String,
    pub value: String,
}

/// Every `(path, key) -> value` pair that a project holds.
pub struct MetadataStore {
    records: Vec<MetadataRecord>,
    contents: Ghost<Map<(Seq<char>, Seq<char>), Seq<char>>>,
}

impl View for MetadataStore {
    type V = Map<(Seq<char>, Seq<char>), Seq<char>>;

    closed spec fn view(&self) -> Map<(Seq<char>, Seq<char>), Seq<char>> {
        self.contents@
    }
}

impl MetadataStore {
    pub closed spec fn wf(&self) -> bool {
        &&& forall|i: int|
            0 <= i < self.records@.len() ==> #[trigger] self.contents@.contains_key(
                (self.records@[i].path@, self.records@[i].key@),
            ) && self.contents@[(self.records@[i].path@, self.records@[i].key@)]
                == self.records@[i].value@
        &&& forall|i: int, j: int|
            0 <= i < self.records@.len() && 0 <= j < self.records@.len() && i != j ==> (
            #[trigger] self.records@[i].path@, self.records@[i].key@) != (
            #[trigger] self.records@[j].path@, self.records@[j].key@)
        &&& forall|k: (Seq<char>, Seq<char>)| #[trigger]
            self.contents@.contains_key(k) ==> exists|i: int|
                0 <= i < self.records@.len() && (self.records@[i].path@, self.records@[i].key@) == k
    }

    pub fn new() -> (r: MetadataStore)
        ensures
            r.wf(),
            r@ == Map::<(Seq<char>, Seq<char>), Seq<char>>::empty(),
    {
        MetadataStore { records: Vec::new(), contents: Ghost(Map::empty()) }
    }

    /// The stored records, one per `(path, key)`.
    pub fn records(&self) -> (r: &Vec<MetadataRecord>)
        requires
            self.wf(),
        ensures
            forall|i: int|
                0 <= i < r@.len() ==> md_lookup(self@, #[trigger] r@[i].path@, r@[i].key@) == Some(
                    r@[i].value@,
                ),
    {
        &self.records
    }

    fn find(&self, path: &str, key: &str) -> (r: Option<usize>)
        requires
            self.wf(),
        ensures
            match r {
                Some(i) => i < self.records@.len() && self.records@[i as int].path@ == path@
                    && self.records@[i as int].key@ == key@,
                None => !self@.contains_key((path@, key@)),
            },
    {
        let mut i: usize = 0;
        while i < self.records.len()
            invariant
                self.wf(),
                0 <= i <= self.records@.len(),
                forall|j: int|
                    0 <= j < i ==> (#[trigger] self.records@[j]).path@ != path@
                        || self.records@[j].key@ != key@,
            decreases self.records@.len() - i,
        {
            let rec = &self.records[i];
            if crate::text::same_text(rec.path.as_str(), path) && crate::text::same_text(rec.key.as_str(), key) {
                return Some(i);
            }
            i = i + 1;
        }
        None
    }

    /// The value under `(path, key)`.
    pub fn get(&self, path: &str, key: &str) -> (r: Option<String>)
        requires
            self.wf(),
        ensures
            match r {
                Some(v) => md_lookup(self@, path@, key@) == Some(v@),
                None => md_lookup(self@, path@, key@) is None,
            },
    {
        match self.find(path, key) {
            Some(i) => Some(self.records[i].value.clone()),
            None => None,
        }
    }

    /// Sets `(path, key)` to `value` (`None` removes it) and returns the value it had.
    pub fn set(&mut self, path: &str, key: &str, value: Option<&str>) -> (r: Option<String>)
        requires
            old(self).wf(),
        ensures
            final(self).wf(),
            match r {
                Some(v) => md_lookup(old(self)@, path@, key@) == Some(v@),
                None => md_lookup(old(self)@, path@, key@) is None,
            },
            final(self)@ == md_update(
                old(self)@,
                path@,
                key@,
                match value {
                    Some(v) => Some(v@),
                    None => None,
                },
            ),
    {
        let found = self.find(path, key);
        let ghost k = (path@, key@);
        match found {
            Some(i) => {
                let previous = self.records[i].value.clone();
                match value {
                    Some(v) => {
                        let rec = MetadataRecord {
                            path: path.to_string(),
                            key: key.to_string(),
                            value: v.to_string(),
                        };
                        let ghost old_recs = self.records@;
                        self.records.set(i, rec);
                        self.contents = Ghost(old(self)@.insert(k, v@));
                        proof {
                            assert forall|a: int, b: int|
                                0 <= a < self.records@.len() && 0 <= b < self.records@.len() && a
                                    != b implies (#[trigger] self.records@[a].path@,
                            self.records@[a].key@) != (
                            #[trigger] self.records@[b].path@, self.records@[b].key@) by {
                                assert(old_recs[a].path@ == self.records@[a].path@);
                                assert(old_recs[a].key@ == self.records@[a].key@);
                                assert(old_recs[b].path@ == self.records@[b].path@);
                                assert(old_recs[b].key@ == self.records@[b].key@);
                            }
                            assert forall|j: int| 0 <= j < self.records@.len() implies #[trigger] self.contents@.contains_key(
                                (self.records@[j].path@, self.records@[j].key@),
                            ) && self.contents@[(self.records@[j].path@, self.records@[j].key@)]
                                == self.records@[j].value@ by {
                                if j != i {
                                    assert(self.records@[j] == old_recs[j]);
                                    assert((old_recs[j].path@, old_recs[j].key@) != (old_recs[i as int].path@, old_recs[i as int].key@));
                                }
                            }
                            assert forall|k2| #[trigger]
                                self.contents@.contains_key(k2) implies exists|j: int|
                                0 <= j < self.records@.len() && (
                                self.records@[j].path@,
                                self.records@[j].key@,
                            ) == k2 by {
                                if k2 != k {
                                    let j = choose|j: int|
                                        0 <= j < old(self).records@.len() && (
                                        old(self).records@[j].path@,
                                        old(self).records@[j].key@,
                                    ) == k2;
                                    assert(j != i);
                                    assert((self.records@[j].path@, self.records@[j].key@) == k2);
                                } else {
                                    assert((self.records@[i as int].path@, self.records@[i as int].key@) == k2);
                                }
                            }
                        }
                    },
                    None => {
                        let ghost old_recs = self.records@;
                        self.records.remove(i);
                        self.contents = Ghost(old(self)@.remove(k));
                        proof {
                            assert forall|j: int| 0 <= j < self.records@.len() implies (#[trigger] self.records@[j]) == (
                            if j < i {
                                old_recs[j]
                            } else {
                                old_recs[j + 1]
                            }) by {}
                            assert forall|k2| #[trigger]
                                self.contents@.contains_key(k2) implies exists|j: int|
                                0 <= j < self.records@.len() && (
                                self.records@[j].path@,
                                self.records@[j].key@,
                            ) == k2 by {
                                let j = choose|j: int|
                                    0 <= j < old_recs.len() && (old_recs[j].path@, old_recs[j].key@)
                                        == k2;
                                assert(j != i);
                                if j < i {
                                    assert((self.records@[j].path@, self.records@[j].key@) == k2);
                                } else {
                                    assert((self.records@[j - 1].path@, self.records@[j - 1].key@)
                                        == k2);
                                }
                            }
                            assert forall|a: int, b: int|
                                0 <= a < self.records@.len() && 0 <= b < self.records@.len() && a
                                    != b implies (#[trigger] self.records@[a].path@,
                            self.records@[a].key@) != (
                            #[trigger] self.records@[b].path@, self.records@[b].key@) by {
                                let a2 = if a < i { a } else { a + 1 };
                                let b2 = if b < i { b } else { b + 1 };
                                assert(self.records@[a] == old_recs[a2]);
                                assert(self.records@[b] == old_recs[b2]);
                            }
                            assert forall|j: int| 0 <= j < self.records@.len() implies #[trigger] self.contents@.contains_key(
                                (self.records@[j].path@, self.records@[j].key@),
                            ) && self.contents@[(self.records@[j].path@, self.records@[j].key@)]
                                == self.records@[j].value@ by {
                                let j2 = if j < i { j } else { j + 1 };
                                assert(self.records@[j] == old_recs[j2]);
                                assert(j2 != i);
                            }
                        }
                    },
                }
                Some(previous)
            },
            None => {
                match value {
                    Some(v) => {
                        let rec = MetadataRecord {
                            path: path.to_string(),
                            key: key.to_string(),
                            value: v.to_string(),
                        };
                        self.records.push(rec);
                        self.contents = Ghost(old(self)@.insert(k, v@));
                        proof {
                            let n = old(self).records@.len() as int;
                            assert((self.records@[n].path@, self.records@[n].key@) == k);
                            assert forall|k2| #[trigger]
                                self.contents@.contains_key(k2) implies exists|j: int|
                                0 <= j < self.records@.len() && (
                                self.records@[j].path@,
                                self.records@[j].key@,
                            ) == k2 by {
                                if k2 != k {
                                    let j = choose|j: int|
                                        0 <= j < old(self).records@.len() && (
                                        old(self).records@[j].path@,
                                        old(self).records@[j].key@,
                                    ) == k2;
                                    assert((self.records@[j].path@, self.records@[j].key@) == k2);
                                }
                            }
                            assert forall|j: int|
                                0 <= j < n implies (#[trigger] self.records@[j].path@,
                            self.records@[j].key@) != k by {
                                assert(old(self).records@[j] == self.records@[j]);
                                assert(old(self)@.contains_key(
                                    (old(self).records@[j].path@, old(self).records@[j].key@),
                                ));
                            }
                        }
                    },
                    None => {},
                }
                None
            },
        }
    }
}

} // verus!
