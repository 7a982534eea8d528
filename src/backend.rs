//! The backend: file contents and metadata, with the content address of every write.

use vstd::prelude::*;
use crate::content_store::{ContentStore, MemoryContentStore};
use crate::hash::ContentHash;
use crate::metadata::{MetadataEntry, MetadataKey, MetadataRecord, MetadataStore};

verus! {

#[derive(Debug, Clone, PartialEq, Eq)]
pub enum BackendError {
    /// The path names no file (it has no parent to create).
    InvalidPath,
    /// The medium behind the backend failed, with its message.
    Io(String),
}

/// Whether `h` is the address of what `files` holds at `p`; `None` when nothing is there.
pub open spec fn hash_of_file(h: Option<ContentHash>, files: Map<Seq<char>, Seq<u8>>, p: Seq<char>) -> bool {
    match h {
        Some(x) => files.contains_key(p) && x.bytes() == crate::hash::digest16(files[p]),
        None => !files.contains_key(p),
    }
}

/// File contents and per-path metadata of one project.
pub trait Backend {
    spec fn valid(&self) -> bool;

    /// The files, by path.
    spec fn files(&self) -> Map<Seq<char>, Seq<u8>>;

    /// The metadata, by path and key.
    spec fn metadata(&self) -> Map<(Seq<char>, Seq<char>), Seq<char>>;

    /// Whether every call about `path` succeeds (its medium cannot fail on it).
    spec fn accepts(&self, path: Seq<char>) -> bool;

    fn get_metadata(&self, path: &str, key: &MetadataKey) -> (r: Result<Option<MetadataEntry>, BackendError>)
        requires
            self.valid(),
        ensures
            self.accepts(path@) ==> r is Ok,
            r is Ok ==> crate::metadata::entry_view(r->Ok_0) == crate::metadata::md_lookup(
                self.metadata(),
                path@,
                key@,
            ),
    ;

    /// Sets (or with `None` removes) a value and returns the value it replaced.
    fn set_metadata(
        &mut self,
        path: &str,
        key: &MetadataKey,
        value: &Option<MetadataEntry>,
    ) -> (r: Result<Option<MetadataEntry>, BackendError>)
        requires
            old(self).valid(),
        ensures
            final(self).valid(),
            forall|q: Seq<char>| #[trigger] final(self).accepts(q) == old(self).accepts(q),
            old(self).accepts(path@) ==> r is Ok,
            r is Ok ==> crate::metadata::entry_view(r->Ok_0) == crate::metadata::md_lookup(
                old(self).metadata(),
                path@,
                key@,
            ) && final(self).metadata() == crate::metadata::md_update(
                old(self).metadata(),
                path@,
                key@,
                crate::metadata::entry_view(*value),
            ) && final(self).files() == old(self).files(),
    ;

    /// Writes a file; returns the address of what was there before, and of `value`.
    fn write_file(&mut self, path: &str, value: &[u8]) -> (r: Result<(Option<ContentHash>, ContentHash), BackendError>)
        requires
            old(self).valid(),
        ensures
            final(self).valid(),
            forall|q: Seq<char>| #[trigger] final(self).accepts(q) == old(self).accepts(q),
            old(self).accepts(path@) ==> r is Ok,
            r is Ok ==> hash_of_file(r->Ok_0.0, old(self).files(), path@) && r->Ok_0.1.bytes()
                == crate::hash::digest16(value@) && final(self).files() == old(self).files().insert(
                path@,
                value@,
            ) && final(self).metadata() == old(self).metadata(),
    ;

    /// The address and content of a file, `None` when there is no file.
    fn read_file(&self, path: &str) -> (r: Result<Option<(ContentHash, Vec<u8>)>, BackendError>)
        requires
            self.valid(),
        ensures
            self.accepts(path@) ==> r is Ok,
            r is Ok ==> match r->Ok_0 {
                Some(hc) => self.files().contains_key(path@) && self.files()[path@] == hc.1@
                    && hc.0.bytes() == crate::hash::digest16(hc.1@),
                None => !self.files().contains_key(path@),
            },
    ;
}

/// A second write to a path reports the address of the first write's content as
/// its before-hash, and the address of its own content as its after-hash.
pub proof fn lemma_second_write_reports_first(
    files0: Map<Seq<char>, Seq<u8>>,
    files1: Map<Seq<char>, Seq<u8>>,
    p: Seq<char>,
    b1: Seq<u8>,
    b2: Seq<u8>,
    before: Option<ContentHash>,
    after: ContentHash,
)
    requires
        files1 == files0.insert(p, b1),
        hash_of_file(before, files1, p),
        after.bytes() == crate::hash::digest16(b2),
    ensures
        before is Some,
        before->Some_0.bytes() == crate::hash::digest16(b1),
        after.bytes() == crate::hash::digest16(b2),
{
}

/// What a list of `(path, content)` pairs holds: a later pair hides an earlier one.
pub open spec fn file_map(entries: Seq<(String, Vec<u8>)>) -> Map<Seq<char>, Seq<u8>>
    decreases entries.len(),
{
    if entries.len() == 0 {
        Map::empty()
    } else {
        file_map(entries.drop_last()).insert(entries.last().0@, entries.last().1@)
    }
}

proof fn lemma_file_map_suffix(entries: Seq<(String, Vec<u8>)>, i: int, k: Seq<char>)
    requires
        0 <= i <= entries.len(),
        forall|j: int| i <= j < entries.len() ==> (#[trigger] entries[j]).0@ != k,
    ensures
        file_map(entries).contains_key(k) == file_map(entries.subrange(0, i)).contains_key(k),
        file_map(entries).contains_key(k) ==> file_map(entries)[k] == file_map(entries.subrange(0, i))[k],
    decreases entries.len() - i,
{
    if i < entries.len() {
        assert forall|j: int| i <= j < entries.drop_last().len() implies (#[trigger] entries.drop_last()[j]).0@ != k by {
            assert(entries.drop_last()[j] == entries[j]);
        }
        lemma_file_map_suffix(entries.drop_last(), i, k);
        assert(entries.drop_last().subrange(0, i) =~= entries.subrange(0, i));
    } else {
        assert(entries.subrange(0, i) =~= entries);
    }
}

/// A backend held in memory.
pub struct MemoryBackend {
    files: Vec<(String, Vec<u8>)>,
    metadata: MetadataStore,
    content_store: MemoryContentStore,
}

impl MemoryBackend {
    pub fn new() -> (r: MemoryBackend)
        ensures
            r.valid(),
            r.files() == Map::<Seq<char>, Seq<u8>>::empty(),
            r.metadata() == Map::<(Seq<char>, Seq<char>), Seq<char>>::empty(),
            r.stored() == Map::<Seq<u8>, Seq<u8>>::empty(),
    {
        MemoryBackend { files: Vec::new(), metadata: MetadataStore::new(), content_store: MemoryContentStore::new() }
    }

    /// The blobs that writes have archived.
    pub closed spec fn stored(&self) -> Map<Seq<u8>, Seq<u8>> {
        self.content_store.stored()
    }

    /// The blob archived under `hash`.
    pub fn retrieve(&self, hash: ContentHash) -> (r: Option<Vec<u8>>)
        requires
            self.valid(),
        ensures
            match r {
                Some(c) => crate::content_store::stored_at(self.stored(), hash.bytes()) == Some(c@),
                None => crate::content_store::stored_at(self.stored(), hash.bytes()) is None,
            },
    {
        match self.content_store.retrieve(hash) {
            Ok(r) => r,
            Err(_) => None,
        }
    }

    /// Every stored metadata value, one record per path and key.
    pub fn metadata_records(&self) -> (r: &Vec<MetadataRecord>)
        requires
            self.valid(),
        ensures
            forall|i: int|
                0 <= i < r@.len() ==> crate::metadata::md_lookup(self.metadata(), #[trigger] r@[i].path@, r@[i].key@)
                    == Some(r@[i].value@),
    {
        self.metadata.records()
    }

    fn find_file(&self, path: &str) -> (r: Option<usize>)
        ensures
            match r {
                Some(i) => i < self.files@.len() && file_map(self.files@).contains_key(path@)
                    && file_map(self.files@)[path@] == self.files@[i as int].1@,
                None => !file_map(self.files@).contains_key(path@),
            },
    {
        let mut i: usize = self.files.len();
        while i > 0
            invariant
                0 <= i <= self.files@.len(),
                forall|j: int| i <= j < self.files@.len() ==> (#[trigger] self.files@[j]).0@ != path@,
            decreases i,
        {
            if crate::text::same_text(self.files[i - 1].0.as_str(), path) {
                proof {
                    lemma_file_map_suffix(self.files@, i as int, path@);
                    assert(self.files@.subrange(0, i as int).last() == self.files@[i - 1]);
                }
                return Some(i - 1);
            }
            i = i - 1;
        }
        proof {
            lemma_file_map_suffix(self.files@, 0, path@);
        }
        None
    }
}

impl Backend for MemoryBackend {
    closed spec fn valid(&self) -> bool {
        self.metadata.wf() && self.content_store.valid()
    }

    closed spec fn files(&self) -> Map<Seq<char>, Seq<u8>> {
        file_map(self.files@)
    }

    closed spec fn metadata(&self) -> Map<(Seq<char>, Seq<char>), Seq<char>> {
        self.metadata@
    }

    /// Only a write to the empty path fails.
    open spec fn accepts(&self, path: Seq<char>) -> bool {
        path.len() > 0
    }

    fn get_metadata(&self, path: &str, key: &MetadataKey) -> (r: Result<Option<MetadataEntry>, BackendError>)
        ensures
            r is Ok,
    {
        let k = key.as_string();
        match self.metadata.get(path, k.as_str()) {
            Some(v) => Ok(Some(MetadataEntry::from_text(v.as_str()))),
            None => Ok(None),
        }
    }

    fn set_metadata(
        &mut self,
        path: &str,
        key: &MetadataKey,
        value: &Option<MetadataEntry>,
    ) -> (r: Result<Option<MetadataEntry>, BackendError>)
        ensures
            r is Ok,
            final(self).stored() == old(self).stored(),
    {
        let k = key.as_string();
        let previous = match value {
            Some(v) => {
                let s = v.as_string();
                self.metadata.set(path, k.as_str(), Some(s.as_str()))
            },
            None => self.metadata.set(path, k.as_str(), None),
        };
        match previous {
            Some(p) => Ok(Some(MetadataEntry::from_text(p.as_str()))),
            None => Ok(None),
        }
    }

    fn write_file(&mut self, path: &str, value: &[u8]) -> (r: Result<(Option<ContentHash>, ContentHash), BackendError>)
        ensures
            r is Err <==> path@.len() == 0,
            r is Err ==> final(self).files() == old(self).files() && final(self).stored() == old(self).stored(),
            r is Ok ==> final(self).stored() == old(self).stored().insert(r->Ok_0.1.bytes(), value@),
    {
        if path.is_empty() {
            return Err(BackendError::InvalidPath);
        }
        let before = match self.find_file(path) {
            Some(i) => Some(ContentHash::from_content(self.files[i].1.as_slice())),
            None => None,
        };
        let ghost old_files = self.files@;
        self.files.push((path.to_string(), crate::text::copy_bytes(value)));
        assert(self.files@.drop_last() =~= old_files);
        let after = match self.content_store.store(value) {
            Ok(h) => h,
            Err(_) => return Err(BackendError::Io("the content store failed".to_string())),
        };
        Ok((before, after))
    }

    fn read_file(&self, path: &str) -> (r: Result<Option<(ContentHash, Vec<u8>)>, BackendError>)
        ensures
            r is Ok,
    {
        match self.find_file(path) {
            Some(i) => {
                let content = self.files[i].1.clone();
                let hash = ContentHash::from_content(content.as_slice());
                Ok(Some((hash, content)))
            },
            None => Ok(None),
        }
    }
}

} // verus!
