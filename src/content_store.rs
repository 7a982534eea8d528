//! The content store: blobs kept under their content address.

use vstd::prelude::*;
use crate::hash::ContentHash;
use vstd::string::StringExecFns;

verus! {

#[derive(Debug, Clone, Copy, PartialEq, Eq, Structural)]
pub enum StoreError {
    /// The medium behind the store failed.
    Storage,
}

/// What retrieving the address `h` from `stored` gives.
pub open spec fn stored_at(stored: Map<Seq<u8>, Seq<u8>>, h: Seq<u8>) -> Option<Seq<u8>> {
    if stored.contains_key(h) {
        Some(stored[h])
    } else {
        None
    }
}

/// Where a store rooted at `storage_path` keeps the blob of `hash`: a file
/// named by the hash's text form.
pub fn content_file_name(storage_path: &str, hash: &ContentHash) -> (r: String)
    ensures
        r@ == storage_path@ + "/"@ + crate::hash::base64url_text(hash.bytes()),
{
    let mut r = String::from_str(storage_path);
    r.append("/");
    let name = hash.to_string();
    r.append(name.as_str());
    r
}

/// Blobs keyed by their content address.
pub trait ContentStore {
    spec fn valid(&self) -> bool;

    /// The stored blobs, by the bytes of their address.
    spec fn stored(&self) -> Map<Seq<u8>, Seq<u8>>;

    /// Stores `value` under its address and returns the address.
    fn store(&mut self, value: &[u8]) -> (r: Result<ContentHash, StoreError>)
        requires
            old(self).valid(),
        ensures
            final(self).valid(),
            r is Ok ==> r->Ok_0.bytes() == crate::hash::digest16(value@) && final(self).stored()
                == old(self).stored().insert(r->Ok_0.bytes(), value@),
    ;

    /// The blob stored under `hash`, `None` if there is none.
    fn retrieve(&self, hash: ContentHash) -> (r: Result<Option<Vec<u8>>, StoreError>)
        requires
            self.valid(),
        ensures
            r is Ok ==> match r->Ok_0 {
                Some(c) => stored_at(self.stored(), hash.bytes()) == Some(c@),
                None => stored_at(self.stored(), hash.bytes()) is None,
            },
    ;
}

/// Retrieving right after storing gives back what was stored; an address that was
/// never stored stays absent.
pub proof fn lemma_retrieve_after_store(
    before: Map<Seq<u8>, Seq<u8>>,
    after: Map<Seq<u8>, Seq<u8>>,
    b: Seq<u8>,
    h: ContentHash,
    other: Seq<u8>,
)
    requires
        h.bytes() == crate::hash::digest16(b),
        after == before.insert(h.bytes(), b),
        !before.contains_key(other),
        other != h.bytes(),
    ensures
        stored_at(after, h.bytes()) == Some(b),
        stored_at(after, other) is None,
{
}

/// What a list of `(address, blob)` pairs holds: a later pair hides an earlier one.
pub open spec fn blob_map(entries: Seq<(ContentHash, Vec<u8>)>) -> Map<Seq<u8>, Seq<u8>>
    decreases entries.len(),
{
    if entries.len() == 0 {
        Map::empty()
    } else {
        blob_map(entries.drop_last()).insert(entries.last().0.bytes(), entries.last().1@)
    }
}

proof fn lemma_blob_map_suffix(entries: Seq<(ContentHash, Vec<u8>)>, i: int, k: Seq<u8>)
    requires
        0 <= i <= entries.len(),
        forall|j: int| i <= j < entries.len() ==> (#[trigger] entries[j]).0.bytes() != k,
    ensures
        stored_at(blob_map(entries), k) == stored_at(blob_map(entries.subrange(0, i)), k),
    decreases entries.len() - i,
{
    if i < entries.len() {
        assert(entries.drop_last().len() == entries.len() - 1);
        assert forall|j: int| i <= j < entries.drop_last().len() implies (#[trigger] entries.drop_last()[j]).0.bytes() != k by {
            assert(entries.drop_last()[j] == entries[j]);
        }
        lemma_blob_map_suffix(entries.drop_last(), i, k);
        assert(entries.drop_last().subrange(0, i) =~= entries.subrange(0, i));
    } else {
        assert(entries.subrange(0, i) =~= entries);
    }
}

/// A content store held in memory.
pub struct MemoryContentStore {
    entries: Vec<(ContentHash, Vec<u8>)>,
}

impl MemoryContentStore {
    pub fn new() -> (r: MemoryContentStore)
        ensures
            r.valid(),
            r.stored() == Map::<Seq<u8>, Seq<u8>>::empty(),
    {
        MemoryContentStore { entries: Vec::new() }
    }

    /// Puts a blob under an address as a medium holds it, as when a store is
    /// read back from where `store` once wrote it.
    pub fn insert_blob(&mut self, hash: ContentHash, content: Vec<u8>)
        ensures
            final(self).stored() == old(self).stored().insert(hash.bytes(), content@),
    {
        let ghost before = self.entries@;
        self.entries.push((hash, content));
        assert(self.entries@.drop_last() =~= before);
    }
}

impl ContentStore for MemoryContentStore {
    closed spec fn valid(&self) -> bool {
        true
    }

    closed spec fn stored(&self) -> Map<Seq<u8>, Seq<u8>> {
        blob_map(self.entries@)
    }

    fn store(&mut self, value: &[u8]) -> (r: Result<ContentHash, StoreError>)
        ensures
            r is Ok,
    {
        let hash = ContentHash::from_content(value);
        let ghost before = self.entries@;
        self.entries.push((hash, crate::text::copy_bytes(value)));
        assert(self.entries@.drop_last() =~= before);
        Ok(hash)
    }

    fn retrieve(&self, hash: ContentHash) -> (r: Result<Option<Vec<u8>>, StoreError>)
        ensures
            r is Ok,
    {
        let mut i: usize = self.entries.len();
        while i > 0
            invariant
                0 <= i <= self.entries@.len(),
                forall|j: int| i <= j < self.entries@.len() ==> (#[trigger] self.entries@[j]).0.bytes() != hash.bytes(),
            decreases i,
        {
            let e = &self.entries[i - 1];
            if e.0.equals(&hash) {
                proof {
                    lemma_blob_map_suffix(self.entries@, i as int, hash.bytes());
                    let sub = self.entries@.subrange(0, i as int);
                    assert(sub.last() == self.entries@[i - 1]);
                }
                return Ok(Some(e.1.clone()));
            }
            i = i - 1;
        }
        proof {
            lemma_blob_map_suffix(self.entries@, 0, hash.bytes());
        }
        Ok(None)
    }
}

} // verus!
