//! The keyed blob store: integer keys, each mapped to an opaque byte blob.
use std::collections::BTreeMap;
use vstd::prelude::*;

verus! {

broadcast use vstd::std_specs::btree::group_btree_axioms;

/// What a store holds, as a mathematical map from key to blob.
pub open spec fn blob_map(data: Map<usize, Vec<u8>>) -> Map<usize, Seq<u8>> {
    data.map_values(|v: Vec<u8>| v@)
}

/// The store after one blob is appended: the blob goes under the key equal
/// to the number of entries already held.
pub open spec fn pushed(m: Map<usize, Seq<u8>>, blob: Seq<u8>) -> Map<usize, Seq<u8>> {
    m.insert(m.len() as usize, blob)
}

/// The store obtained by appending `blobs`, in order, to `m`.
pub open spec fn pushed_all(m: Map<usize, Seq<u8>>, blobs: Seq<Seq<u8>>) -> Map<usize, Seq<u8>>
    decreases blobs.len(),
{
    if blobs.len() == 0 {
        m
    } else {
        pushed(pushed_all(m, blobs.drop_last()), blobs.last())
    }
}

/// An in-memory map from key to blob. Keys are handed out densely: each
/// appended blob is stored under the count of entries held before it.
pub struct BlobStore {
    pub data: BTreeMap<usize, Vec<u8>>,
}

impl View for BlobStore {
    type V = Map<usize, Seq<u8>>;

    open spec fn view(&self) -> Map<usize, Seq<u8>> {
        blob_map(self.data@)
    }
}

impl BlobStore {
    /// An empty store.
    pub fn new() -> (r: BlobStore)
        ensures
            r@ == Map::<usize, Seq<u8>>::empty(),
    {
        let r = BlobStore { data: BTreeMap::new() };
        assert(r@ =~= Map::<usize, Seq<u8>>::empty());
        r
    }

    /// The number of entries held.
    pub fn len(&self) -> (r: usize)
        ensures
            r == self@.len(),
    {
        assert(self@.dom() =~= self.data@.dom());
        self.data.len()
    }

    /// The blob stored under `key`, if any.
    pub fn get(&self, key: usize) -> (r: Option<&Vec<u8>>)
        ensures
            r matches Some(v) ==> self@.contains_key(key) && v@ == self@[key],
            r is None ==> !self@.contains_key(key),
    {
        self.data.get(&key)
    }

    /// Appends `blob` under the key equal to the current number of entries and
    /// returns that key. An entry already held under that key (possible only
    /// in a store restored from foreign data) is replaced.
    pub fn push(&mut self, blob: Vec<u8>) -> (key: usize)
        ensures
            key == old(self)@.len(),
            final(self)@ == pushed(old(self)@, blob@),
    {
        assert(self@.dom() =~= self.data@.dom());
        let key = self.data.len();
        let ghost v = blob@;
        self.data.insert(key, blob);
        assert(final(self)@ =~= pushed(old(self)@, v));
        key
    }
}

/// Appending blobs `b0 .. b(n-1)` to an empty store yields exactly `n`
/// entries, under the keys `0 .. n-1`, entry `i` being `bi`.
pub proof fn lemma_key_density(blobs: Seq<Seq<u8>>)
    requires
        blobs.len() <= usize::MAX + 1,
    ensures
        pushed_all(Map::empty(), blobs).dom().finite(),
        pushed_all(Map::empty(), blobs).len() == blobs.len(),
        forall|k: usize| #[trigger]
            pushed_all(Map::empty(), blobs).contains_key(k) <==> k < blobs.len(),
        forall|k: usize|
            k < blobs.len() ==> #[trigger] pushed_all(Map::empty(), blobs)[k] == blobs[k as int],
    decreases blobs.len(),
{
    if blobs.len() > 0 {
        let prev = blobs.drop_last();
        lemma_key_density(prev);
        let m = pushed_all(Map::empty(), prev);
        let n = prev.len();
        assert(!m.contains_key(n as usize));
        assert forall|k: usize| k < blobs.len() implies #[trigger] pushed_all(Map::empty(), blobs)[k]
            == blobs[k as int] by {
            if k < n {
                assert(prev[k as int] == blobs[k as int]);
            }
        }
    }
}

} // verus!
