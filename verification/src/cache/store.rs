//! The cache store itself.

use vstd::prelude::*;
use crate::cache::backend::{
    lru_contains, lru_entries, lru_get, lru_len, lru_limit, lru_put, lru_resize, lru_unbounded,
};
use crate::key::CacheKey;
use crate::cache::model::{
    has_key, inserted, lemma_inserted_well_formed, lemma_touched_well_formed, lookup, touched,
    well_formed, Entry,
};

verus! {

/// The number of entries that a store holds when no other capacity is given.
pub const DEFAULT_CAPACITY: usize = 1024;

/// A bounded cache from keys to image bytes that evicts the least recently
/// used entry.
///
/// Its view is the sequence of its entries, most recently used first.
///
/// A lookup and an insertion take the store exclusively, so no two of them
/// overlap: a program that shares the store between tasks keeps it behind a
/// lock, which it holds for one call at a time.
pub struct CacheStore {
    entries: lru::LruCache<u64, Vec<u8>>,
    capacity: usize,
}

impl View for CacheStore {
    type V = Seq<Entry>;

    closed spec fn view(&self) -> Seq<Entry> {
        lru_entries(self.entries)
    }
}

impl CacheStore {
    /// The number of entries that the store may hold.
    pub closed spec fn spec_capacity(&self) -> nat {
        self.capacity as nat
    }

    /// The store's invariant: no key is stored twice, and the entries are no
    /// more than the capacity.
    pub closed spec fn wf(&self) -> bool {
        &&& lru_limit(self.entries) == self.capacity
        &&& well_formed(self@, self.capacity as nat)
    }

    /// What the invariant means for the view.
    pub proof fn lemma_wf(&self)
        requires
            self.wf(),
        ensures
            well_formed(self@, self.spec_capacity()),
    {
    }

    /// An empty store that may hold `capacity` entries.
    pub fn new(capacity: usize) -> (store: CacheStore)
        ensures
            store.wf(),
            store@.len() == 0,
            store.spec_capacity() == capacity,
    {
        let mut entries = lru_unbounded();
        lru_resize(&mut entries, capacity);
        CacheStore { entries, capacity }
    }

    /// The number of entries that the store may hold.
    pub fn capacity(&self) -> (n: usize)
        ensures
            n == self.spec_capacity(),
    {
        self.capacity
    }

    /// The number of entries in the store: never more than the capacity.
    pub fn len(&self) -> (n: usize)
        ensures
            n == self@.len(),
            self.wf() ==> n <= self.spec_capacity(),
    {
        lru_len(&self.entries)
    }

    /// Whether bytes are stored under `key`. The recency of the entries is
    /// left as it is.
    pub fn contains(&self, key: CacheKey) -> (found: bool)
        ensures
            found == has_key(self@, key),
    {
        lru_contains(&self.entries, key)
    }

    /// A copy of the bytes stored under `key`, if any. A hit makes the entry
    /// the most recently used one.
    pub fn get(&mut self, key: CacheKey) -> (found: Option<Vec<u8>>)
        requires
            old(self).wf(),
        ensures
            final(self).wf(),
            final(self).spec_capacity() == old(self).spec_capacity(),
            final(self)@ == touched(old(self)@, key),
            match found {
                Some(bytes) => lookup(old(self)@, key) == Some(bytes@),
                None => lookup(old(self)@, key) is None,
            },
    {
        proof {
            lemma_touched_well_formed(self@, self.capacity as nat, key);
        }
        lru_get(&mut self.entries, key)
    }

    /// Stores `bytes` under `key`, in place of what was stored under it, and
    /// makes the entry the most recently used one. If the store is full and
    /// the key is new, the least recently used entry is evicted.
    pub fn put(&mut self, key: CacheKey, bytes: Vec<u8>)
        requires
            old(self).wf(),
        ensures
            final(self).wf(),
            final(self).spec_capacity() == old(self).spec_capacity(),
            final(self)@ == inserted(old(self)@, old(self).spec_capacity(), key, bytes@),
    {
        proof {
            lemma_inserted_well_formed(self@, self.capacity as nat, key, bytes@);
        }
        lru_put(&mut self.entries, key, bytes);
    }
}

impl Default for CacheStore {
    /// An empty store with the default capacity.
    fn default() -> (store: CacheStore)
        ensures
            store.wf(),
            store@.len() == 0,
            store.spec_capacity() == DEFAULT_CAPACITY,
    {
        CacheStore::new(DEFAULT_CAPACITY)
    }
}

} // verus!
