//! The `lru` crate's `LruCache`, as far as the cache store uses it.
//!
//! Nothing in this file is proved: each contract states what the crate's
//! source shows of one method, over the entries that the cache holds and the
//! number of entries that it may hold.

use vstd::prelude::*;
use crate::cache::model::{has_key, inserted, lookup, touched};

verus! {

/// `lru::LruCache`, opaque to the verifier.
#[verifier::external_type_specification]
#[verifier::external_body]
#[verifier::reject_recursive_types(K)]
#[verifier::reject_recursive_types(V)]
#[verifier::reject_recursive_types(S)]
pub struct ExLruCache<K, V, S>(lru::LruCache<K, V, S>);

/// The hash builder that `LruCache` takes by default, opaque to the verifier.
#[verifier::external_type_specification]
#[verifier::external_body]
pub struct ExDefaultHasher(lru::DefaultHasher);

/// The entries that a cache holds, in the order of its list: most recently
/// used first.
pub uninterp spec fn lru_entries(cache: lru::LruCache<u64, Vec<u8>>) -> Seq<(u64, Seq<u8>)>;

/// The number of entries that a cache may hold (its `cap`).
pub uninterp spec fn lru_limit(cache: lru::LruCache<u64, Vec<u8>>) -> nat;

/// `LruCache::unbounded`: a cache without entries that may hold `usize::MAX`
/// of them.
#[verifier::external_body]
pub(crate) fn lru_unbounded() -> (cache: lru::LruCache<u64, Vec<u8>>)
    ensures
        lru_entries(cache).len() == 0,
        lru_limit(cache) == usize::MAX,
{
    lru::LruCache::unbounded()
}

/// `LruCache::resize`: sets the number of entries that the cache may hold.
/// The entries stay as they are if they fit; otherwise entries leave from the
/// least recently used end until they do.
#[verifier::external_body]
pub(crate) fn lru_resize(cache: &mut lru::LruCache<u64, Vec<u8>>, limit: usize)
    ensures
        lru_limit(*final(cache)) == limit,
        lru_entries(*final(cache)) == if lru_entries(*old(cache)).len() <= limit {
            lru_entries(*old(cache))
        } else {
            lru_entries(*old(cache)).take(limit as int)
        },
{
    cache.resize(limit)
}

/// `LruCache::len`: the number of entries.
#[verifier::external_body]
pub(crate) fn lru_len(cache: &lru::LruCache<u64, Vec<u8>>) -> (n: usize)
    ensures
        n == lru_entries(*cache).len(),
{
    cache.len()
}

/// `LruCache::contains`: whether an entry is stored under `key`. The order of
/// the entries is not touched.
#[verifier::external_body]
pub(crate) fn lru_contains(cache: &lru::LruCache<u64, Vec<u8>>, key: u64) -> (found: bool)
    ensures
        found == has_key(lru_entries(*cache), key),
{
    cache.contains(&key)
}

/// `LruCache::get`, with the value cloned: the value stored under `key`, if
/// any. An entry that is found moves to the front of the list; nothing else
/// changes.
#[verifier::external_body]
pub(crate) fn lru_get(cache: &mut lru::LruCache<u64, Vec<u8>>, key: u64) -> (found: Option<
    Vec<u8>,
>)
    ensures
        lru_limit(*final(cache)) == lru_limit(*old(cache)),
        lru_entries(*final(cache)) == touched(lru_entries(*old(cache)), key),
        match found {
            Some(bytes) => lookup(lru_entries(*old(cache)), key) == Some(bytes@),
            None => lookup(lru_entries(*old(cache)), key) is None,
        },
{
    cache.get(&key).cloned()
}

/// `LruCache::put`, its result dropped: stores `value` under `key`. A key that
/// is present keeps its entry, which gets the new value and moves to the
/// front. A new key gets an entry at the front; if the cache is full, the
/// entry at the end of the list is removed for it. A cache that may hold no
/// entry stays empty.
#[verifier::external_body]
pub(crate) fn lru_put(cache: &mut lru::LruCache<u64, Vec<u8>>, key: u64, value: Vec<u8>)
    ensures
        lru_limit(*final(cache)) == lru_limit(*old(cache)),
        lru_entries(*final(cache)) == inserted(
            lru_entries(*old(cache)),
            lru_limit(*old(cache)),
            key,
            value@,
        ),
{
    cache.put(key, value);
}

} // verus!
