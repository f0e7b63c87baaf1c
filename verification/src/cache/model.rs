//! The mathematical model of a least-recently-used cache: a sequence of
//! entries, most recently used first, and what a lookup and an insertion
//! make of it.

use vstd::prelude::*;
use crate::key::CacheKey;

verus! {

/// One cached entry: the key and the bytes stored under it.
pub type Entry = (CacheKey, Seq<u8>);

/// The index of the first entry stored under `key`, or the length of
/// `entries` when there is none.
pub open spec fn position(entries: Seq<Entry>, key: u64) -> int
    decreases entries.len(),
{
    if entries.len() == 0 {
        0
    } else if entries[0].0 == key {
        0
    } else {
        1 + position(entries.drop_first(), key)
    }
}

/// Whether some entry is stored under `key`.
pub open spec fn has_key(entries: Seq<Entry>, key: u64) -> bool {
    position(entries, key) < entries.len()
}

/// The bytes stored under `key`, if any.
pub open spec fn lookup(entries: Seq<Entry>, key: u64) -> Option<Seq<u8>> {
    if has_key(entries, key) {
        Some(entries[position(entries, key)].1)
    } else {
        None
    }
}

/// No key occurs in two entries.
pub open spec fn keys_distinct(entries: Seq<Entry>) -> bool {
    forall|i: int, j: int| 0 <= i < j < entries.len() ==> entries[i].0 != entries[j].0
}

/// The entries after a lookup of `key`: a hit moves the entry to the front,
/// a miss changes nothing.
pub open spec fn touched(entries: Seq<Entry>, key: u64) -> Seq<Entry> {
    let at = position(entries, key);
    if at < entries.len() {
        seq![entries[at]] + entries.remove(at)
    } else {
        entries
    }
}

/// The entries after `value` is stored under `key` in a cache that may hold
/// `limit` entries. A key that is present gets the new value and moves to the
/// front. A new key goes to the front, and if the cache is full the last
/// entry, the least recently used one, leaves. A cache with limit zero stores
/// nothing.
pub open spec fn inserted(entries: Seq<Entry>, limit: nat, key: u64, value: Seq<u8>) -> Seq<
    Entry,
> {
    let at = position(entries, key);
    if at < entries.len() {
        seq![(key, value)] + entries.remove(at)
    } else if limit == 0 {
        entries
    } else if entries.len() == limit {
        seq![(key, value)] + entries.drop_last()
    } else {
        seq![(key, value)] + entries
    }
}

/// The invariant of a cache that may hold `limit` entries.
pub open spec fn well_formed(entries: Seq<Entry>, limit: nat) -> bool {
    keys_distinct(entries) && entries.len() <= limit
}

/// `position` is the least index at which `key` is stored.
pub proof fn lemma_position(entries: Seq<Entry>, key: u64)
    ensures
        0 <= position(entries, key) <= entries.len(),
        has_key(entries, key) ==> entries[position(entries, key)].0 == key,
        forall|i: int| 0 <= i < position(entries, key) ==> entries[i].0 != key,
    decreases entries.len(),
{
    if entries.len() > 0 && entries[0].0 != key {
        let rest = entries.drop_first();
        lemma_position(rest, key);
        assert forall|i: int| 0 <= i < position(entries, key) implies entries[i].0 != key by {
            if i > 0 {
                assert(entries[i] == rest[i - 1]);
            }
        }
    }
}

/// A key is present exactly if some entry is stored under it.
pub proof fn lemma_has_key(entries: Seq<Entry>, key: u64)
    ensures
        has_key(entries, key) <==> exists|i: int| 0 <= i < entries.len() && entries[i].0 == key,
{
    lemma_position(entries, key);
    if has_key(entries, key) {
        let at = position(entries, key);
        assert(0 <= at < entries.len() && entries[at].0 == key);
    }
}

/// Where keys are distinct, the entry stored under a key is found at its
/// position.
pub proof fn lemma_position_unique(entries: Seq<Entry>, key: u64, i: int)
    requires
        keys_distinct(entries),
        0 <= i < entries.len(),
        entries[i].0 == key,
    ensures
        position(entries, key) == i,
{
    lemma_position(entries, key);
}

/// A lookup keeps a cache well formed, and keeps its length.
pub proof fn lemma_touched_well_formed(entries: Seq<Entry>, limit: nat, key: u64)
    requires
        well_formed(entries, limit),
    ensures
        well_formed(touched(entries, key), limit),
        touched(entries, key).len() == entries.len(),
{
    lemma_position(entries, key);
    let at = position(entries, key);
    if at < entries.len() {
        let after = touched(entries, key);
        assert forall|i: int, j: int| 0 <= i < j < after.len() implies after[i].0 != after[j].0 by {
            lemma_moved_to_front_index(entries, at, i);
            lemma_moved_to_front_index(entries, at, j);
        }
    }
}

/// Where the entry at `at` has moved to the front, the entry at `i` is the
/// one that stood at `at` (for `i == 0`), one place further on (up to `at`)
/// or at `i`.
proof fn lemma_moved_to_front_index(entries: Seq<Entry>, at: int, i: int)
    requires
        0 <= at < entries.len(),
        0 <= i < entries.len(),
    ensures
        (seq![entries[at]] + entries.remove(at))[i] == if i == 0 {
            entries[at]
        } else if i <= at {
            entries[i - 1]
        } else {
            entries[i]
        },
{
}

/// An insertion keeps a cache well formed.
pub proof fn lemma_inserted_well_formed(entries: Seq<Entry>, limit: nat, key: u64, value: Seq<u8>)
    requires
        well_formed(entries, limit),
    ensures
        well_formed(inserted(entries, limit, key, value), limit),
{
    lemma_position(entries, key);
    let at = position(entries, key);
    let after = inserted(entries, limit, key, value);
    if at < entries.len() {
        assert forall|i: int, j: int| 0 <= i < j < after.len() implies after[i].0 != after[j].0 by {
            if i > 0 {
                assert(after[i] == entries.remove(at)[i - 1]);
            }
            assert(after[j] == entries.remove(at)[j - 1]);
        }
    } else if limit != 0 {
        assert forall|i: int, j: int| 0 <= i < j < after.len() implies after[i].0 != after[j].0 by {
            if i > 0 {
                assert(after[i] == entries[i - 1]);
            }
            assert(after[j] == entries[j - 1]);
        }
    }
}

} // verus!
