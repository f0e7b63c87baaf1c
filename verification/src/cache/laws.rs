//! What holds of every least-recently-used cache: which entry an insertion
//! evicts, and what a lookup does to the order of eviction.

use vstd::prelude::*;
use crate::cache::model::{
    has_key, inserted, keys_distinct, lemma_has_key, lemma_inserted_well_formed, lemma_position,
    lemma_position_unique, lemma_touched_well_formed, lookup, position, touched, well_formed,
    Entry,
};

verus! {

/// The entries after each of `items` has been stored, in order, in a cache
/// that may hold `limit` entries.
pub open spec fn inserted_all(entries: Seq<Entry>, limit: nat, items: Seq<Entry>) -> Seq<Entry>
    decreases items.len(),
{
    if items.len() == 0 {
        entries
    } else {
        inserted(
            inserted_all(entries, limit, items.drop_last()),
            limit,
            items.last().0,
            items.last().1,
        )
    }
}

/// Insertions keep a cache well formed.
pub proof fn lemma_inserted_all_well_formed(entries: Seq<Entry>, limit: nat, items: Seq<Entry>)
    requires
        well_formed(entries, limit),
    ensures
        well_formed(inserted_all(entries, limit, items), limit),
    decreases items.len(),
{
    if items.len() > 0 {
        lemma_inserted_all_well_formed(entries, limit, items.drop_last());
        lemma_inserted_well_formed(
            inserted_all(entries, limit, items.drop_last()),
            limit,
            items.last().0,
            items.last().1,
        );
    }
}

/// What was stored last is found: after an insertion into a cache that may
/// hold at least one entry, a lookup of the key gives the value.
pub proof fn lemma_inserted_is_found(entries: Seq<Entry>, limit: nat, key: u64, value: Seq<u8>)
    requires
        limit > 0,
    ensures
        lookup(inserted(entries, limit, key, value), key) == Some(value),
        inserted(entries, limit, key, value)[0] == (key, value),
{
    lemma_position(entries, key);
    let after = inserted(entries, limit, key, value);
    assert(after[0] == (key, value));
    assert(position(after, key) == 0);
}

/// An insertion changes nothing under the other keys, but for the one entry
/// that it may evict: a key other than the inserted one is found afterwards
/// exactly if it was found before and is not the evicted one, with the bytes
/// that it had.
pub proof fn lemma_inserted_keeps_others(
    entries: Seq<Entry>,
    limit: nat,
    key: u64,
    value: Seq<u8>,
    other: u64,
)
    requires
        well_formed(entries, limit),
        other != key,
    ensures
        lookup(inserted(entries, limit, key, value), other) == if evicts(entries, limit, key)
            && entries.last().0 == other {
            None
        } else {
            lookup(entries, other)
        },
{
    let after = inserted(entries, limit, key, value);
    lemma_inserted_well_formed(entries, limit, key, value);
    lemma_position(entries, key);
    lemma_position(entries, other);
    lemma_position(after, other);
    let at = position(entries, key);
    let was = position(entries, other);
    let is = position(after, other);
    if at < entries.len() {
        if was < entries.len() {
            let now = if was < at {
                was + 1
            } else {
                was
            };
            assert(after[now] == entries[was]);
            lemma_position_unique(after, other, now);
        } else if is < after.len() {
            assert(after[is] == entries.remove(at)[is - 1]);
        }
    } else if limit == 0 {
    } else if entries.len() == limit {
        if was < entries.len() - 1 {
            assert(after[was + 1] == entries[was]);
            lemma_position_unique(after, other, was + 1);
        } else if is < after.len() {
            assert(after[is] == entries[is - 1]);
            lemma_position_unique(entries, other, is - 1);
        }
    } else {
        if was < entries.len() {
            assert(after[was + 1] == entries[was]);
            lemma_position_unique(after, other, was + 1);
        } else if is < after.len() {
            assert(after[is] == entries[is - 1]);
        }
    }
}

/// Whether storing something under `key` evicts an entry: the key is new and
/// the cache is full.
pub open spec fn evicts(entries: Seq<Entry>, limit: nat, key: u64) -> bool {
    !has_key(entries, key) && limit > 0 && entries.len() == limit
}

/// An insertion into a full cache under a new key evicts exactly the least
/// recently used entry: afterwards that entry's key is absent, the new key is
/// found, and every other entry is found as it was.
pub proof fn lemma_full_cache_evicts_least_recent(
    entries: Seq<Entry>,
    limit: nat,
    key: u64,
    value: Seq<u8>,
)
    requires
        well_formed(entries, limit),
        evicts(entries, limit, key),
    ensures
        inserted(entries, limit, key, value).len() == limit,
        !has_key(inserted(entries, limit, key, value), entries.last().0),
        lookup(inserted(entries, limit, key, value), key) == Some(value),
        forall|i: int|
            0 <= i < entries.len() - 1 ==> lookup(
                inserted(entries, limit, key, value),
                (#[trigger] entries[i]).0,
            ) == Some(entries[i].1),
{
    let after = inserted(entries, limit, key, value);
    lemma_position(entries, key);
    lemma_inserted_is_found(entries, limit, key, value);
    lemma_has_key(entries, key);
    let last = entries.last().0;
    lemma_inserted_keeps_others(entries, limit, key, value, last);
    assert forall|i: int| 0 <= i < entries.len() - 1 implies lookup(
        after,
        (#[trigger] entries[i]).0,
    ) == Some(entries[i].1) by {
        let other = entries[i].0;
        lemma_inserted_keeps_others(entries, limit, key, value, other);
        lemma_position_unique(entries, other, i);
    }
}

/// After distinct keys have been stored in an empty cache, the cache holds
/// the last `limit` of them, the latest first.
pub proof fn lemma_filled_from_empty(limit: nat, items: Seq<Entry>)
    requires
        keys_distinct(items),
    ensures
        ({
            let after = inserted_all(Seq::<Entry>::empty(), limit, items);
            &&& after.len() == if items.len() <= limit {
                items.len()
            } else {
                limit
            }
            &&& forall|j: int| 0 <= j < after.len() ==> after[j] == items[items.len() - 1 - j]
        }),
    decreases items.len(),
{
    let empty = Seq::<Entry>::empty();
    if items.len() > 0 {
        let before = items.drop_last();
        let (key, value) = items.last();
        lemma_filled_from_empty(limit, before);
        let mid = inserted_all(empty, limit, before);
        let after = inserted_all(empty, limit, items);
        assert(after == inserted(mid, limit, key, value));
        lemma_has_key(mid, key);
        assert(!has_key(mid, key)) by {
            if has_key(mid, key) {
                let i = choose|i: int| 0 <= i < mid.len() && mid[i].0 == key;
                assert(mid[i] == before[before.len() - 1 - i]);
                assert(before[before.len() - 1 - i] == items[before.len() - 1 - i]);
            }
        }
        lemma_position(mid, key);
        assert forall|j: int| 0 <= j < after.len() implies after[j] == items[items.len() - 1
            - j] by {
            if j > 0 {
                assert(after[j] == mid[j - 1]);
                assert(mid[j - 1] == before[before.len() - 1 - (j - 1)]);
            }
        }
    }
}

/// After one key more than the cache may hold has been stored in an empty
/// cache, all keys distinct, exactly the key stored first is absent: every
/// other key is found with its bytes.
pub proof fn lemma_overfilled_loses_first(limit: nat, items: Seq<Entry>)
    requires
        keys_distinct(items),
        items.len() == limit + 1,
    ensures
        !has_key(inserted_all(Seq::<Entry>::empty(), limit, items), items[0].0),
        forall|i: int|
            1 <= i < items.len() ==> lookup(
                inserted_all(Seq::<Entry>::empty(), limit, items),
                (#[trigger] items[i]).0,
            ) == Some(items[i].1),
        inserted_all(Seq::<Entry>::empty(), limit, items).len() == limit,
{
    let after = inserted_all(Seq::<Entry>::empty(), limit, items);
    lemma_filled_from_empty(limit, items);
    lemma_inserted_all_well_formed(Seq::<Entry>::empty(), limit, items);
    lemma_has_key(after, items[0].0);
    if has_key(after, items[0].0) {
        let j = choose|j: int| 0 <= j < after.len() && after[j].0 == items[0].0;
        assert(after[j] == items[items.len() - 1 - j]);
    }
    assert forall|i: int| 1 <= i < items.len() implies lookup(after, (#[trigger] items[i]).0)
        == Some(items[i].1) by {
        let j = items.len() - 1 - i;
        assert(after[j] == items[i]);
        lemma_position_unique(after, items[i].0, j);
    }
}

/// A lookup changes the order of the entries, not the entries: every key is
/// found afterwards as before.
pub proof fn lemma_touched_keeps_entries(entries: Seq<Entry>, key: u64, other: u64)
    requires
        keys_distinct(entries),
    ensures
        lookup(touched(entries, key), other) == lookup(entries, other),
{
    let after = touched(entries, key);
    lemma_touched_well_formed(entries, entries.len(), key);
    lemma_position(entries, key);
    lemma_position(entries, other);
    lemma_position(after, other);
    let at = position(entries, key);
    let was = position(entries, other);
    let is = position(after, other);
    if at < entries.len() {
        if was < entries.len() {
            let now = if was == at {
                0
            } else if was < at {
                was + 1
            } else {
                was
            };
            assert(after[now] == entries[was]);
            lemma_position_unique(after, other, now);
        } else if is < after.len() {
            if is == 0 {
                assert(after[is] == entries[at]);
            } else {
                assert(after[is] == entries.remove(at)[is - 1]);
            }
        }
    }
}

/// After a hit, the key that was looked up is the most recently used one.
pub proof fn lemma_hit_is_most_recent(entries: Seq<Entry>, key: u64)
    requires
        has_key(entries, key),
    ensures
        touched(entries, key)[0].0 == key,
        touched(entries, key).len() == entries.len(),
{
    lemma_position(entries, key);
}

/// The last `kept` entries of `now` are the first `kept` entries of `then`,
/// and no entry before them has a key of `then`.
spec fn survive(now: Seq<Entry>, then: Seq<Entry>, kept: int) -> bool {
    &&& 0 <= kept <= then.len()
    &&& kept <= now.len()
    &&& forall|j: int| 0 <= j < kept ==> now[now.len() - kept + j] == then[j]
    &&& forall|i: int| 0 <= i < now.len() - kept ==> !has_key(then, (#[trigger] now[i]).0)
}

/// Insertions under new keys push the entries of a cache towards the end and
/// evict them from there: what is left of them is a prefix, in the old order.
proof fn lemma_new_keys_evict_from_the_end(then: Seq<Entry>, limit: nat, fresh: Seq<Entry>) -> (kept:
    int)
    requires
        well_formed(then, limit),
        forall|i: int| 0 <= i < fresh.len() ==> !has_key(then, (#[trigger] fresh[i]).0),
    ensures
        survive(inserted_all(then, limit, fresh), then, kept),
    decreases fresh.len(),
{
    if fresh.len() == 0 {
        then.len() as int
    } else {
        let before = fresh.drop_last();
        let (key, value) = fresh.last();
        assert forall|i: int| 0 <= i < before.len() implies !has_key(
            then,
            (#[trigger] before[i]).0,
        ) by {
            assert(before[i] == fresh[i]);
        }
        let kept = lemma_new_keys_evict_from_the_end(then, limit, before);
        let mid = inserted_all(then, limit, before);
        let now = inserted_all(then, limit, fresh);
        assert(now == inserted(mid, limit, key, value));
        assert(!has_key(then, key)) by {
            assert(fresh[fresh.len() - 1] == fresh.last());
        }
        lemma_inserted_all_well_formed(then, limit, before);
        lemma_position(mid, key);
        let at = position(mid, key);
        let first_kept = mid.len() - kept;
        if at < mid.len() {
            assert(at < first_kept) by {
                if at >= first_kept {
                    assert(mid[mid.len() - kept + (at - first_kept)] == then[at - first_kept]);
                    lemma_has_key(then, key);
                }
            }
            assert forall|i: int| 0 <= i < now.len() - kept implies !has_key(
                then,
                (#[trigger] now[i]).0,
            ) by {
                if i > 0 {
                    if i <= at {
                        assert(now[i] == mid[i - 1]);
                    } else {
                        assert(now[i] == mid[i]);
                    }
                }
            }
            assert forall|j: int| 0 <= j < kept implies now[now.len() - kept + j] == then[j] by {
                assert(now[now.len() - kept + j] == mid[mid.len() - kept + j]);
            }
            kept
        } else if limit == 0 {
            kept
        } else if mid.len() == limit {
            let left = if kept > 0 {
                kept - 1
            } else {
                0
            };
            assert forall|i: int| 0 <= i < now.len() - left implies !has_key(
                then,
                (#[trigger] now[i]).0,
            ) by {
                if i > 0 {
                    assert(now[i] == mid[i - 1]);
                }
            }
            assert forall|j: int| 0 <= j < left implies now[now.len() - left + j] == then[j] by {
                assert(now[now.len() - left + j] == mid[mid.len() - kept + j]);
            }
            left
        } else {
            assert forall|i: int| 0 <= i < now.len() - kept implies !has_key(
                then,
                (#[trigger] now[i]).0,
            ) by {
                if i > 0 {
                    assert(now[i] == mid[i - 1]);
                }
            }
            assert forall|j: int| 0 <= j < kept implies now[now.len() - kept + j] == then[j] by {
                assert(now[now.len() - kept + j] == mid[mid.len() - kept + j]);
            }
            kept
        }
    }
}

/// A key that was looked up is evicted last: after a hit on `key`, however
/// many new keys are stored, as long as any entry that was in the cache at
/// the hit is still found, `key` is found too.
pub proof fn lemma_hit_is_evicted_last(
    entries: Seq<Entry>,
    limit: nat,
    key: u64,
    fresh: Seq<Entry>,
    other: u64,
)
    requires
        well_formed(entries, limit),
        has_key(entries, key),
        forall|i: int| 0 <= i < fresh.len() ==> !has_key(entries, (#[trigger] fresh[i]).0),
        has_key(entries, other),
        has_key(inserted_all(touched(entries, key), limit, fresh), other),
    ensures
        lookup(inserted_all(touched(entries, key), limit, fresh), key) == lookup(entries, key),
{
    let then = touched(entries, key);
    let now = inserted_all(then, limit, fresh);
    lemma_touched_well_formed(entries, limit, key);
    lemma_hit_is_most_recent(entries, key);
    lemma_position(entries, key);
    assert forall|i: int| 0 <= i < fresh.len() implies !has_key(then, (#[trigger] fresh[i]).0) by {
        lemma_touched_keeps_entries(entries, key, fresh[i].0);
    }
    let kept = lemma_new_keys_evict_from_the_end(then, limit, fresh);
    lemma_inserted_all_well_formed(then, limit, fresh);
    lemma_position(now, other);
    let at = position(now, other);
    lemma_touched_keeps_entries(entries, key, other);
    assert(kept > 0) by {
        if kept == 0 {
            assert(!has_key(then, now[at].0));
        }
    }
    assert(now[now.len() - kept + 0] == then[0]);
    lemma_position_unique(now, key, now.len() - kept);
}

/// One use of a cache: a lookup of a key, or the storing of bytes under a
/// key.
pub enum Access {
    Get(u64),
    Put(u64, Seq<u8>),
}

impl Access {
    /// The key that is looked up or stored under.
    pub open spec fn key(self) -> u64 {
        match self {
            Access::Get(key) => key,
            Access::Put(key, _) => key,
        }
    }
}

/// The entries after one use of a cache that may hold `limit` entries.
pub open spec fn applied(entries: Seq<Entry>, limit: nat, access: Access) -> Seq<Entry> {
    match access {
        Access::Get(key) => touched(entries, key),
        Access::Put(key, value) => inserted(entries, limit, key, value),
    }
}

/// The entries of a cache that may hold `limit` entries, was empty, and has
/// been used as `history` tells, in its order.
pub open spec fn replayed(limit: nat, history: Seq<Access>) -> Seq<Entry>
    decreases history.len(),
{
    if history.len() == 0 {
        Seq::empty()
    } else {
        applied(replayed(limit, history.drop_last()), limit, history.last())
    }
}

/// When `key` was last used: the index of the last access to it in
/// `history`, or -1 if it was never used.
pub open spec fn last_use(history: Seq<Access>, key: u64) -> int
    decreases history.len(),
{
    if history.len() == 0 {
        -1
    } else if history.last().key() == key {
        history.len() - 1
    } else {
        last_use(history.drop_last(), key)
    }
}

/// The entries stand in the order of their last use, the latest first, and
/// every entry has been used.
pub open spec fn ordered_by_last_use(entries: Seq<Entry>, history: Seq<Access>) -> bool {
    &&& forall|i: int| 0 <= i < entries.len() ==> 0 <= last_use(history, (#[trigger] entries[i]).0)
    &&& forall|i: int, j: int|
        0 <= i < j < entries.len() ==> last_use(history, (#[trigger] entries[i]).0) > last_use(
            history,
            (#[trigger] entries[j]).0,
        )
}

/// A key was last used before the end of the history.
proof fn lemma_last_use_bounds(history: Seq<Access>, key: u64)
    ensures
        -1 <= last_use(history, key) < history.len(),
    decreases history.len(),
{
    if history.len() > 0 && history.last().key() != key {
        lemma_last_use_bounds(history.drop_last(), key);
    }
}

/// However a cache has been used, it is well formed and its entries stand in
/// the order of their last use: the first entry is the one used last, the
/// last entry the one whose last use lies furthest back.
pub proof fn lemma_replayed_is_ordered(limit: nat, history: Seq<Access>)
    ensures
        well_formed(replayed(limit, history), limit),
        ordered_by_last_use(replayed(limit, history), history),
    decreases history.len(),
{
    if history.len() > 0 {
        let earlier = history.drop_last();
        let access = history.last();
        let key = access.key();
        let before = replayed(limit, earlier);
        let after = replayed(limit, history);
        lemma_replayed_is_ordered(limit, earlier);
        lemma_position(before, key);
        let at = position(before, key);
        assert forall|k: u64| k != key implies last_use(history, k) == last_use(earlier, k) by {}
        assert forall|k: u64| last_use(earlier, k) < last_use(history, key) by {
            lemma_last_use_bounds(earlier, k);
        }
        let stored = match access {
            Access::Get(_) => {
                lemma_touched_well_formed(before, limit, key);
                false
            },
            Access::Put(_, value) => {
                lemma_inserted_well_formed(before, limit, key, value);
                limit > 0
            },
        };
        if at < before.len() {
            // The entry under the key goes to the front; the others keep their order.
            assert forall|i: int| 0 < i < after.len() implies (#[trigger] after[i]).0 == if i
                <= at {
                before[i - 1].0
            } else {
                before[i].0
            } && after[i].0 != key by {
                assert(after[i] == before.remove(at)[i - 1]);
                assert(before[at].0 == key);
            }
            assert(after[0].0 == key);
        } else if stored {
            // A new entry stands at the front; the others follow in their order.
            assert forall|i: int| 0 < i < after.len() implies #[trigger] after[i] == before[i
                - 1] && after[i].0 != key by {}
            assert(after[0].0 == key);
        } else {
            // Nothing was stored: a miss, or a cache that holds nothing.
            assert(after == before);
            assert forall|i: int| 0 <= i < after.len() implies (#[trigger] after[i]).0 != key by {}
        }
    }
}

/// The entry that an insertion evicts is the least recently used one: of all
/// entries in the cache, however it has been used, its last use lies
/// furthest back.
pub proof fn lemma_evicted_is_least_recently_used(
    limit: nat,
    history: Seq<Access>,
    key: u64,
    value: Seq<u8>,
)
    requires
        evicts(replayed(limit, history), limit, key),
    ensures
        ({
            let before = replayed(limit, history);
            let after = inserted(before, limit, key, value);
            &&& !has_key(after, before.last().0)
            &&& forall|i: int|
                0 <= i < before.len() - 1 ==> {
                    &&& lookup(after, (#[trigger] before[i]).0) == Some(before[i].1)
                    &&& last_use(history, before[i].0) > last_use(history, before.last().0)
                }
        }),
{
    let before = replayed(limit, history);
    lemma_replayed_is_ordered(limit, history);
    lemma_full_cache_evicts_least_recent(before, limit, key, value);
}

} // verus!
