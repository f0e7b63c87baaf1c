use thumbor::cache::store::{CacheStore, DEFAULT_CAPACITY};

fn bytes(tag: u8) -> Vec<u8> {
    vec![tag, tag, tag]
}

#[test]
fn a_new_store_is_empty() {
    let store = CacheStore::new(3);
    assert_eq!(0, store.len());
    assert_eq!(3, store.capacity());
    assert!(!store.contains(1));
}

#[test]
fn the_default_store_holds_1024_entries() {
    let store = CacheStore::default();
    assert_eq!(1024, DEFAULT_CAPACITY);
    assert_eq!(1024, store.capacity());
    assert_eq!(0, store.len());
}

#[test]
fn get_returns_what_put_stored() {
    let mut store = CacheStore::new(2);
    store.put(7, bytes(1));
    assert_eq!(Some(bytes(1)), store.get(7));
    assert_eq!(None, store.get(8));
    assert_eq!(1, store.len());
}

#[test]
fn put_replaces_the_whole_entry() {
    let mut store = CacheStore::new(2);
    store.put(7, bytes(1));
    store.put(7, vec![9]);
    assert_eq!(Some(vec![9]), store.get(7));
    assert_eq!(1, store.len());
}

#[test]
fn one_key_too_many_evicts_the_first() {
    let capacity = 5;
    let mut store = CacheStore::new(capacity);
    for key in 0..=capacity as u64 {
        store.put(key, bytes(key as u8));
        assert!(store.len() <= capacity);
    }
    assert_eq!(capacity, store.len());
    assert!(!store.contains(0));
    for key in 1..=capacity as u64 {
        assert!(store.contains(key));
        assert_eq!(Some(bytes(key as u8)), store.get(key));
    }
}

#[test]
fn the_least_recently_accessed_key_is_evicted() {
    let mut store = CacheStore::new(3);
    store.put(1, bytes(1));
    store.put(2, bytes(2));
    store.put(3, bytes(3));
    assert_eq!(Some(bytes(1)), store.get(1));
    assert_eq!(Some(bytes(2)), store.get(2));
    store.put(4, bytes(4));
    assert!(!store.contains(3));
    assert!(store.contains(1));
    assert!(store.contains(2));
    assert!(store.contains(4));
}

#[test]
fn a_key_that_was_read_is_evicted_last() {
    let mut store = CacheStore::new(3);
    store.put(1, bytes(1));
    store.put(2, bytes(2));
    store.put(3, bytes(3));
    assert_eq!(Some(bytes(1)), store.get(1));

    store.put(10, bytes(10));
    assert!(store.contains(1) && !store.contains(2) && store.contains(3));
    store.put(11, bytes(11));
    assert!(store.contains(1) && !store.contains(3));
    store.put(12, bytes(12));
    assert!(!store.contains(1));
    assert!(store.contains(10) && store.contains(11) && store.contains(12));
}

#[test]
fn a_miss_changes_no_recency() {
    let mut store = CacheStore::new(2);
    store.put(1, bytes(1));
    store.put(2, bytes(2));
    assert_eq!(None, store.get(3));
    store.put(4, bytes(4));
    assert!(!store.contains(1));
    assert!(store.contains(2));
}

#[test]
fn contains_changes_no_recency() {
    let mut store = CacheStore::new(2);
    store.put(1, bytes(1));
    store.put(2, bytes(2));
    assert!(store.contains(1));
    store.put(3, bytes(3));
    assert!(!store.contains(1));
    assert!(store.contains(2));
}

#[test]
fn a_put_of_a_present_key_makes_it_the_most_recent() {
    let mut store = CacheStore::new(2);
    store.put(1, bytes(1));
    store.put(2, bytes(2));
    store.put(1, bytes(5));
    store.put(3, bytes(3));
    assert!(!store.contains(2));
    assert_eq!(Some(bytes(5)), store.get(1));
}

#[test]
fn a_store_without_capacity_keeps_nothing() {
    let mut store = CacheStore::new(0);
    store.put(1, bytes(1));
    assert_eq!(0, store.len());
    assert_eq!(None, store.get(1));
}

#[test]
fn a_store_of_one_keeps_the_last_key() {
    let mut store = CacheStore::new(1);
    store.put(1, bytes(1));
    store.put(2, bytes(2));
    assert_eq!(1, store.len());
    assert_eq!(None, store.get(1));
    assert_eq!(Some(bytes(2)), store.get(2));
}

#[test]
fn the_size_never_exceeds_the_capacity() {
    let mut store = CacheStore::new(4);
    for round in 0..100u64 {
        store.put(round % 7, bytes(round as u8));
        let _ = store.get(round % 3);
        assert!(store.len() <= 4);
    }
}
