//! Single-threaded scenarios exercising the cache's eviction, promotion,
//! overwrite and miss behaviour through the public operations.

use lru_cache::LruCache;
use lru_cache::LruInner;

/// A read promotes its key: after `get(1)`, inserting a fourth key into the
/// full cache evicts key 2 (the least recently used), not key 1.
#[test]
fn promotion_changes_eviction_order() {
    let cache = LruCache::new(3);
    cache.insert(1, "one".to_string());
    cache.insert(2, "two".to_string());
    cache.insert(3, "three".to_string());

    assert_eq!(cache.get(1), Some("one".to_string()));

    cache.insert(4, "four".to_string());

    assert_eq!(cache.get(2), None);
    assert_eq!(cache.get(1), Some("one".to_string()));
    assert_eq!(cache.get(3), Some("three".to_string()));
    assert_eq!(cache.get(4), Some("four".to_string()));
}

/// Overwriting an existing key keeps one entry for it, holding the second
/// value; the entry count stays at one.
#[test]
fn overwrite_keeps_one_entry() {
    let cache = LruCache::new(3);
    cache.insert(1, "a".to_string());
    cache.insert(1, "b".to_string());

    assert_eq!(cache.get(1), Some("b".to_string()));
    assert_eq!(cache.len(), 1);
}

/// Filling a capacity-3 cache and inserting a fourth key evicts exactly the
/// first (least recently used) key.
#[test]
fn fourth_insert_evicts_first_key() {
    let cache = LruCache::new(3);
    cache.insert(1, "v1".to_string());
    cache.insert(2, "v2".to_string());
    cache.insert(3, "v3".to_string());
    cache.insert(4, "v4".to_string());

    assert_eq!(cache.get(1), None);
    assert_eq!(cache.get(2), Some("v2".to_string()));
    assert_eq!(cache.get(3), Some("v3".to_string()));
    assert_eq!(cache.get(4), Some("v4".to_string()));
}

/// A miss returns `None` and changes nothing: the same keys survive the same
/// later evictions as if the miss had never happened.
#[test]
fn miss_leaves_state_unchanged() {
    let cache = LruCache::new(3);
    cache.insert(1, "one".to_string());
    cache.insert(2, "two".to_string());
    cache.insert(3, "three".to_string());

    assert_eq!(cache.get(99), None);
    assert_eq!(cache.len(), 3);

    // Recency was not disturbed: key 1 is still the least recently used.
    cache.insert(4, "four".to_string());
    assert_eq!(cache.get(1), None);
    assert_eq!(cache.get(2), Some("two".to_string()));
}

/// The entry count never exceeds the capacity, whatever the operations.
#[test]
fn capacity_is_never_exceeded() {
    let cache = LruCache::new(3);
    for k in 0..20u64 {
        cache.insert(k, format!("value-{}", k));
        assert!(cache.len() <= 3);
    }
    assert_eq!(cache.len(), 3);
    // Exactly the last three keys survive.
    assert_eq!(cache.get(16), None);
    assert_eq!(cache.get(17), Some("value-17".to_string()));
    assert_eq!(cache.get(18), Some("value-18".to_string()));
    assert_eq!(cache.get(19), Some("value-19".to_string()));
}

/// A capacity-1 cache holds only the latest key touched.
#[test]
fn capacity_one_keeps_latest() {
    let cache = LruCache::new(1);
    cache.insert(1, "one".to_string());
    cache.insert(2, "two".to_string());
    assert_eq!(cache.get(1), None);
    assert_eq!(cache.get(2), Some("two".to_string()));
    assert_eq!(cache.len(), 1);
}

/// The single-owner state behaves exactly like the locked cache.
#[test]
fn inner_state_same_behaviour() {
    let mut state = LruInner::new(3);
    assert_eq!(state.len(), 0);
    state.insert(1, "one".to_string());
    state.insert(2, "two".to_string());
    state.insert(3, "three".to_string());
    assert_eq!(state.len(), 3);

    assert_eq!(state.get(1), Some("one".to_string()));
    state.insert(4, "four".to_string());

    assert_eq!(state.get(2), None);
    assert_eq!(state.get(1), Some("one".to_string()));
    assert_eq!(state.get(3), Some("three".to_string()));
    assert_eq!(state.get(4), Some("four".to_string()));
    assert_eq!(state.len(), 3);
}
