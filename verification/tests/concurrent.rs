//! Concurrent use of the cache from several threads through a shared
//! reference: the capacity bound holds at every quiescent point, and every
//! value read back is one that some thread stored under that key.

use lru_cache::LruCache;

#[test]
fn concurrent_inserts_and_reads_stay_consistent() {
    let cache = LruCache::new(3);

    cache.insert(1, "one".to_string());
    cache.insert(2, "two".to_string());
    cache.insert(3, "three".to_string());

    crossbeam::thread::scope(|s| {
        for i in 0..3u64 {
            let c = &cache;
            s.spawn(move |_| {
                for j in 0..5u64 {
                    let key = (i + j) % 5;
                    c.insert(key, format!("value-{}", key));
                }
                for j in 0..5u64 {
                    let key = (i + j) % 5;
                    if let Some(v) = c.get(key) {
                        // This worker has already written `value-key` under
                        // every key it reads, and every other write to that
                        // key stores the same value, so a hit can only ever
                        // return the value belonging to this key.
                        assert_eq!(v, format!("value-{}", key));
                    }
                }
            });
        }
    })
    .unwrap();

    assert!(cache.len() <= 3);

    // The keys the workers touched are 0..=4; whatever survived maps to the
    // value stored under its own key.
    let mut hits = 0;
    for key in 0..5u64 {
        if let Some(v) = cache.get(key) {
            assert_eq!(v, format!("value-{}", key));
            hits += 1;
        }
    }
    assert_eq!(hits, 3);
}

#[test]
fn concurrent_overwrites_one_key() {
    let cache = LruCache::new(2);
    crossbeam::thread::scope(|s| {
        for t in 0..4u64 {
            let c = &cache;
            s.spawn(move |_| {
                for _ in 0..50 {
                    c.insert(7, format!("from-{}", t));
                    assert!(c.len() <= 2);
                }
            });
        }
    })
    .unwrap();

    // All writers used the same key: exactly one entry remains, holding one
    // of the written values.
    assert_eq!(cache.len(), 1);
    let v = cache.get(7).unwrap();
    assert!((0..4u64).any(|t| v == format!("from-{}", t)));
}
