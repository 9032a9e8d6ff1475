use dlsite::cache::CacheEntry;
use dlsite::{GenericCache, ResponseCache};

#[test]
fn test_cache_insert_and_get() {
    let mut cache = ResponseCache::new(10, 60_000);
    cache.insert("key1".to_string(), "value1".to_string(), 0);
    assert_eq!(cache.get("key1", 0), Some("value1".to_string()));
}

#[test]
fn test_cache_expiration() {
    let mut cache = ResponseCache::new(10, 100);
    cache.insert("key1".to_string(), "value1".to_string(), 1_000);
    assert_eq!(cache.get("key1", 1_000), Some("value1".to_string()));

    // 150 ms later the entry has outlived its 100 ms time-to-live.
    assert_eq!(cache.get("key1", 1_150), None);
}

#[test]
fn test_cache_lru_eviction() {
    let mut cache = ResponseCache::new(2, 60_000);
    cache.insert("key1".to_string(), "value1".to_string(), 0);
    cache.insert("key2".to_string(), "value2".to_string(), 0);
    cache.insert("key3".to_string(), "value3".to_string(), 0);

    // key1 should be evicted
    assert_eq!(cache.get("key1", 0), None);
    assert_eq!(cache.get("key2", 0), Some("value2".to_string()));
    assert_eq!(cache.get("key3", 0), Some("value3".to_string()));
}

#[test]
fn test_cache_clear() {
    let mut cache = ResponseCache::new(10, 60_000);
    cache.insert("key1".to_string(), "value1".to_string(), 0);
    cache.insert("key2".to_string(), "value2".to_string(), 0);
    assert_eq!(cache.len(), 2);

    cache.clear();
    assert_eq!(cache.len(), 0);
    assert!(cache.is_empty());
}

#[test]
fn expiry_boundary_is_inclusive() {
    let mut cache = ResponseCache::new(4, 100);
    cache.insert("k".to_string(), "v".to_string(), 50);
    assert_eq!(cache.get("k", 150), Some("v".to_string()));
    assert_eq!(cache.get("k", 151), None);
    // The stale entry was dropped by the lookup.
    assert_eq!(cache.len(), 0);
}

#[test]
fn expiry_saturates_at_the_end_of_time() {
    let mut cache = ResponseCache::new(4, 100);
    cache.insert("k".to_string(), "v".to_string(), u64::MAX - 10);
    assert_eq!(cache.get("k", u64::MAX), Some("v".to_string()));
}

#[test]
fn get_refreshes_recency() {
    let mut cache = ResponseCache::new(2, 60_000);
    cache.insert("a".to_string(), "1".to_string(), 0);
    cache.insert("b".to_string(), "2".to_string(), 0);
    assert_eq!(cache.get("a", 0), Some("1".to_string()));
    cache.insert("c".to_string(), "3".to_string(), 0);
    assert_eq!(cache.get("b", 0), None);
    assert_eq!(cache.get("a", 0), Some("1".to_string()));
    assert_eq!(cache.get("c", 0), Some("3".to_string()));
}

#[test]
fn reinsert_replaces_and_keeps_size() {
    let mut cache = ResponseCache::new(2, 60_000);
    cache.insert("a".to_string(), "1".to_string(), 0);
    cache.insert("b".to_string(), "2".to_string(), 0);
    cache.insert("a".to_string(), "10".to_string(), 0);
    assert_eq!(cache.len(), 2);
    cache.insert("c".to_string(), "3".to_string(), 0);
    assert_eq!(cache.get("b", 0), None);
    assert_eq!(cache.get("a", 0), Some("10".to_string()));
}

#[test]
fn length_never_exceeds_capacity() {
    let mut cache = ResponseCache::new(3, 60_000);
    for i in 0..20 {
        cache.insert(format!("k{}", i), format!("v{}", i), i);
        assert!(cache.len() <= 3);
    }
    assert_eq!(cache.len(), 3);
    assert_eq!(cache.get("k16", 20), None);
    assert_eq!(cache.get("k17", 20), Some("v17".to_string()));
    assert_eq!(cache.get("k19", 20), Some("v19".to_string()));
}

#[test]
fn clear_on_empty_cache_and_reuse() {
    let mut cache = ResponseCache::new(1, 10);
    cache.clear();
    assert!(cache.is_empty());
    cache.insert("x".to_string(), "y".to_string(), 0);
    assert!(!cache.is_empty());
    cache.clear();
    cache.clear();
    assert_eq!(cache.len(), 0);
    cache.insert("z".to_string(), "w".to_string(), 0);
    assert_eq!(cache.get("z", 5), Some("w".to_string()));
}

#[test]
fn generic_cache_holds_vectors() {
    let mut cache: GenericCache<Vec<u32>> = GenericCache::new(2, 1_000);
    cache.insert("p".to_string(), vec![1, 2, 3], 0);
    cache.insert("q".to_string(), vec![4], 0);
    assert_eq!(cache.get("p", 500), Some(vec![1, 2, 3]));
    cache.insert("r".to_string(), vec![], 0);
    assert_eq!(cache.get("q", 500), None);
    assert_eq!(cache.get("r", 500), Some(vec![]));
    assert_eq!(cache.get("p", 1_001), None);
    assert_eq!(cache.len(), 1);
}

#[test]
fn cache_entry_expiry() {
    let e = CacheEntry { data: 7u8, expires_at: 100 };
    assert!(!e.is_expired(99));
    assert!(!e.is_expired(100));
    assert!(e.is_expired(101));
}
