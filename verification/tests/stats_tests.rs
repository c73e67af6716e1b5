use mini_redis::cache::CacheStats;

#[test]
fn test_stats_new() {
    let stats = CacheStats::new();
    assert_eq!(stats.hits, 0);
    assert_eq!(stats.misses, 0);
    assert_eq!(stats.evictions, 0);
    assert_eq!(stats.total_entries, 0);
}

#[test]
fn test_record_eviction() {
    let mut stats = CacheStats::new();
    stats.record_eviction();
    stats.record_eviction();
    assert_eq!(stats.evictions, 2);
}

#[test]
fn test_set_total_entries() {
    let mut stats = CacheStats::new();
    stats.set_total_entries(42);
    assert_eq!(stats.total_entries, 42);
}

#[test]
fn test_stats_default_is_zero() {
    let stats = CacheStats::default();
    assert_eq!(stats.hits, 0);
    assert_eq!(stats.misses, 0);
    assert_eq!(stats.evictions, 0);
    assert_eq!(stats.total_entries, 0);
    assert_eq!(stats.total_requests(), 0);
}

#[test]
fn test_stats_record_hit_and_miss() {
    let mut stats = CacheStats::new();
    stats.record_hit();
    stats.record_hit();
    stats.record_hit();
    stats.record_miss();
    assert_eq!(stats.hits, 3);
    assert_eq!(stats.misses, 1);
    assert_eq!(stats.evictions, 0);
    assert_eq!(stats.total_entries, 0);
    assert_eq!(stats.total_requests(), 4);
}

#[test]
fn test_stats_counters_hold_at_the_top() {
    let mut stats = CacheStats {
        hits: u64::MAX,
        misses: u64::MAX - 1,
        evictions: u64::MAX,
        total_entries: 7,
    };
    stats.record_hit();
    stats.record_miss();
    stats.record_miss();
    stats.record_eviction();
    assert_eq!(stats.hits, u64::MAX);
    assert_eq!(stats.misses, u64::MAX);
    assert_eq!(stats.evictions, u64::MAX);
    assert_eq!(stats.total_entries, 7);
    assert_eq!(stats.total_requests(), 2 * (u64::MAX as u128));
}
