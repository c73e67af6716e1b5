use mini_redis::cache::LruTracker;

#[test]
fn test_lru_new() {
    let lru = LruTracker::new();
    assert!(lru.is_empty());
    assert_eq!(lru.len(), 0);
}

#[test]
fn test_lru_touch_new_key() {
    let mut lru = LruTracker::new();

    lru.touch("key1");
    lru.touch("key2");
    lru.touch("key3");

    assert_eq!(lru.len(), 3);
    assert_eq!(lru.peek_oldest(), Some(&"key1".to_string()));
}

#[test]
fn test_lru_touch_existing_key() {
    let mut lru = LruTracker::new();

    lru.touch("key1");
    lru.touch("key2");
    lru.touch("key3");

    lru.touch("key1");

    assert_eq!(lru.len(), 3);
    assert_eq!(lru.peek_oldest(), Some(&"key2".to_string()));
}

#[test]
fn test_lru_evict_oldest() {
    let mut lru = LruTracker::new();

    lru.touch("key1");
    lru.touch("key2");
    lru.touch("key3");

    let evicted = lru.evict_oldest();
    assert_eq!(evicted, Some("key1".to_string()));
    assert_eq!(lru.len(), 2);

    let evicted = lru.evict_oldest();
    assert_eq!(evicted, Some("key2".to_string()));
    assert_eq!(lru.len(), 1);
}

#[test]
fn test_lru_evict_empty() {
    let mut lru = LruTracker::new();
    assert_eq!(lru.evict_oldest(), None);
}

#[test]
fn test_lru_remove() {
    let mut lru = LruTracker::new();

    lru.touch("key1");
    lru.touch("key2");
    lru.touch("key3");

    lru.remove("key2");

    assert_eq!(lru.len(), 2);
    assert!(!lru.contains("key2"));
    assert!(lru.contains("key1"));
    assert!(lru.contains("key3"));
}

#[test]
fn test_lru_order_after_multiple_touches() {
    let mut lru = LruTracker::new();

    lru.touch("a");
    lru.touch("b");
    lru.touch("c");

    lru.touch("a");
    lru.touch("c");
    lru.touch("b");

    assert_eq!(lru.evict_oldest(), Some("a".to_string()));
    assert_eq!(lru.evict_oldest(), Some("c".to_string()));
    assert_eq!(lru.evict_oldest(), Some("b".to_string()));
}

#[test]
fn test_lru_remove_nonexistent_key() {
    let mut lru = LruTracker::new();

    lru.touch("key1");
    lru.touch("key2");

    lru.remove("nonexistent");

    assert_eq!(lru.len(), 2);
    assert!(lru.contains("key1"));
    assert!(lru.contains("key2"));
}

#[test]
fn test_lru_touch_same_key_multiple_times() {
    let mut lru = LruTracker::new();

    lru.touch("key1");
    lru.touch("key1");
    lru.touch("key1");

    assert_eq!(lru.len(), 1);
    assert_eq!(lru.evict_oldest(), Some("key1".to_string()));
    assert!(lru.is_empty());
}

#[test]
fn test_lru_evict_oldest_returns_correct_key() {
    let mut lru = LruTracker::new();

    lru.touch("a");
    lru.touch("b");
    lru.touch("c");
    lru.touch("d");

    assert_eq!(lru.peek_oldest(), Some(&"a".to_string()));
    assert_eq!(lru.evict_oldest(), Some("a".to_string()));

    assert_eq!(lru.peek_oldest(), Some(&"b".to_string()));
}

#[test]
fn test_lru_touch_moves_to_front() {
    let mut lru = LruTracker::new();

    lru.touch("a");
    lru.touch("b");
    lru.touch("c");

    assert_eq!(lru.peek_oldest(), Some(&"a".to_string()));

    lru.touch("a");

    assert_eq!(lru.peek_oldest(), Some(&"b".to_string()));

    assert_eq!(lru.evict_oldest(), Some("b".to_string()));
    assert_eq!(lru.evict_oldest(), Some("c".to_string()));
    assert_eq!(lru.evict_oldest(), Some("a".to_string()));
}

#[test]
fn test_lru_key_at_lists_most_recent_first() {
    let mut lru = LruTracker::new();
    lru.touch("a");
    lru.touch("b");
    lru.touch("c");
    lru.touch("a");

    assert_eq!(lru.key_at(0), "a");
    assert_eq!(lru.key_at(1), "c");
    assert_eq!(lru.key_at(2), "b");
}

#[test]
fn test_lru_peek_and_contains_on_empty() {
    let lru = LruTracker::new();
    assert_eq!(lru.peek_oldest(), None);
    assert!(!lru.contains("a"));
    assert!(!lru.contains(""));
}

#[test]
fn test_lru_remove_keeps_the_order_of_the_rest() {
    let mut lru = LruTracker::new();
    lru.touch("a");
    lru.touch("b");
    lru.touch("c");
    lru.touch("d");

    lru.remove("b");
    lru.remove("d");

    assert_eq!(lru.len(), 2);
    assert_eq!(lru.key_at(0), "c");
    assert_eq!(lru.key_at(1), "a");
    assert!(!lru.is_empty());
}

#[test]
fn test_lru_keys_differ_by_case_and_accents() {
    let mut lru = LruTracker::new();
    lru.touch("key");
    lru.touch("Key");
    lru.touch("kéy");
    assert_eq!(lru.len(), 3);
    lru.remove("Key");
    assert!(lru.contains("key"));
    assert!(lru.contains("kéy"));
    assert!(!lru.contains("Key"));
}
