use mini_redis::api::{handle_delete, handle_get, handle_set};
use mini_redis::cache::{current_timestamp_ms, CacheStore};
use mini_redis::error::CacheError;
use mini_redis::models::{HealthResponse, SetRequest};

#[test]
fn test_set_and_get_handler() {
    let mut store = CacheStore::new(100, 300);

    let req = SetRequest {
        key: "test_key".to_string(),
        value: "test_value".to_string(),
        ttl: None,
    };
    let result = handle_set(&mut store, req, current_timestamp_ms());
    assert!(result.is_ok());

    let result = handle_get(&mut store, "test_key", current_timestamp_ms());
    assert!(result.is_ok());
    let response = result.unwrap();
    assert_eq!(response.value, "test_value");
}

#[test]
fn test_get_nonexistent_key() {
    let mut store = CacheStore::new(100, 300);

    let result = handle_get(&mut store, "nonexistent", current_timestamp_ms());
    assert!(result.is_err());
}

#[test]
fn test_delete_handler() {
    let mut store = CacheStore::new(100, 300);

    let req = SetRequest {
        key: "to_delete".to_string(),
        value: "value".to_string(),
        ttl: None,
    };
    handle_set(&mut store, req, current_timestamp_ms()).unwrap();

    let result = handle_delete(&mut store, "to_delete");
    assert!(result.is_ok());

    let result = handle_get(&mut store, "to_delete", current_timestamp_ms());
    assert!(result.is_err());
}

#[test]
fn test_stats_handler() {
    let store = CacheStore::new(100, 300);

    let response = store.stats();
    assert_eq!(response.hits, 0);
    assert_eq!(response.misses, 0);
}

#[test]
fn test_health_handler() {
    let response = HealthResponse::healthy();
    assert_eq!(response.status, "healthy");
}

#[test]
fn test_set_invalid_request() {
    let mut store = CacheStore::new(100, 300);

    let req = SetRequest {
        key: "".to_string(),
        value: "value".to_string(),
        ttl: None,
    };
    let result = handle_set(&mut store, req, current_timestamp_ms());
    assert!(result.is_err());
}

#[test]
fn test_handle_set_answers_and_refusals() {
    let mut store = CacheStore::new(1, 300);

    let ok = handle_set(
        &mut store,
        SetRequest { key: "a".to_string(), value: "1".to_string(), ttl: Some(5) },
        1_000,
    )
    .unwrap();
    assert_eq!(ok.key, "a");
    assert_eq!(ok.message, "Key 'a' set successfully");
    assert_eq!(store.peek("a").unwrap().expires_at, Some(6_000));

    // The request's own check speaks first, with its own words.
    match handle_set(
        &mut store,
        SetRequest { key: "k".repeat(257), value: "1".to_string(), ttl: None },
        1_000,
    ) {
        Err(CacheError::InvalidRequest(reason)) => {
            assert_eq!(reason, "Key exceeds maximum length of 256 characters")
        }
        other => panic!("unexpected: {:?}", other),
    }
    match handle_set(
        &mut store,
        SetRequest { key: String::new(), value: "1".to_string(), ttl: None },
        1_000,
    ) {
        Err(CacheError::InvalidRequest(reason)) => assert_eq!(reason, "Key cannot be empty"),
        other => panic!("unexpected: {:?}", other),
    }
    // The store's check of the value follows.
    match handle_set(
        &mut store,
        SetRequest { key: "b".to_string(), value: "v".repeat(1024 * 1024 + 1), ttl: None },
        1_000,
    ) {
        Err(CacheError::InvalidRequest(reason)) => {
            assert_eq!(reason, "Value exceeds maximum size of 1048576 bytes")
        }
        other => panic!("unexpected: {:?}", other),
    }
    assert_eq!(store.len(), 1);
    assert!(store.peek("a").is_some());

    let mut none = CacheStore::new(0, 300);
    let full = handle_set(
        &mut none,
        SetRequest { key: "a".to_string(), value: "1".to_string(), ttl: None },
        1_000,
    );
    assert!(matches!(full, Err(CacheError::CacheFull(_))));
}

#[test]
fn test_handle_get_and_delete_answers() {
    let mut store = CacheStore::new(10, 300);
    store.set_at("a".to_string(), "1".to_string(), Some(1), 0).unwrap();
    store.set_at("b".to_string(), "2".to_string(), Some(100), 0).unwrap();

    let got = handle_get(&mut store, "b", 500).unwrap();
    assert_eq!(got.key, "b");
    assert_eq!(got.value, "2");

    match handle_get(&mut store, "a", 1_000) {
        Err(CacheError::Expired(key)) => assert_eq!(key, "a"),
        other => panic!("unexpected: {:?}", other),
    }
    match handle_get(&mut store, "c", 1_000) {
        Err(CacheError::NotFound(key)) => assert_eq!(key, "c"),
        other => panic!("unexpected: {:?}", other),
    }

    let deleted = handle_delete(&mut store, "b").unwrap();
    assert_eq!(deleted.key, "b");
    assert_eq!(deleted.message, "Key 'b' deleted successfully");
    match handle_delete(&mut store, "b") {
        Err(CacheError::NotFound(key)) => assert_eq!(key, "b"),
        other => panic!("unexpected: {:?}", other),
    }

    let stats = store.stats();
    assert_eq!(stats.hits, 1);
    assert_eq!(stats.misses, 2);
    assert_eq!(stats.total_entries, 0);
}
