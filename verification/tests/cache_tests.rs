use ha_gateway::cache::Cache;

fn json_result(text: &str) -> serde_json::Value {
    let mut m = serde_json::Map::new();
    m.insert(
        "result".to_string(),
        serde_json::Value::String(text.to_string()),
    );
    serde_json::Value::Object(m)
}

#[test]
fn test_cache_put_and_get() {
    let mut cache = Cache::new();
    let key = "test_key".to_string();
    let value = json_result("0x1234");

    cache.put(key.clone(), value.clone(), 0);
    let cached = cache.get(&key, 0);

    assert!(cached.is_some());
    assert_eq!(cached.unwrap(), value);
}

#[test]
fn test_cache_miss() {
    let mut cache = Cache::new();
    let result = cache.get("invalid_key", 0);
    assert!(result.is_none());
}

#[test]
fn test_cache_miss_on_other_key() {
    let mut cache = Cache::new();
    cache.put("present".to_string(), json_result("0x1"), 0);
    assert!(cache.get("invalid_key", 0).is_none());
    assert!(cache.get("present", 0).is_some());
}

#[test]
fn test_cache_expiry() {
    let mut cache = Cache::new();
    let key = "expired_key".to_string();
    let value = json_result("0x1234");

    cache.put(key.clone(), value, 0);
    assert!(cache.get(&key, 0).is_some());

    // Default TTL is 2 s; 3 s later the entry has expired.
    assert!(cache.get(&key, 3000).is_none());
}

#[test]
fn test_cache_expiry_boundary() {
    let mut cache = Cache::new();
    cache.put("key".to_string(), json_result("0x1"), 1000);

    // Fresh strictly within the TTL, expired once the TTL has fully elapsed.
    assert!(cache.get("key", 2999).is_some());
    // That hit refreshed the clock: expiry now counts from 2999.
    assert!(cache.get("key", 4998).is_some());
    assert!(cache.get("key", 6998).is_none());
}

#[test]
fn test_cache_lru_eviction() {
    // Create a cache with small capacity for testing
    let mut cache = Cache::with_settings(60_000, 2);

    cache.put("key1".to_string(), serde_json::Value::String("value1".to_string()), 0);
    cache.put("key2".to_string(), serde_json::Value::String("value2".to_string()), 0);
    cache.put("key3".to_string(), serde_json::Value::String("value3".to_string()), 0);

    assert!(cache.get("key1", 0).is_none()); //Evicted
    assert!(cache.get("key2", 0).is_some());
    assert!(cache.get("key3", 0).is_some());
}

#[test]
fn test_capacity_eviction_with_short_ttl() {
    // TTL 2 s, capacity 2; three stores with no reads in between evict
    // exactly the first-stored key.
    let mut cache = Cache::with_settings(2000, 2);

    cache.put("k1".to_string(), serde_json::Value::String("a".to_string()), 0);
    cache.put("k2".to_string(), serde_json::Value::String("b".to_string()), 0);
    cache.put("k3".to_string(), serde_json::Value::String("c".to_string()), 0);

    assert!(cache.get("k1", 0).is_none());
    assert_eq!(
        cache.get("k2", 0),
        Some(serde_json::Value::String("b".to_string()))
    );
    assert_eq!(
        cache.get("k3", 0),
        Some(serde_json::Value::String("c".to_string()))
    );
}

#[test]
fn test_get_refreshes_recency() {
    let mut cache = Cache::with_settings(60_000, 2);

    cache.put("k1".to_string(), serde_json::Value::String("a".to_string()), 0);
    cache.put("k2".to_string(), serde_json::Value::String("b".to_string()), 0);

    // Reading k1 makes k2 the least recently used entry.
    assert!(cache.get("k1", 0).is_some());
    cache.put("k3".to_string(), serde_json::Value::String("c".to_string()), 0);

    assert!(cache.get("k1", 0).is_some());
    assert!(cache.get("k2", 0).is_none()); // Evicted
    assert!(cache.get("k3", 0).is_some());
}

#[test]
fn test_put_overwrites_value() {
    let mut cache = Cache::new();
    cache.put("key".to_string(), serde_json::Value::String("old".to_string()), 0);
    cache.put("key".to_string(), serde_json::Value::String("new".to_string()), 100);
    assert_eq!(
        cache.get("key", 100),
        Some(serde_json::Value::String("new".to_string()))
    );
}
