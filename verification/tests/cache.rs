use synthia::cache::{make_key, ToolCache};
use synthia::tools::ToolResult;

fn result(content: &str) -> ToolResult {
    ToolResult { content: content.to_string(), is_error: false }
}

fn json(text: &str) -> serde_json::Value {
    serde_json::from_str(text).unwrap()
}

fn p() -> serde_json::Value {
    json(r#"{"file_path": "/tmp/test.txt"}"#)
}

#[test]
fn test_cache_get_put() {
    let mut cache = ToolCache::new(10);
    assert!(cache.get("read", &p()).is_none());
    cache.put("read", &p(), result("test content"));
    let cached = cache.get("read", &p()).unwrap();
    assert_eq!(cached.content, "test content");
    assert!(!cached.is_error);
}

#[test]
fn test_cache_different_params() {
    let mut cache = ToolCache::new(10);
    let p1 = &json(r#"{"file_path": "/tmp/test1.txt"}"#);
    let p2 = &json(r#"{"file_path": "/tmp/test2.txt"}"#);
    cache.put("read", p1, result("content1"));
    cache.put("read", p2, result("content2"));
    assert_eq!(cache.get("read", p1).unwrap().content, "content1");
    assert_eq!(cache.get("read", p2).unwrap().content, "content2");
}

#[test]
fn test_cache_invalidate_tool() {
    let mut cache = ToolCache::new(10);
    let g = &json(r#"{"pattern": "test"}"#);
    cache.put("read", &p(), result("test"));
    cache.put("grep", g, result("test"));
    cache.invalidate_tool("read");
    assert!(cache.get("read", &p()).is_none());
    assert!(cache.get("grep", g).is_some());
}

#[test]
fn test_cache_lru_eviction() {
    let mut cache = ToolCache::new(2);
    let p1 = &json(r#"{"key": "1"}"#);
    let p2 = &json(r#"{"key": "2"}"#);
    let p3 = &json(r#"{"key": "3"}"#);
    cache.put("tool", p1, result("test"));
    cache.put("tool", p2, result("test"));
    cache.get("tool", p1);
    cache.put("tool", p3, result("test"));
    assert!(cache.get("tool", p1).is_some());
    assert!(cache.get("tool", p2).is_none());
    assert!(cache.get("tool", p3).is_some());
}

fn hit_rate(hits: u64, misses: u64) -> f64 {
    if hits + misses == 0 {
        0.0
    } else {
        hits as f64 / (hits + misses) as f64 * 100.0
    }
}

#[test]
fn cache_test_cache_stats() {
    let mut cache = ToolCache::new(10);
    let stats = cache.stats();
    assert_eq!(stats.size, 0);
    assert_eq!(stats.hits, 0);
    assert_eq!(stats.misses, 0);

    cache.get("read", &p());
    let stats = cache.stats();
    assert_eq!(stats.misses, 1);
    assert_eq!(hit_rate(stats.hits, stats.misses), 0.0);

    cache.put("read", &p(), result("test"));
    cache.get("read", &p());
    let stats = cache.stats();
    assert_eq!(stats.hits, 1);
    assert_eq!(stats.misses, 1);
    assert_eq!(stats.size, 1);
    assert_eq!(stats.capacity, 10);
    assert_eq!(hit_rate(stats.hits, stats.misses), 50.0);
}

#[test]
fn test_cache_disabled() {
    let mut cache = ToolCache::new(10);
    cache.set_enabled(false);
    cache.put("read", &p(), result("test"));
    assert!(cache.get("read", &p()).is_none());
    cache.set_enabled(true);
    assert!(cache.is_enabled());
    assert!(cache.get("read", &p()).is_none());
}

#[test]
fn test_cache_clear() {
    let mut cache = ToolCache::new(10);
    cache.put("read", &p(), result("test"));
    assert!(cache.get("read", &p()).is_some());
    cache.clear();
    assert!(cache.get("read", &p()).is_none());
    assert_eq!(cache.stats().size, 0);
}

#[test]
fn cache_read_after_write_and_overwrite() {
    let mut cache = ToolCache::new(3);
    let a = json(r#"{"k": "a"}"#);
    cache.put("t", &a, result("1"));
    cache.put("t", &a, result("2"));
    assert_eq!(cache.stats().size, 1);
    assert_eq!(cache.get("t", &a).unwrap().content, "2");
    for k in ["b", "c", "d", "e"] {
        cache.put("t", &json(&format!("{{\"k\": \"{}\"}}", k)), result(k));
    }
    assert!(cache.stats().size <= 3);
    assert_eq!(make_key("t", &a), ("t".to_string(), "{\"k\":\"a\"}".to_string()));
}
