use std::sync::Arc;

use cratesio_mcp::cache::DocsCache;
use cratesio_mcp::docmodel::DocTree;
use cratesio_mcp::docsrs::DocsRsError;

fn synthetic_tree() -> DocTree {
    DocTree {
        root: 0,
        crate_version: Some("1.0.0".to_string()),
        format_version: 39,
        index: vec![],
        paths: vec![],
    }
}

#[test]
fn insert_and_get() {
    let mut cache = DocsCache::new(10, 3_600_000);
    let tree = Arc::new(synthetic_tree());
    cache.insert("serde".to_string(), "1.0.0".to_string(), tree, 0);
    let cached = cache.get("serde", "1.0.0", 1);
    assert!(cached.is_some());
    assert_eq!(cached.unwrap().crate_version.as_deref(), Some("1.0.0"));
}

#[test]
fn miss_returns_none() {
    let mut cache = DocsCache::new(10, 3_600_000);
    assert!(cache.get("nonexistent", "1.0.0", 0).is_none());
}

#[test]
fn ttl_expiration() {
    // An entry inserted at time 0 with a 1 ms TTL is absent at time 10,
    // and stays absent on an immediate second query: it was removed, not
    // merely masked.
    let mut cache = DocsCache::new(10, 1);
    let tree = Arc::new(synthetic_tree());
    cache.insert("serde".to_string(), "1.0.0".to_string(), tree, 0);
    assert!(cache.get("serde", "1.0.0", 10).is_none());
    assert!(cache.get("serde", "1.0.0", 10).is_none());
}

#[test]
fn lru_eviction() {
    // A cache at capacity 2: inserting a third distinct key evicts the
    // least-recently-accessed entry.
    let mut cache = DocsCache::new(2, 3_600_000);
    cache.insert("a".to_string(), "1.0.0".to_string(), Arc::new(synthetic_tree()), 0);
    cache.insert("b".to_string(), "1.0.0".to_string(), Arc::new(synthetic_tree()), 1);
    // Access "a" so "b" becomes least recently used.
    cache.get("a", "1.0.0", 2);
    // Insert "c" -- should evict "b".
    cache.insert("c".to_string(), "1.0.0".to_string(), Arc::new(synthetic_tree()), 3);
    assert!(cache.get("a", "1.0.0", 4).is_some());
    assert!(cache.get("b", "1.0.0", 4).is_none());
    assert!(cache.get("c", "1.0.0", 4).is_some());
}

#[test]
fn insert_overwrites_same_key_without_eviction() {
    let mut cache = DocsCache::new(2, 3_600_000);
    cache.insert("a".to_string(), "1.0.0".to_string(), Arc::new(synthetic_tree()), 0);
    cache.insert("b".to_string(), "1.0.0".to_string(), Arc::new(synthetic_tree()), 1);
    // Re-inserting an existing key must not evict the other entry.
    cache.insert("a".to_string(), "1.0.0".to_string(), Arc::new(synthetic_tree()), 2);
    assert!(cache.get("a", "1.0.0", 3).is_some());
    assert!(cache.get("b", "1.0.0", 3).is_some());
}

#[test]
fn store_fetched_caches_result() {
    // A miss followed by one fetch: the fetched tree is returned and a
    // subsequent get finds it without a further fetch.
    let mut cache = DocsCache::new(10, 3_600_000);
    assert!(cache.get("serde", "1.0.0", 0).is_none());
    let fetched: Result<DocTree, DocsRsError> = Ok(synthetic_tree());
    let got = cache.store_fetched("serde".to_string(), "1.0.0".to_string(), fetched, 1);
    assert!(got.is_ok());
    assert_eq!(got.unwrap().format_version, 39);
    let again = cache.get("serde", "1.0.0", 2);
    assert!(again.is_some());
    assert_eq!(again.unwrap().format_version, 39);
}

#[test]
fn store_fetched_propagates_error_uncached() {
    let mut cache = DocsCache::new(10, 3_600_000);
    let fetched: Result<DocTree, DocsRsError> =
        Err(DocsRsError::NotFound { name: "x".to_string(), version: "1".to_string() });
    let got = cache.store_fetched("x".to_string(), "1".to_string(), fetched, 0);
    assert!(matches!(got, Err(DocsRsError::NotFound { .. })));
    assert!(cache.get("x", "1", 1).is_none());
}
