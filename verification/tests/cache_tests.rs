use code_analyze::analyze::cache::AnalysisCache;
use code_analyze::analyze::types::{AnalysisMode, AnalysisResult};

fn sample_result() -> AnalysisResult {
    AnalysisResult::empty(10)
}

#[test]
fn cache_put_and_get() {
    let mut cache = AnalysisCache::new(10);
    let path = "/tmp/test.rs".to_string();
    let modified: u64 = 1_000;
    let mode = AnalysisMode::Semantic;

    cache.put(path.clone(), modified, &mode, &sample_result());
    let result = cache.get(&path, modified, &mode);
    assert!(result.is_some());
    assert_eq!(result.unwrap().line_count, 10);
}

#[test]
fn cache_miss_on_different_time() {
    let mut cache = AnalysisCache::new(10);
    let path = "/tmp/test.rs".to_string();
    let t1: u64 = 0;
    let t2: u64 = 2_000;
    let mode = AnalysisMode::Semantic;

    cache.put(path.clone(), t1, &mode, &sample_result());
    let result = cache.get(&path, t2, &mode);
    assert!(result.is_none());
}

#[test]
fn cache_miss_on_different_mode() {
    let mut cache = AnalysisCache::new(10);
    let path = "/tmp/test.rs".to_string();
    let modified: u64 = 1_000;

    cache.put(path.clone(), modified, &AnalysisMode::Semantic, &sample_result());
    let result = cache.get(&path, modified, &AnalysisMode::Structure);
    assert!(result.is_none());
}

#[test]
fn cache_miss_on_different_path() {
    let mut cache = AnalysisCache::new(10);
    let modified: u64 = 1_000;
    let mode = AnalysisMode::Semantic;

    cache.put("/a.rs".to_string(), modified, &mode, &sample_result());
    let result = cache.get("/b.rs", modified, &mode);
    assert!(result.is_none());
}

#[test]
fn cache_evicts_when_full() {
    let mut cache = AnalysisCache::new(2);
    let t: u64 = 1_000;
    let mode = AnalysisMode::Semantic;

    cache.put("/a.rs".to_string(), t, &mode, &sample_result());
    cache.put("/b.rs".to_string(), t, &mode, &sample_result());
    cache.put("/c.rs".to_string(), t, &mode, &sample_result());

    // /a.rs should have been evicted (LRU)
    assert!(cache.get("/a.rs", t, &mode).is_none());
    assert!(cache.get("/c.rs", t, &mode).is_some());
}

#[test]
fn cache_default_works() {
    let mut cache = AnalysisCache::default();
    let t: u64 = 1_000;
    cache.put("/x.rs".to_string(), t, &AnalysisMode::Semantic, &sample_result());
    assert!(cache.get("/x.rs", t, &AnalysisMode::Semantic).is_some());
}

#[test]
fn cache_get_refreshes_recency() {
    let mut cache = AnalysisCache::new(2);
    let t: u64 = 7;
    let mode = AnalysisMode::Semantic;
    cache.put("/a.rs".to_string(), t, &mode, &sample_result());
    cache.put("/b.rs".to_string(), t, &mode, &sample_result());
    // Touch /a.rs so /b.rs becomes the least recently used entry.
    assert!(cache.get("/a.rs", t, &mode).is_some());
    cache.put("/c.rs".to_string(), t, &mode, &sample_result());
    assert!(cache.get("/a.rs", t, &mode).is_some());
    assert!(cache.get("/b.rs", t, &mode).is_none());
    assert!(cache.get("/c.rs", t, &mode).is_some());
}

#[test]
fn cache_zero_capacity_falls_back_to_default() {
    let mut cache = AnalysisCache::new(0);
    let t: u64 = 1;
    let mode = AnalysisMode::Structure;
    cache.put("/x.rs".to_string(), t, &mode, &sample_result());
    assert!(cache.get("/x.rs", t, &mode).is_some());
}
