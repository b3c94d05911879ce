use phpcs_lsp::cache::{CacheAnswer, CachedResult, ResultCache};

fn result(fp: &str) -> CachedResult {
    CachedResult { diagnostics: Vec::new(), fingerprint: fp.to_string(), created_at: 0 }
}

#[test]
fn lookup_answers() {
    let mut c = ResultCache::new();
    assert_eq!(c.lookup("a", None), CacheAnswer::Miss);
    assert_eq!(c.lookup("a", Some("f1")), CacheAnswer::Miss);
    c.store("a".to_string(), result("f1"));
    assert_eq!(c.lookup("a", Some("f1")), CacheAnswer::Unchanged);
    assert_eq!(c.lookup("a", Some("f0")), CacheAnswer::Full);
    assert_eq!(c.lookup("a", None), CacheAnswer::Full);
    assert_eq!(c.lookup("b", Some("f1")), CacheAnswer::Miss);
}

#[test]
fn store_replaces_and_invalidate_drops() {
    let mut c = ResultCache::new();
    c.store("a".to_string(), result("f1"));
    c.store("a".to_string(), result("f2"));
    assert_eq!(c.lookup("a", Some("f1")), CacheAnswer::Full);
    assert_eq!(c.lookup("a", Some("f2")), CacheAnswer::Unchanged);
    c.invalidate("a");
    assert_eq!(c.lookup("a", Some("f2")), CacheAnswer::Miss);
    c.invalidate("a");
    assert!(c.get("a").is_none());
}

#[test]
fn clear_drops_everything() {
    let mut c = ResultCache::new();
    c.store("a".to_string(), result("f1"));
    c.store("b".to_string(), result("f2"));
    c.clear();
    assert_eq!(c.lookup("a", Some("f1")), CacheAnswer::Miss);
    assert_eq!(c.lookup("b", None), CacheAnswer::Miss);
}
