use md_translate::translator::cache::{generate_key, hash_text};
use md_translate::translator::{CacheBackend, CacheStats, MemoryCache, TranslationCache};

#[test]
fn test_cache_hit_miss() {
    let mut cache = MemoryCache::new();

    // Miss on first access
    let result = cache.get("hello", "model", "en-ja");
    assert!(result.is_none());

    let stats = cache.stats();
    assert_eq!(stats.cache_misses, 1);
    assert_eq!(stats.total_requests, 1);

    // Set value
    cache.set("hello", "こんにちは", "model", "en-ja").expect("Set failed");

    // Hit on second access
    let result = cache.get("hello", "model", "en-ja");
    assert_eq!(result, Some("こんにちは".to_string()));

    let stats = cache.stats();
    assert_eq!(stats.cache_hits, 1);
    assert_eq!(stats.total_requests, 2);
}

#[test]
fn test_cache_key_uniqueness() {
    let mut cache = MemoryCache::new();

    // Different models should have different keys
    cache.set("text", "trans1", "model1", "en-ja").expect("Set 1 failed");
    cache.set("text", "trans2", "model2", "en-ja").expect("Set 2 failed");

    assert_eq!(cache.get("text", "model1", "en-ja"), Some("trans1".to_string()));
    assert_eq!(cache.get("text", "model2", "en-ja"), Some("trans2".to_string()));

    // Different language pairs should have different keys
    cache.set("text", "trans3", "model1", "en-es").expect("Set 3 failed");

    assert_eq!(cache.get("text", "model1", "en-ja"), Some("trans1".to_string()));
    assert_eq!(cache.get("text", "model1", "en-es"), Some("trans3".to_string()));
}

#[test]
fn test_cache_clear() {
    let mut cache = MemoryCache::new();

    cache.set("key1", "value1", "model", "en-ja").expect("Set 1 failed");
    cache.set("key2", "value2", "model", "en-ja").expect("Set 2 failed");

    cache.clear().expect("Clear failed");

    assert!(cache.get("key1", "model", "en-ja").is_none());
    assert!(cache.get("key2", "model", "en-ja").is_none());
}

#[test]
fn test_cache_stats_tracking() {
    let mut cache = MemoryCache::new();

    cache.get("key1", "model", "en-ja"); // Miss
    cache.set("key1", "value1", "model", "en-ja").expect("Set failed");
    cache.get("key1", "model", "en-ja"); // Hit
    cache.get("key2", "model", "en-ja"); // Miss

    let stats = cache.stats();
    assert_eq!(stats.total_requests, 3);
    assert_eq!(stats.cache_hits, 1);
    assert_eq!(stats.cache_misses, 2);
}

#[test]
fn test_cache_overwrites() {
    let mut cache = MemoryCache::new();

    cache.set("key", "value1", "model", "en-ja").expect("Set 1 failed");
    cache.set("key", "value2", "model", "en-ja").expect("Set 2 failed");

    // Second set should overwrite first
    assert_eq!(cache.get("key", "model", "en-ja"), Some("value2".to_string()));
}

#[test]
fn test_cache_isolation() {
    let mut cache1 = MemoryCache::new();
    let mut cache2 = MemoryCache::new();

    cache1.set("key", "value1", "model", "en-ja").expect("Set 1 failed");
    cache2.set("key", "value2", "model", "en-ja").expect("Set 2 failed");

    // Caches should be independent
    assert_eq!(cache1.get("key", "model", "en-ja"), Some("value1".to_string()));
    assert_eq!(cache2.get("key", "model", "en-ja"), Some("value2".to_string()));
}

#[test]
fn clear_resets_counters() {
    let mut cache = MemoryCache::new();
    cache.get("a", "m", "en-ja");
    cache.set("a", "b", "m", "en-ja").expect("Set failed");
    cache.get("a", "m", "en-ja");
    cache.clear().expect("Clear failed");
    assert_eq!(cache.stats(), CacheStats::default());
}

#[test]
fn backend_trait_reaches_memory_cache() {
    fn probe<C: CacheBackend>(c: &mut C) -> Option<String> {
        c.set("s", "t", "m", "p").expect("Set failed");
        c.get("s", "m", "p")
    }
    let mut cache = MemoryCache::new();
    assert_eq!(probe(&mut cache), Some("t".to_string()));
}

#[test]
fn hash_text_is_sha256_hex() {
    assert_eq!(
        hash_text("hello"),
        "2cf24dba5fb0a30e26e83b2ac5b9e29e1b161e5c1fa7425e73043362938b9824"
    );
    assert_eq!(
        hash_text(""),
        "e3b0c44298fc1c149afbf4c8996fb92427ae41e4649b934ca495991b7852b855"
    );
}

#[test]
fn key_hashes_the_three_parts_together() {
    assert_eq!(generate_key("hel", "l", "o"), hash_text("hello"));
    assert_ne!(generate_key("hello", "model", "en-ja"), generate_key("hello", "model", "en-es"));
}

#[test]
fn colliding_key_with_other_source_misses() {
    // "a" + "bc" and "ab" + "c" address the same entry; the checksum tells
    // the two sources apart.
    let mut cache = MemoryCache::new();
    cache.set("a", "A", "bc", "en-ja").expect("Set failed");
    assert_eq!(generate_key("a", "bc", "en-ja"), generate_key("ab", "c", "en-ja"));
    assert_eq!(cache.get("ab", "c", "en-ja"), None);
    assert_eq!(cache.get("a", "bc", "en-ja"), Some("A".to_string()));
    let stats = cache.stats();
    assert_eq!(stats.cache_misses, 1);
    assert_eq!(stats.cache_hits, 1);
}

#[test]
fn file_cache_checks_the_recorded_checksum() {
    let mut cache = TranslationCache::new("/tmp/cache".to_string());
    assert_eq!(cache.cache_dir(), "/tmp/cache");
    let entry = cache.set("hello", "konnichiwa", "model", "en-ja", "2024-01-01T00:00:00Z".to_string());
    assert_eq!(entry.source, "hello");
    assert_eq!(entry.created_at, "2024-01-01T00:00:00Z");
    assert_eq!(entry.checksum, hash_text("hello"));
    assert_eq!(cache.get("hello", Some(entry.clone())), Some("konnichiwa".to_string()));
    assert_eq!(cache.get("other", Some(entry)), None);
    assert_eq!(cache.get("hello", None), None);
    let stats = cache.stats(42);
    assert_eq!(stats.total_requests, 3);
    assert_eq!(stats.cache_hits, 1);
    assert_eq!(stats.cache_misses, 2);
    assert_eq!(stats.total_size_bytes, 42);
    cache.clear();
    assert_eq!(cache.stats(0), CacheStats::default());
}

#[test]
fn entry_file_name_is_key_with_extension() {
    let name = TranslationCache::entry_file_name("hello", "model", "en-ja");
    assert_eq!(name, format!("{}.json", generate_key("hello", "model", "en-ja")));
}
