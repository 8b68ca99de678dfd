use brazen::cache::{
    blob_matches_hash, capture_mode_from_str, is_json_array_text, normalize_headers, AssetMetadata, AssetQuery,
    AssetStore, CaptureMode, CaptureModeSetting, StorageMode,
};
use brazen::config::CacheConfig;

fn record(store: &mut AssetStore, url: &str, body: &[u8]) -> AssetMetadata {
    store.record_asset(
        url,
        None,
        Some("GET".to_string()),
        Some(200),
        "text/html",
        Some(body),
        Vec::new(),
        false,
        false,
        None,
        None,
        None,
    )
}

#[test]
fn asset_store_deduplicates_body_hashes() {
    let mut store = AssetStore::new(CacheConfig::default(), "default".to_string(), Vec::new(), Vec::new());
    let first = record(&mut store, "https://example.com", b"hello");
    let second = record(&mut store, "https://example.com", b"hello");
    assert_eq!(first.hash, second.hash);
    let hash = first.hash.unwrap();
    assert_eq!(first.body_key.as_deref(), Some(hash.as_str()));
    assert_eq!(second.body_key.as_deref(), Some(hash.as_str()));
    assert!(blob_matches_hash(b"hello", &hash));
}

#[test]
fn mime_policy_honors_glob_allowlist_and_denylist() {
    let config = CacheConfig {
        mime_allowlist: vec!["text/*".to_string(), "image/*".to_string()],
        mime_denylist: vec!["image/svg+xml".to_string()],
        ..CacheConfig::default()
    };
    let store = AssetStore::new(config, "default".to_string(), Vec::new(), Vec::new());
    assert!(store.is_mime_allowed("text/html", None));
    assert!(store.is_mime_allowed("image/png", None));
    assert!(!store.is_mime_allowed("image/svg+xml", None));
    assert!(!store.is_mime_allowed("application/octet-stream", None));
}

#[test]
fn no_dedupe_mode_stores_distinct_bodies() {
    let config = CacheConfig { dedupe_bodies: false, ..CacheConfig::default() };
    let mut store = AssetStore::new(config, "default".to_string(), Vec::new(), Vec::new());
    let first = record(&mut store, "https://example.com", b"hello");
    let second = record(&mut store, "https://example.com/2", b"hello");
    assert_eq!(first.hash, second.hash);
    assert_ne!(first.body_key, second.body_key);
    assert_eq!(first.body_key.as_deref(), Some("asset-1"));
    assert_eq!(second.body_key.as_deref(), Some("asset-2"));
}

#[test]
fn sha256_hash_is_lowercase_hex_of_digest() {
    let mut store = AssetStore::new(CacheConfig::default(), "p".to_string(), Vec::new(), Vec::new());
    let m = record(&mut store, "https://example.com", b"hello");
    assert_eq!(m.hash.as_deref(), Some("2cf24dba5fb0a30e26e83b2ac5b9e29e1b161e5c1fa7425e73043362938b9824"));
    assert!(!blob_matches_hash(b"hellO", "2cf24dba5fb0a30e26e83b2ac5b9e29e1b161e5c1fa7425e73043362938b9824"));
}

#[test]
fn capture_mode_setting_parses_names() {
    assert_eq!(capture_mode_from_str("metadata-only"), CaptureModeSetting::MetadataOnly);
    assert_eq!(capture_mode_from_str("archive"), CaptureModeSetting::Archive);
    assert_eq!(capture_mode_from_str("all"), CaptureModeSetting::All);
    assert_eq!(capture_mode_from_str("anything"), CaptureModeSetting::Selective);
    assert_eq!(CaptureMode::default(), CaptureMode::MetadataOnly);
}

#[test]
fn headers_are_lowercased_sorted_and_last_wins() {
    let headers = vec![
        ("X-B".to_string(), "1".to_string()),
        ("x-a".to_string(), "2".to_string()),
        ("X-b".to_string(), "3".to_string()),
    ];
    let normalized = normalize_headers(&headers);
    assert_eq!(normalized, vec![("x-a".to_string(), "2".to_string()), ("x-b".to_string(), "3".to_string())]);
}

#[test]
fn query_pin_and_find() {
    let mut store = AssetStore::new(CacheConfig::default(), "p".to_string(), Vec::new(), Vec::new());
    let a = record(&mut store, "https://a.example/x", b"one");
    let _b = record(&mut store, "https://b.example/y", b"two");
    let q = AssetQuery { url: Some("a.example".to_string()), ..AssetQuery::default() };
    let found = store.query(&q);
    assert_eq!(found.len(), 1);
    assert_eq!(found[0].asset_id, a.asset_id);
    let hash = a.hash.clone().unwrap();
    store.pin_asset(&hash);
    assert!(store.entries()[0].pinned);
    assert!(!store.entries()[1].pinned);
    store.unpin_asset(&hash);
    assert!(!store.entries()[0].pinned);
    assert_eq!(store.find_by_id_or_hash("asset-2").unwrap().url, "https://b.example/y");
    assert_eq!(store.find_by_id_or_hash(&hash).unwrap().asset_id, "asset-1");
    assert!(store.find_by_id_or_hash("nope").is_none());
}

#[test]
fn stats_latest_and_merge() {
    let mut store = AssetStore::new(CacheConfig::default(), "p".to_string(), Vec::new(), Vec::new());
    let a = record(&mut store, "https://a.example/", b"same");
    let _b = record(&mut store, "https://b.example/", b"same");
    let (entries, with_body, distinct) = store.stats_counts();
    assert_eq!((entries, with_body, distinct), (2, 2, 1));
    let mut imported = a.clone();
    imported.created_at = "9999-01-01T00:00:00Z".to_string();
    let added = store.merge_imported(vec![imported]);
    assert_eq!(added, 1);
    assert_eq!(store.entries()[2].asset_id, "asset-3");
    assert_eq!(store.latest_entry().unwrap().asset_id, "asset-3");
    assert_eq!(store.storage_mode(), StorageMode::Disk);
    assert!(is_json_array_text("  [ {} ]"));
    assert!(!is_json_array_text("{\"a\":1}\n"));
    let key = store.verify_blob_key(a.hash.as_deref().unwrap(), false);
    assert_eq!(Some(key.as_str()), a.body_key.as_deref());
    assert_eq!(store.verify_blob_key("abc", true), "abc");
}

#[test]
fn memory_storage_keeps_no_body_key() {
    let config = CacheConfig { storage_mode: "memory".to_string(), ..CacheConfig::default() };
    let mut store = AssetStore::new(config, "p".to_string(), Vec::new(), Vec::new());
    let m = record(&mut store, "https://example.com", b"hello");
    assert_eq!(m.body_key, None);
    assert!(m.hash.is_some());
    assert_eq!(store.storage_mode(), StorageMode::Memory);
}
