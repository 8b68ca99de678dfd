use brazen::cache::{AssetMetadata, AssetStore};
use brazen::config::CacheConfig;

fn store_with(cfg: CacheConfig, times: &[&str], bodies: &[&[u8]]) -> AssetStore {
    let mut store = AssetStore::new(cfg, "p".to_string(), Vec::new(), Vec::new());
    let mut recorded: Vec<AssetMetadata> = Vec::new();
    for (i, body) in bodies.iter().enumerate() {
        let mut m = store.record_asset(&format!("https://e.test/{i}"), None, None, Some(200), "text/html",
            Some(body), Vec::new(), false, false, None, None, None);
        m.created_at = times[i].to_string();
        recorded.push(m);
    }
    AssetStore::new(store.config().clone(), "p".to_string(), recorded, Vec::new())
}

#[test]
fn no_limits_plan_nothing() {
    let store = store_with(CacheConfig { gc_max_entries: 0, ..CacheConfig::default() }, &["1", "2"], &[b"a", b"b"]);
    let plan = store.gc_plan(&Vec::new()).unwrap();
    assert!(!plan.removed);
    assert!(plan.removals.is_empty());
}

#[test]
fn entry_limit_drops_oldest_and_deletes_unshared_bodies() {
    let cfg = CacheConfig { gc_max_entries: 2, ..CacheConfig::default() };
    let mut store = store_with(cfg, &["3", "1", "2"], &[b"x", b"y", b"x"]);
    let plan = store.gc_plan(&Vec::new()).unwrap();
    assert!(plan.removed);
    assert_eq!(plan.removals, vec![1]);
    assert_eq!(plan.deleted_blobs.len(), 1);
    store.apply_removals(&plan.removals);
    let ids: Vec<&str> = store.entries().iter().map(|e| e.asset_id.as_str()).collect();
    assert_eq!(ids, vec!["asset-1", "asset-3"]);
}

#[test]
fn walk_that_runs_past_the_end_cannot_go_on() {
    let cfg = CacheConfig { gc_max_entries: 1, ..CacheConfig::default() };
    let store = store_with(cfg, &["1", "2", "3", "4"], &[b"a", b"b", b"c", b"d"]);
    assert!(store.gc_plan(&Vec::new()).is_none());
}

#[test]
fn pinned_assets_are_kept() {
    let cfg = CacheConfig { gc_max_entries: 1, ..CacheConfig::default() };
    let mut store = store_with(cfg, &["1", "2"], &[b"a", b"b"]);
    let h = store.entries()[0].hash.clone().unwrap();
    store.pin_asset(&h);
    let plan = store.gc_plan(&Vec::new()).unwrap();
    assert_eq!(plan.removals, vec![1]);
}

#[test]
fn byte_limit_drops_until_under_total() {
    let cfg = CacheConfig { gc_max_entries: 0, max_total_bytes: 10, gc_strategy: "oldest".to_string(), ..CacheConfig::default() };
    let store = store_with(cfg, &["2", "1", "3"], &[b"a", b"b", b"c"]);
    let sizes: Vec<(String, u64)> = store
        .entries()
        .iter()
        .map(|e| (e.body_key.clone().unwrap(), 6))
        .collect();
    let plan = store.gc_plan(&sizes).unwrap();
    assert_eq!(plan.removals, vec![1, 0]);
    assert_eq!(plan.deleted_blobs.len(), 2);
}
