use rust_gcp::local_cache::{CacheValue, InstanceCache, ValueKind};
use rust_gcp::tiered::{lookup_local, lookup_on_origin, lookup_on_shared};

#[test]
fn set_then_get_within_ttl() {
    let mut cache = InstanceCache::new();
    cache.set("k", CacheValue::Text("v".to_string()), 60, 100);
    let got = cache.get("k", ValueKind::Text, 120);
    assert_eq!(got, Some(CacheValue::Text("v".to_string())));
}

#[test]
fn zero_ttl_entry_is_absent_at_once() {
    let mut cache = InstanceCache::new();
    cache.set("k", CacheValue::Text("v".to_string()), 0, 100);
    assert_eq!(cache.get("k", ValueKind::Text, 100), None);
}

#[test]
fn expired_entry_is_absent_and_purged() {
    let mut cache = InstanceCache::new();
    cache.set("k", CacheValue::Text("v".to_string()), 10, 100);
    assert_eq!(cache.get("k", ValueKind::Text, 110), None);
    assert_eq!(cache.get_len(200), 0);
}

#[test]
fn wrong_kind_reports_absent() {
    let mut cache = InstanceCache::new();
    cache.set("k", CacheValue::Text("v".to_string()), 60, 100);
    assert_eq!(cache.get("k", ValueKind::Bytes, 101), None);
    // the entry itself survives
    assert_eq!(
        cache.get("k", ValueKind::Text, 101),
        Some(CacheValue::Text("v".to_string()))
    );
}

#[test]
fn overwrite_replaces_value_and_ttl() {
    let mut cache = InstanceCache::new();
    cache.set("k", CacheValue::Text("old".to_string()), 60, 100);
    cache.set("k", CacheValue::Bytes(vec![1, 2]), 60, 100);
    assert_eq!(cache.get("k", ValueKind::Text, 101), None);
    assert_eq!(
        cache.get("k", ValueKind::Bytes, 101),
        Some(CacheValue::Bytes(vec![1, 2]))
    );
}

#[test]
fn delete_removes_only_its_key() {
    let mut cache = InstanceCache::new();
    cache.set("a", CacheValue::Text("1".to_string()), 60, 100);
    cache.set("b", CacheValue::Text("2".to_string()), 60, 100);
    cache.delete("a");
    assert_eq!(cache.get("a", ValueKind::Text, 101), None);
    assert_eq!(
        cache.get("b", ValueKind::Text, 101),
        Some(CacheValue::Text("2".to_string()))
    );
}

#[test]
fn multi_get_preserves_order_and_reports_misses() {
    let mut cache = InstanceCache::new();
    cache.set("a", CacheValue::Text("1".to_string()), 60, 100);
    cache.set("c", CacheValue::Text("3".to_string()), 60, 100);
    let keys = vec!["a".to_string(), "b".to_string(), "c".to_string()];
    let got = cache.multi_get(&keys, ValueKind::Text, 101);
    assert_eq!(
        got,
        vec![
            Some(CacheValue::Text("1".to_string())),
            None,
            Some(CacheValue::Text("3".to_string())),
        ]
    );
}

#[test]
fn sweep_keeps_only_live_entries() {
    let mut cache = InstanceCache::new();
    cache.set("short", CacheValue::Text("s".to_string()), 5, 100);
    cache.set("long", CacheValue::Text("l".to_string()), 500, 100);
    cache.clear_old_cache(200);
    assert_eq!(cache.get_keys(200), vec!["long".to_string()]);
    assert_eq!(cache.get_len(200), 1);
}

#[test]
fn local_tier_answers_only_live_text() {
    let mut cache = InstanceCache::new();
    assert_eq!(lookup_local(&mut cache, "k", 100), None);
    cache.set("k", CacheValue::Text("v".to_string()), 60, 100);
    assert_eq!(lookup_local(&mut cache, "k", 120), Some("v".to_string()));
    assert_eq!(lookup_local(&mut cache, "k", 200), None);
}

#[test]
fn shared_tier_hit_populates_local() {
    let mut cache = InstanceCache::new();
    let got = lookup_on_shared(&mut cache, "k", 30, 100, Some("v".to_string()));
    assert_eq!(got, Some("v".to_string()));
    assert_eq!(lookup_local(&mut cache, "k", 110), Some("v".to_string()));
    // the caller-supplied ttl governs the local copy
    assert_eq!(lookup_local(&mut cache, "k", 130), None);
}

#[test]
fn shared_tier_miss_changes_nothing() {
    let mut cache = InstanceCache::new();
    assert_eq!(lookup_on_shared(&mut cache, "k", 30, 100, None), None);
    assert_eq!(lookup_local(&mut cache, "k", 100), None);
}

#[test]
fn origin_success_populates_local_and_owes_shared_write() {
    let mut cache = InstanceCache::new();
    let (r, w) = lookup_on_origin(&mut cache, "k", 30, 100, Ok("v".to_string()));
    assert_eq!(r, Ok("v".to_string()));
    let w = w.unwrap();
    assert_eq!(w.key, "k");
    assert_eq!(w.value, "v");
    assert_eq!(w.ttl_secs, 86400);
    assert_eq!(lookup_local(&mut cache, "k", 110), Some("v".to_string()));
}

#[test]
fn origin_failure_propagates_verbatim() {
    let mut cache = InstanceCache::new();
    let (r, w) = lookup_on_origin(&mut cache, "k", 30, 100, Err("boom".to_string()));
    assert_eq!(r, Err("boom".to_string()));
    assert!(w.is_none());
    assert_eq!(lookup_local(&mut cache, "k", 100), None);
}
