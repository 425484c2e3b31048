use heirloom_backend::cache_partition::{
    namespaced_key, parse_namespaced_key, PartitionedCache,
};
use heirloom_backend::clock::{Duration, Instant};
use heirloom_backend::ratio::Ratio;

fn wait_millis(n: u64) {
    let start = std::time::Instant::now();
    while start.elapsed() < std::time::Duration::from_millis(n) {}
}

fn value(r: Ratio) -> f64 {
    r.num as f64 / r.den as f64
}

// ── namespaced_key ────────────────────────────────────────────────────────

#[test]
fn test_namespaced_key_format() {
    assert_eq!(namespaced_key("tenant_a", "vault:1"), "tenant_a:vault:1");
}

#[test]
fn test_parse_namespaced_key_valid() {
    let (tenant, key) = parse_namespaced_key("tenant_a:vault:1").unwrap();
    assert_eq!(tenant, "tenant_a");
    assert_eq!(key, "vault:1");
}

#[test]
fn test_parse_namespaced_key_no_separator() {
    assert!(parse_namespaced_key("no_separator").is_none());
}

// ── set / get ─────────────────────────────────────────────────────────────

#[test]
fn test_set_and_get_same_tenant() {
    let mut cache = PartitionedCache::new(Duration::from_secs(60));
    cache.set("tenant_a", "k1", "value1".to_string());
    assert_eq!(cache.get("tenant_a", "k1"), Some("value1".to_string()));
}

#[test]
fn test_get_miss_on_empty_cache() {
    let mut cache = PartitionedCache::new(Duration::from_secs(60));
    assert!(cache.get("tenant_a", "k1").is_none());
}

// ── Tenant isolation ──────────────────────────────────────────────────────

#[test]
fn test_tenant_isolation_different_tenants_same_key() {
    let mut cache = PartitionedCache::new(Duration::from_secs(60));
    cache.set("tenant_a", "vault:1", "data_a".to_string());
    cache.set("tenant_b", "vault:1", "data_b".to_string());

    assert_eq!(
        cache.get("tenant_a", "vault:1"),
        Some("data_a".to_string())
    );
    assert_eq!(
        cache.get("tenant_b", "vault:1"),
        Some("data_b".to_string())
    );
}

#[test]
fn test_tenant_a_cannot_read_tenant_b_data() {
    let mut cache = PartitionedCache::new(Duration::from_secs(60));
    cache.set("tenant_b", "secret", "sensitive".to_string());
    assert!(cache.get("tenant_a", "secret").is_none());
}

#[test]
fn test_clear_tenant_only_removes_that_tenant() {
    let mut cache = PartitionedCache::new(Duration::from_secs(60));
    cache.set("tenant_a", "k1", "a".to_string());
    cache.set("tenant_b", "k1", "b".to_string());

    cache.clear_tenant("tenant_a");

    assert!(cache.get("tenant_a", "k1").is_none());
    assert_eq!(cache.get("tenant_b", "k1"), Some("b".to_string()));
}

#[test]
fn test_clear_all_removes_all_tenants() {
    let mut cache = PartitionedCache::new(Duration::from_secs(60));
    cache.set("tenant_a", "k1", "a".to_string());
    cache.set("tenant_b", "k1", "b".to_string());

    cache.clear_all();

    assert!(cache.get("tenant_a", "k1").is_none());
    assert!(cache.get("tenant_b", "k1").is_none());
}

// ── TTL expiry ────────────────────────────────────────────────────────────

#[test]
fn test_entry_expires_after_ttl() {
    let mut cache = PartitionedCache::new(Duration::from_millis(1));
    cache.set("tenant_a", "k1", "value".to_string());
    wait_millis(5);
    assert!(cache.get("tenant_a", "k1").is_none());
}

#[test]
fn test_set_with_custom_ttl() {
    let mut cache = PartitionedCache::new(Duration::from_secs(60));
    // Override with a very short TTL.
    cache.set_with_ttl(
        "tenant_a",
        "k1",
        "value".to_string(),
        Duration::from_millis(1),
    );
    wait_millis(5);
    assert!(cache.get("tenant_a", "k1").is_none());
}

// ── remove ────────────────────────────────────────────────────────────────

#[test]
fn test_remove_specific_key() {
    let mut cache = PartitionedCache::new(Duration::from_secs(60));
    cache.set("tenant_a", "k1", "v1".to_string());
    cache.set("tenant_a", "k2", "v2".to_string());

    cache.remove("tenant_a", "k1");

    assert!(cache.get("tenant_a", "k1").is_none());
    assert_eq!(cache.get("tenant_a", "k2"), Some("v2".to_string()));
}

// ── validate_tenant_id ────────────────────────────────────────────────────

#[test]
fn test_validate_empty_tenant_id_rejected() {
    assert!(PartitionedCache::validate_tenant_id("").is_err());
}

#[test]
fn test_validate_tenant_id_with_separator_rejected() {
    assert!(PartitionedCache::validate_tenant_id("bad:id").is_err());
}

#[test]
fn test_validate_valid_tenant_id_accepted() {
    assert!(PartitionedCache::validate_tenant_id("tenant_abc_123").is_ok());
}

#[test]
fn test_set_safe_rejects_invalid_tenant_id() {
    let mut cache = PartitionedCache::new(Duration::from_secs(60));
    let result = cache.set_safe("bad:tenant", "k", "v".to_string());
    assert!(result.is_err());
}

#[test]
fn test_get_safe_rejects_invalid_tenant_id() {
    let mut cache = PartitionedCache::new(Duration::from_secs(60));
    let result = cache.get_safe("bad:tenant", "k");
    assert!(result.is_err());
}

// ── Partition statistics ──────────────────────────────────────────────────

#[test]
fn test_partition_stats_none_for_unknown_tenant() {
    let mut cache = PartitionedCache::new(Duration::from_secs(60));
    assert!(cache.partition_stats("unknown").is_none());
}

#[test]
fn test_partition_stats_tracks_hits_and_misses() {
    let mut cache = PartitionedCache::new(Duration::from_secs(60));
    cache.set("tenant_a", "k1", "v".to_string());

    // One hit
    let _ = cache.get("tenant_a", "k1");
    // One miss
    let _ = cache.get("tenant_a", "missing");

    let stats = cache.partition_stats("tenant_a").unwrap();
    assert_eq!(stats.hits, 1);
    assert_eq!(stats.misses, 1);
}

#[test]
fn test_partition_stats_hit_ratio() {
    let mut cache = PartitionedCache::new(Duration::from_secs(60));
    cache.set("tenant_a", "k1", "v".to_string());

    // 2 hits, 0 misses
    let _ = cache.get("tenant_a", "k1");
    let _ = cache.get("tenant_a", "k1");

    let stats = cache.partition_stats("tenant_a").unwrap();
    assert_eq!(stats.hit_ratio().map(value), Some(1.0));
}

#[test]
fn test_partition_stats_evictions_on_expiry() {
    let mut cache = PartitionedCache::new(Duration::from_millis(1));
    cache.set("tenant_a", "k1", "v".to_string());
    wait_millis(5);
    // Accessing an expired entry should increment evictions.
    let _ = cache.get("tenant_a", "k1");

    let stats = cache.partition_stats("tenant_a").unwrap();
    assert_eq!(stats.evictions, 1);
}

#[test]
fn test_partition_stats_live_keys() {
    let mut cache = PartitionedCache::new(Duration::from_secs(60));
    cache.set("tenant_a", "k1", "v1".to_string());
    cache.set("tenant_a", "k2", "v2".to_string());

    let stats = cache.partition_stats("tenant_a").unwrap();
    assert_eq!(stats.live_keys, 2);
}

#[test]
fn test_all_partition_stats_returns_all_tenants() {
    let mut cache = PartitionedCache::new(Duration::from_secs(60));
    cache.set("tenant_a", "k1", "v".to_string());
    cache.set("tenant_b", "k1", "v".to_string());

    let all = cache.all_partition_stats();
    assert!(all.contains_key("tenant_a"));
    assert!(all.contains_key("tenant_b"));
}

#[test]
fn test_tenant_count() {
    let mut cache = PartitionedCache::new(Duration::from_secs(60));
    assert_eq!(cache.tenant_count(), 0);
    cache.set("tenant_a", "k", "v".to_string());
    cache.set("tenant_b", "k", "v".to_string());
    assert_eq!(cache.tenant_count(), 2);
}

#[test]
fn test_stats_no_hit_ratio_when_no_accesses() {
    let mut cache = PartitionedCache::new(Duration::from_secs(60));
    cache.set("tenant_a", "k1", "v".to_string());
    // No gets yet
    let stats = cache.partition_stats("tenant_a").unwrap();
    assert_eq!(stats.hit_ratio(), None);
}

#[test]
fn a_miss_opens_the_partition_of_a_tenant() {
    let mut cache = PartitionedCache::new(Duration::from_secs(60));
    assert!(cache.get("tenant_a", "k1").is_none());
    let stats = cache.partition_stats("tenant_a").unwrap();
    assert_eq!(stats.misses, 1);
    assert_eq!(stats.hits, 0);
    assert_eq!(cache.tenant_count(), 1);
}

#[test]
fn partition_entries_live_for_their_time() {
    let mut cache = PartitionedCache::with_default_ttl();
    let start = Instant { nanos: 10 };
    cache.set_at("a", "k", "v".to_string(), Duration::from_nanos(5), start);
    assert_eq!(cache.get_at("a", "k", Instant { nanos: 12 }), Some("v".to_string()));
    assert_eq!(cache.get_at("a", "k", Instant { nanos: 100 }), None);
    let stats = cache.partition_stats_at("a", Instant { nanos: 100 }).unwrap();
    assert_eq!(stats.evictions, 1);
    assert_eq!(stats.live_keys, 0);
}

#[test]
fn a_namespaced_key_is_taken_apart_again() {
    let key = namespaced_key("t", "a:b:c");
    assert_eq!(parse_namespaced_key(&key), Some(("t", "a:b:c")));
}

#[test]
fn tenant_ids_are_refused_in_words() {
    assert!(PartitionedCache::validate_tenant_id("").unwrap_err().contains("empty"));
    assert!(!PartitionedCache::validate_tenant_id("a:b").unwrap_err().is_empty());
}
