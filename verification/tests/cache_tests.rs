use heirloom_backend::cache::{
    compress, decompress, CacheConfig, CoherenceToken, QuorumResult, Slot, VaultCache, FULL_RATIO,
    MAX_TTL_SECS, MIN_TTL_SECS,
};
use heirloom_backend::clock::{Duration, Instant, Timestamp};
use heirloom_backend::models::{Vault, VaultStatus, VaultSummary};

fn wait_millis(n: u64) {
    let start = std::time::Instant::now();
    while start.elapsed() < std::time::Duration::from_millis(n) {}
}

struct StoredVault {
    id: String,
    balance: i128,
    ttl_remaining: Option<u64>,
}

fn encode(v: &Vault) -> Vec<u8> {
    let ttl = encode_ttl(v.ttl_remaining);
    let mut out = format!("{}\n{}\n", v.id, v.balance).into_bytes();
    out.extend_from_slice(&ttl);
    out
}

fn decode(bytes: &[u8]) -> StoredVault {
    let text = String::from_utf8(bytes.to_vec()).unwrap();
    let parts: Vec<&str> = text.split('\n').collect();
    StoredVault {
        id: parts[0].to_string(),
        balance: parts[1].parse().unwrap(),
        ttl_remaining: decode_ttl(parts[2].as_bytes()),
    }
}

fn encode_ttl(ttl: Option<u64>) -> Vec<u8> {
    match ttl {
        Some(n) => n.to_string().into_bytes(),
        None => b"null".to_vec(),
    }
}

fn decode_ttl(bytes: &[u8]) -> Option<u64> {
    String::from_utf8(bytes.to_vec()).unwrap().parse().ok()
}

fn encode_summary(s: &VaultSummary) -> Vec<u8> {
    s.vault_id.clone().into_bytes()
}

fn make_vault(id: &str) -> Vault {
    Vault {
        id: id.to_string(),
        owner: "owner1".to_string(),
        beneficiary: "ben1".to_string(),
        balance: 1000,
        check_in_interval: 86400,
        last_check_in: Timestamp::now(),
        created_at: Timestamp::now(),
        status: VaultStatus::Active,
        ttl_remaining: Some(86400),
    }
}

fn make_summary(vault_id: &str) -> VaultSummary {
    VaultSummary {
        vault_id: vault_id.to_string(),
        owner: "owner1".to_string(),
        status: VaultStatus::Active,
        ttl_remaining: Some(86400),
        balance: 1000,
    }
}

// ── get_vault / set_vault (pre-existing) ──────────────────────────────────

#[test]
fn test_get_vault_miss_on_empty_cache() {
    let mut cache = VaultCache::new();
    assert!(cache.get_vault("v1").is_none());
}

#[test]
fn test_set_and_get_vault() {
    let mut cache = VaultCache::new();
    let vault = make_vault("v1");
    cache.set_vault("v1", encode(&vault));
    let result = cache.get_vault("v1");
    assert!(result.is_some());
    assert_eq!(decode(&result.unwrap()).id, "v1");
}

#[test]
fn test_vault_cache_expires_after_ttl() {
    let mut cache = VaultCache::with_ttl(Duration::from_millis(1));
    cache.set_vault("v1", encode(&make_vault("v1")));
    wait_millis(5);
    assert!(cache.get_vault("v1").is_none());
}

#[test]
fn test_vault_cache_updated_value_is_returned() {
    let mut cache = VaultCache::new();
    let mut vault = make_vault("v1");
    cache.set_vault("v1", encode(&vault));
    vault.balance = 9999;
    cache.set_vault("v1", encode(&vault));
    let result = decode(&cache.get_vault("v1").unwrap());
    assert_eq!(result.balance, 9999);
}

// ── get_ttl_remaining / set_ttl_remaining (pre-existing) ──────────────────

#[test]
fn test_get_ttl_remaining_miss_on_empty_cache() {
    let mut cache = VaultCache::new();
    assert!(cache.get_ttl_remaining("v1").is_none());
}

#[test]
fn test_set_and_get_ttl_remaining_some() {
    let mut cache = VaultCache::new();
    cache.set_ttl_remaining("v1", encode_ttl(Some(3600)));
    let result = cache.get_ttl_remaining("v1");
    assert_eq!(result.map(|b| decode_ttl(&b)), Some(Some(3600)));
}

#[test]
fn test_set_and_get_ttl_remaining_none() {
    let mut cache = VaultCache::new();
    cache.set_ttl_remaining("v1", encode_ttl(None));
    let result = cache.get_ttl_remaining("v1");
    assert_eq!(result.map(|b| decode_ttl(&b)), Some(None));
}

#[test]
fn test_ttl_remaining_expires_after_ttl() {
    let mut cache = VaultCache::with_ttl(Duration::from_millis(1));
    cache.set_ttl_remaining("v1", encode_ttl(Some(100)));
    wait_millis(5);
    assert!(cache.get_ttl_remaining("v1").is_none());
}

// ── get_vault_summary / set_vault_summary (pre-existing) ──────────────────

#[test]
fn test_get_vault_summary_miss_on_empty_cache() {
    let mut cache = VaultCache::new();
    assert!(cache.get_vault_summary("v1").is_none());
}

#[test]
fn test_set_and_get_vault_summary() {
    let mut cache = VaultCache::new();
    let summary = make_summary("v1");
    cache.set_vault_summary("v1", encode_summary(&summary));
    let result = cache.get_vault_summary("v1");
    assert!(result.is_some());
    assert_eq!(result.unwrap(), b"v1".to_vec());
}

#[test]
fn test_vault_summary_expires_after_ttl() {
    let mut cache = VaultCache::with_ttl(Duration::from_millis(1));
    cache.set_vault_summary("v1", encode_summary(&make_summary("v1")));
    wait_millis(5);
    assert!(cache.get_vault_summary("v1").is_none());
}

// ── invalidation (pre-existing) ───────────────────────────────────────────

#[test]
fn test_invalidate_removes_all_entries_for_vault() {
    let mut cache = VaultCache::new();
    cache.set_vault("v1", encode(&make_vault("v1")));
    cache.set_ttl_remaining("v1", encode_ttl(Some(100)));
    cache.set_vault_summary("v1", encode_summary(&make_summary("v1")));
    cache.invalidate("v1");
    assert!(cache.get_vault("v1").is_none());
    assert!(cache.get_ttl_remaining("v1").is_none());
    assert!(cache.get_vault_summary("v1").is_none());
}

#[test]
fn test_invalidate_does_not_affect_other_vaults() {
    let mut cache = VaultCache::new();
    cache.set_vault("v1", encode(&make_vault("v1")));
    cache.set_vault("v2", encode(&make_vault("v2")));
    cache.invalidate("v1");
    assert!(cache.get_vault("v1").is_none());
    assert!(cache.get_vault("v2").is_some());
}

#[test]
fn test_invalidate_all_clears_entire_cache() {
    let mut cache = VaultCache::new();
    cache.set_vault("v1", encode(&make_vault("v1")));
    cache.set_vault("v2", encode(&make_vault("v2")));
    cache.invalidate_all();
    assert!(cache.get_vault("v1").is_none());
    assert!(cache.get_vault("v2").is_none());
}

// ── cache consistency (pre-existing) ─────────────────────────────────────

#[test]
fn test_cache_consistency_after_state_change() {
    let mut cache = VaultCache::new();
    let vault = make_vault("v1");
    cache.set_vault("v1", encode(&vault));
    cache.set_ttl_remaining("v1", encode_ttl(Some(86400)));
    cache.set_vault_summary("v1", encode_summary(&make_summary("v1")));
    cache.invalidate("v1");
    let mut updated_vault = make_vault("v1");
    updated_vault.ttl_remaining = Some(86400 * 2);
    cache.set_vault("v1", encode(&updated_vault));
    cache.set_ttl_remaining("v1", encode_ttl(Some(86400 * 2)));
    let cached = decode(&cache.get_vault("v1").unwrap());
    assert_eq!(cached.ttl_remaining, Some(86400 * 2));
    let cached_ttl = decode_ttl(&cache.get_ttl_remaining("v1").unwrap());
    assert_eq!(cached_ttl, Some(86400 * 2));
}

#[test]
fn test_independent_vaults_do_not_interfere() {
    let mut cache = VaultCache::new();
    cache.set_vault("v1", encode(&make_vault("v1")));
    cache.set_vault("v2", encode(&make_vault("v2")));
    cache.set_ttl_remaining("v1", encode_ttl(Some(100)));
    cache.set_ttl_remaining("v2", encode_ttl(Some(200)));
    assert_eq!(cache.get_ttl_remaining("v1").map(|b| decode_ttl(&b)), Some(Some(100)));
    assert_eq!(cache.get_ttl_remaining("v2").map(|b| decode_ttl(&b)), Some(Some(200)));
}

// ── live_entry_count (pre-existing) ──────────────────────────────────────

#[test]
fn test_live_entry_count_empty() {
    let mut cache = VaultCache::new();
    assert_eq!(cache.live_entry_count(), 0);
}

#[test]
fn test_live_entry_count_with_entries() {
    let mut cache = VaultCache::new();
    cache.set_vault("v1", encode(&make_vault("v1")));
    cache.set_vault("v2", encode(&make_vault("v2")));
    assert_eq!(cache.live_entry_count(), 2);
}

#[test]
fn test_live_entry_count_decrements_after_invalidation() {
    let mut cache = VaultCache::new();
    cache.set_vault("v1", encode(&make_vault("v1")));
    cache.set_vault("v2", encode(&make_vault("v2")));
    cache.invalidate("v1");
    assert_eq!(cache.live_entry_count(), 1);
}

#[test]
fn test_live_entry_count_zero_after_expiry() {
    let mut cache = VaultCache::with_ttl(Duration::from_millis(1));
    cache.set_vault("v1", encode(&make_vault("v1")));
    wait_millis(5);
    assert_eq!(cache.live_entry_count(), 0);
}

// ── #88 – Metrics ─────────────────────────────────────────────────────────

#[test]
fn test_metrics_initial_zero() {
    let mut cache = VaultCache::new();
    let m = cache.metrics();
    assert_eq!(m.hits, 0);
    assert_eq!(m.misses, 0);
}

#[test]
fn test_metrics_hit_recorded() {
    let mut cache = VaultCache::with_config(CacheConfig {
        staleness_ratio: FULL_RATIO, // disable stale bypass
        ..CacheConfig::default()
    });
    cache.set_vault("v1", encode(&make_vault("v1")));
    cache.get_vault("v1");
    assert_eq!(cache.metrics().hits, 1);
    assert_eq!(cache.metrics().misses, 0);
}

#[test]
fn test_metrics_miss_recorded() {
    let mut cache = VaultCache::new();
    cache.get_vault("missing");
    assert_eq!(cache.metrics().misses, 1);
    assert_eq!(cache.metrics().hits, 0);
}

#[test]
fn test_hit_ratio_zero_when_no_requests() {
    let mut cache = VaultCache::new();
    let ratio = cache.metrics().hit_ratio();
    assert_eq!(ratio.num as f64 / ratio.den as f64, 0.0);
}

#[test]
fn test_hit_ratio_calculation() {
    let mut cache = VaultCache::with_config(CacheConfig {
        staleness_ratio: FULL_RATIO,
        ..CacheConfig::default()
    });
    cache.set_vault("v1", encode(&make_vault("v1")));
    cache.get_vault("v1"); // hit
    cache.get_vault("v1"); // hit
    cache.get_vault("missing"); // miss
    let exact = cache.metrics().hit_ratio();
    let ratio = exact.num as f64 / exact.den as f64;
    // 2 hits / 3 total ≈ 0.666
    assert!((ratio - 2.0 / 3.0).abs() < 1e-6);
}

// ── #88 – Dynamic sizing / eviction ──────────────────────────────────────

#[test]
fn test_eviction_when_max_entries_reached() {
    let mut cache = VaultCache::with_config(CacheConfig {
        max_entries: 2,
        ..CacheConfig::default()
    });
    cache.set_vault("v1", encode(&make_vault("v1")));
    cache.set_vault("v2", encode(&make_vault("v2")));
    // Adding v3 should evict one of the existing entries.
    cache.set_vault("v3", encode(&make_vault("v3")));
    assert_eq!(cache.metrics().evictions, 1);
}

// ── #88 – Auto-tune TTL ───────────────────────────────────────────────────

#[test]
fn test_auto_tune_grows_ttl_on_high_hit_ratio() {
    let mut cache = VaultCache::with_config(CacheConfig {
        ttl: Duration::from_secs(100),
        staleness_ratio: FULL_RATIO,
        ..CacheConfig::default()
    });
    // Drive hit ratio above 0.8 (8 hits, 1 miss).
    cache.set_vault("v1", encode(&make_vault("v1")));
    for _ in 0..8 {
        cache.get_vault("v1");
    }
    cache.get_vault("missing"); // 1 miss

    let new_ttl = cache.auto_tune();
    assert!(new_ttl.as_secs() > 100);
}

#[test]
fn test_auto_tune_shrinks_ttl_on_low_hit_ratio() {
    let mut cache = VaultCache::with_config(CacheConfig {
        ttl: Duration::from_secs(100),
        ..CacheConfig::default()
    });
    // Drive hit ratio below 0.5 (all misses).
    for _ in 0..10 {
        cache.get_vault("missing");
    }
    let new_ttl = cache.auto_tune();
    assert!(new_ttl.as_secs() < 100);
}

#[test]
fn test_auto_tune_respects_min_ttl() {
    let mut cache = VaultCache::with_config(CacheConfig {
        ttl: Duration::from_secs(MIN_TTL_SECS),
        ..CacheConfig::default()
    });
    for _ in 0..10 {
        cache.get_vault("missing");
    }
    let new_ttl = cache.auto_tune();
    assert_eq!(new_ttl.as_secs(), MIN_TTL_SECS as u128);
}

#[test]
fn test_auto_tune_respects_max_ttl() {
    let mut cache = VaultCache::with_config(CacheConfig {
        ttl: Duration::from_secs(MAX_TTL_SECS),
        staleness_ratio: FULL_RATIO,
        ..CacheConfig::default()
    });
    cache.set_vault("v1", encode(&make_vault("v1")));
    for _ in 0..10 {
        cache.get_vault("v1");
    }
    let new_ttl = cache.auto_tune();
    assert_eq!(new_ttl.as_secs(), MAX_TTL_SECS as u128);
}

// ── #89 – Coherence token ─────────────────────────────────────────────────

#[test]
fn test_coherence_token_none_when_absent() {
    let mut cache = VaultCache::new();
    assert!(cache.get_coherence_token("v1").is_none());
}

#[test]
fn test_coherence_token_returned_after_set() {
    let mut cache = VaultCache::new();
    cache.set_vault("v1", encode(&make_vault("v1")));
    let token = cache.get_coherence_token("v1");
    assert!(token.is_some());
    assert_eq!(token.unwrap().vault_id, "v1");
}

#[test]
fn test_coherence_token_version_increments() {
    let mut cache = VaultCache::new();
    cache.set_vault("v1", encode(&make_vault("v1")));
    let v1 = cache.get_coherence_token("v1").unwrap().version;
    cache.set_vault("v1", encode(&make_vault("v1"))); // overwrite → new version
    let v2 = cache.get_coherence_token("v1").unwrap().version;
    assert!(v2 > v1);
}

// ── #89 – Cross-instance invalidation ────────────────────────────────────

#[test]
fn test_invalidate_if_older_removes_stale_entry() {
    let mut cache = VaultCache::new();
    cache.set_vault("v1", encode(&make_vault("v1")));
    let local_version = cache.get_coherence_token("v1").unwrap().version;
    // Remote version is newer → invalidate.
    let evicted = cache.invalidate_if_older("v1", local_version + 1);
    assert!(evicted);
    assert!(cache.get_vault("v1").is_none());
}

#[test]
fn test_invalidate_if_older_keeps_newer_entry() {
    let mut cache = VaultCache::new();
    cache.set_vault("v1", encode(&make_vault("v1")));
    let local_version = cache.get_coherence_token("v1").unwrap().version;
    // Remote version is older → do NOT invalidate.
    let evicted = cache.invalidate_if_older("v1", local_version - 1);
    assert!(!evicted);
    // Entry still present (bypass stale check by using a 100% ratio cache)
}

// ── #89 – Quorum consistency ──────────────────────────────────────────────

#[test]
fn test_quorum_consistent_when_versions_match() {
    let mut cache = VaultCache::new();
    cache.set_vault("v1", encode(&make_vault("v1")));
    let version = cache.get_coherence_token("v1").unwrap().version;
    let remote_tokens = vec![
        CoherenceToken {
            vault_id: "v1".to_string(),
            version,
        },
        CoherenceToken {
            vault_id: "v1".to_string(),
            version,
        },
    ];
    assert_eq!(
        cache.verify_quorum("v1", &remote_tokens),
        QuorumResult::Consistent
    );
}

#[test]
fn test_quorum_inconsistent_when_versions_differ() {
    let mut cache = VaultCache::new();
    cache.set_vault("v1", encode(&make_vault("v1")));
    let version = cache.get_coherence_token("v1").unwrap().version;
    let remote_tokens = vec![CoherenceToken {
        vault_id: "v1".to_string(),
        version: version + 99,
    }];
    let result = cache.verify_quorum("v1", &remote_tokens);
    assert!(matches!(result, QuorumResult::Inconsistent(_)));
}

// ── #90 – Stale bypass ────────────────────────────────────────────────────

#[test]
fn test_stale_bypass_returns_none() {
    // Use 0% staleness ratio → every live entry is immediately stale.
    let mut cache = VaultCache::with_config(CacheConfig {
        staleness_ratio: 0,
        ..CacheConfig::default()
    });
    cache.set_vault("v1", encode(&make_vault("v1")));
    // Should be bypassed since elapsed ≥ 0% of TTL immediately.
    let result = cache.get_vault("v1");
    assert!(result.is_none());
}

#[test]
fn test_stale_bypass_increments_counter() {
    let mut cache = VaultCache::with_config(CacheConfig {
        staleness_ratio: 0,
        ..CacheConfig::default()
    });
    cache.set_vault("v1", encode(&make_vault("v1")));
    cache.get_vault("v1");
    assert!(cache.metrics().stale_bypasses >= 1);
}

#[test]
fn test_is_stale_false_on_fresh_entry() {
    let mut cache = VaultCache::with_config(CacheConfig {
        staleness_ratio: FULL_RATIO, // nothing is stale until fully expired
        ..CacheConfig::default()
    });
    cache.set_vault("v1", encode(&make_vault("v1")));
    assert!(!cache.is_stale("v1"));
}

#[test]
fn test_is_stale_true_after_ratio_elapsed() {
    // Very short TTL (100ms) with 0% ratio → immediately stale.
    let mut cache = VaultCache::with_config(CacheConfig {
        ttl: Duration::from_millis(100),
        staleness_ratio: 0,
        ..CacheConfig::default()
    });
    cache.set_vault("v1", encode(&make_vault("v1")));
    assert!(cache.is_stale("v1"));
}

#[test]
fn test_force_bypass_evicts_entry() {
    let mut cache = VaultCache::with_config(CacheConfig {
        staleness_ratio: FULL_RATIO,
        ..CacheConfig::default()
    });
    cache.set_vault("v1", encode(&make_vault("v1")));
    cache.force_bypass("v1");
    assert!(cache.get_vault("v1").is_none());
}

#[test]
fn test_set_staleness_ratio_takes_effect() {
    let mut cache = VaultCache::with_config(CacheConfig {
        staleness_ratio: FULL_RATIO, // nothing stale initially
        ..CacheConfig::default()
    });
    cache.set_vault("v1", encode(&make_vault("v1")));
    // Entry should be returned (not stale yet).
    assert!(cache.is_stale("v1") == false);
    // Now set ratio to 0 → immediately stale.
    cache.set_staleness_ratio(0);
    assert!(cache.is_stale("v1"));
}

// ── #91 – Compression ─────────────────────────────────────────────────────

#[test]
fn test_compress_decompress_roundtrip() {
    let original = b"hello, cache compression!";
    let compressed = compress(original);
    let decompressed = decompress(&compressed).unwrap();
    assert_eq!(decompressed, original);
}

#[test]
fn test_compress_decompress_empty() {
    let original: &[u8] = b"";
    let compressed = compress(original);
    let decompressed = decompress(&compressed).unwrap();
    assert_eq!(decompressed, original);
}

#[test]
fn test_decompress_returns_none_on_invalid_data() {
    assert!(decompress(b"bad data").is_none());
}

#[test]
fn test_small_values_not_compressed() {
    // Threshold of 10_000 bytes means a small vault won't be compressed.
    let mut cache = VaultCache::with_config(CacheConfig {
        compression_threshold: 10_000,
        staleness_ratio: FULL_RATIO,
        ..CacheConfig::default()
    });
    cache.set_vault("v1", encode(&make_vault("v1")));
    assert!(!cache.is_vault_compressed("v1"));
}

#[test]
fn test_large_values_are_compressed() {
    // Threshold of 1 byte forces compression of everything.
    let mut cache = VaultCache::with_config(CacheConfig {
        compression_threshold: 1,
        staleness_ratio: FULL_RATIO,
        ..CacheConfig::default()
    });
    cache.set_vault("v1", encode(&make_vault("v1")));
    assert!(cache.is_vault_compressed("v1"));
}

#[test]
fn test_compressed_entry_decompresses_on_get() {
    let mut cache = VaultCache::with_config(CacheConfig {
        compression_threshold: 1, // always compress
        staleness_ratio: FULL_RATIO,
        ..CacheConfig::default()
    });
    let vault = make_vault("v1");
    cache.set_vault("v1", encode(&vault));
    let retrieved = decode(&cache.get_vault("v1").unwrap());
    assert_eq!(retrieved.id, vault.id);
    assert_eq!(retrieved.balance, vault.balance);
}

#[test]
fn test_compression_metric_incremented() {
    let mut cache = VaultCache::with_config(CacheConfig {
        compression_threshold: 1,
        staleness_ratio: FULL_RATIO,
        ..CacheConfig::default()
    });
    cache.set_vault("v1", encode(&make_vault("v1")));
    assert!(cache.metrics().compressed_entries >= 1);
}

#[test]
fn test_decompression_metric_incremented_on_get() {
    let mut cache = VaultCache::with_config(CacheConfig {
        compression_threshold: 1,
        staleness_ratio: FULL_RATIO,
        ..CacheConfig::default()
    });
    cache.set_vault("v1", encode(&make_vault("v1")));
    cache.get_vault("v1");
    assert!(cache.metrics().decompressions >= 1);
}

#[test]
fn test_set_compression_threshold_applies_to_new_writes() {
    let mut cache = VaultCache::with_config(CacheConfig {
        compression_threshold: 10_000, // start: no compression
        staleness_ratio: FULL_RATIO,
        ..CacheConfig::default()
    });
    cache.set_vault("v1", encode(&make_vault("v1")));
    assert!(!cache.is_vault_compressed("v1"));

    // Lower threshold → subsequent writes will be compressed.
    cache.set_compression_threshold(1);
    cache.set_vault("v2", encode(&make_vault("v2")));
    assert!(cache.is_vault_compressed("v2"));
    // v1 was already written with the old threshold; not re-encoded.
    assert!(!cache.is_vault_compressed("v1"));
}

#[test]
fn entries_expire_at_their_moment() {
    let start = Instant { nanos: 1_000 };
    let config = CacheConfig { ttl: Duration::from_nanos(100), staleness_ratio: FULL_RATIO, ..CacheConfig::default() };
    let mut cache = VaultCache::with_config(config);
    cache.set_at(Slot::Vault, "v1", b"x".to_vec(), start);
    assert_eq!(cache.get_at(Slot::Vault, "v1", Instant { nanos: 1_050 }), Some(b"x".to_vec()));
    assert_eq!(cache.live_entry_count_at(Instant { nanos: 1_050 }), 1);
    assert_eq!(cache.get_at(Slot::Vault, "v1", Instant { nanos: 2_000 }), None);
    assert_eq!(cache.live_entry_count_at(Instant { nanos: 2_000 }), 0);
}

#[test]
fn long_values_survive_compression() {
    let data: Vec<u8> = (0..200_000u32).map(|i| (i % 251) as u8).collect();
    let packed = compress(&data);
    assert_ne!(packed, data);
    assert_eq!(decompress(&packed), Some(data));
}

#[test]
fn only_values_above_the_threshold_are_compressed() {
    let mut cache = VaultCache::with_config(CacheConfig {
        compression_threshold: 4,
        staleness_ratio: FULL_RATIO,
        ..CacheConfig::default()
    });
    cache.set_vault("at", vec![1, 2, 3, 4]);
    cache.set_vault("above", vec![1, 2, 3, 4, 5]);
    assert!(!cache.is_vault_compressed("at"));
    assert!(cache.is_vault_compressed("above"));
    assert_eq!(cache.metrics().compressed_entries, 1);
    assert_eq!(cache.get_vault("at"), Some(vec![1, 2, 3, 4]));
    assert_eq!(cache.get_vault("above"), Some(vec![1, 2, 3, 4, 5]));
}

#[test]
fn a_cap_of_zero_keeps_nothing() {
    let mut cache = VaultCache::with_config(CacheConfig {
        max_entries: 0,
        staleness_ratio: FULL_RATIO,
        ..CacheConfig::default()
    });
    cache.set_vault("v1", vec![1]);
    cache.set_vault("v2", vec![2]);
    assert_eq!(cache.get_vault("v1"), None);
    assert_eq!(cache.get_vault("v2"), None);
    assert_eq!(cache.live_entry_count(), 0);
    assert_eq!(cache.metrics().evictions, 0);
}

#[test]
fn the_staleness_bound_is_rounded_to_the_nearest_nanosecond() {
    let mut cache = VaultCache::with_config(CacheConfig {
        ttl: Duration { nanos: 1 },
        staleness_ratio: 900_000,
        ..CacheConfig::default()
    });
    let t = Instant { nanos: 10 };
    cache.set_at(Slot::Vault, "v1", vec![7], t);
    assert!(!cache.is_stale_at("v1", t));
    assert_eq!(cache.get_at(Slot::Vault, "v1", t), Some(vec![7]));
    assert_eq!(cache.get_at(Slot::Vault, "v1", Instant { nanos: 11 }), None);
}
