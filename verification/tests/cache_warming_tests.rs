use heirloom_backend::cache::VaultCache;
use heirloom_backend::cache_warming::{
    select_targets, CacheWarmer, VaultAccessPattern, WarmingResult, MIN_PREFETCH_CONFIDENCE,
};
use heirloom_backend::clock::{Duration, Instant, Timestamp};
use heirloom_backend::db::create_vault_store;
use heirloom_backend::models::{Vault, VaultStatus};

/// The confidence in a prediction: how full the history is, how even the
/// intervals are and how many predictions came true.
fn prediction_confidence(p: &VaultAccessPattern) -> f64 {
    let (history, accuracy) = match p.confidence_factors() {
        Some(f) => f,
        None => return 0.0,
    };
    let times: Vec<f64> = p.access_history().iter().map(|t| t.nanos as f64 / 1e9).collect();
    let avg = match p.avg_interval() {
        Some(i) => i.total_nanos as f64 / 1e9 / i.count as f64,
        None => return 0.0,
    };
    let spread: f64 = times.windows(2).map(|w| (w[1] - w[0] - avg).powi(2)).sum::<f64>()
        / (times.len() - 1) as f64;
    let consistency = (1.0 - (spread.sqrt() / avg).min(1.0)).max(0.0);
    let ratio = |n: u64, d: u64| n as f64 / d as f64;
    ratio(history.num, history.den) * 0.3
        + consistency * 0.4
        + ratio(accuracy.num, accuracy.den) * 0.3
}

fn score(p: &VaultAccessPattern) -> u64 {
    prediction_confidence(p).to_bits()
}

fn encode(v: &Vault) -> Vec<u8> {
    v.id.clone().into_bytes()
}

fn encode_ttl(t: &Option<u64>) -> Vec<u8> {
    format!("{t:?}").into_bytes()
}

fn start() -> Instant {
    Instant { nanos: 0 }
}

fn later(secs: u128) -> Instant {
    Instant { nanos: secs * 1_000_000_000 }
}

fn make_test_vault(id: &str) -> Vault {
    Vault {
        id: id.to_string(),
        owner: "owner1".to_string(),
        beneficiary: "ben1".to_string(),
        balance: 1000,
        check_in_interval: 86400,
        last_check_in: Timestamp::now(),
        created_at: Timestamp::now(),
        status: VaultStatus::Active,
        ttl_remaining: Some(86400),
    }
}

#[test]
fn test_access_pattern_single_access() {
    let mut pattern = VaultAccessPattern::new();
    pattern.record_access(start());
    assert_eq!(pattern.access_history().len(), 1);
    assert!(pattern.avg_interval().is_none());
    assert_eq!(prediction_confidence(&pattern), 0.0);
}

#[test]
fn test_access_pattern_calculates_interval() {
    let mut pattern = VaultAccessPattern::new();
    pattern.record_access(start());
    pattern.record_access(later(100));
    pattern.record_access(later(200));

    assert!(pattern.avg_interval().is_some());
    let interval = pattern.avg_interval().unwrap();
    let avg = interval.total_nanos as f64 / 1e9 / interval.count as f64;
    assert!((avg - 100.0).abs() < 1.0);
}

#[test]
fn test_prediction_confidence_low_with_few_samples() {
    let mut pattern = VaultAccessPattern::new();
    pattern.record_access(start());
    pattern.record_access(later(10));
    assert!(score(&pattern) < MIN_PREFETCH_CONFIDENCE);
}

#[test]
fn test_cache_warmer_records_access() {
    let mut warmer = CacheWarmer::new();
    warmer.record_access("vault1");
    warmer.record_access("vault1");
    warmer.record_access("vault2");

    let stats = warmer.get_stats();
    assert_eq!(stats.total_accesses, 3);
}

#[test]
fn test_predict_prefetch_targets_empty_with_no_pattern() {
    let mut warmer = CacheWarmer::new();
    let targets = warmer.predict_prefetch_targets(score);
    assert!(targets.is_empty());
}

#[test]
fn test_warming_result_tracks_counts() {
    let result = WarmingResult {
        warmed_count: 5,
        failed_count: 1,
        skipped_count: 2,
        vault_ids: vec!["v1".to_string(), "v2".to_string()],
    };

    assert_eq!(result.warmed_count, 5);
    assert_eq!(result.failed_count, 1);
    assert_eq!(result.skipped_count, 2);
    assert_eq!(result.vault_ids.len(), 2);
}

#[test]
fn test_warm_cache_skips_cached_vaults() {
    let mut warmer = CacheWarmer::new();
    let mut cache = VaultCache::new();
    let vault_store = create_vault_store();

    // Pre-populate cache.
    cache.set_vault("vault1", encode(&make_test_vault("vault1")));

    let now = warmer.now();
    for i in 0..5u128 {
        warmer.record_access_at("vault1", Instant { nanos: now.nanos + i * 60 * 1_000_000_000 });
    }

    let result = warmer.warm_cache(&mut cache, &vault_store, score, encode, encode_ttl);
    // Should skip because already in cache.
    assert_eq!(result.skipped_count, 1);
    assert_eq!(result.warmed_count, 0);
}

#[test]
fn the_next_access_follows_the_average_interval() {
    let mut pattern = VaultAccessPattern::new();
    for i in 0..4u128 {
        pattern.record_access(later(i * 100));
    }
    assert_eq!(pattern.predict_next_access(), Some(later(400)));
    assert!(pattern.is_imminent_at(later(390)));
    assert_eq!(Duration::from_secs(100).as_nanos(), 100_000_000_000);
}

#[test]
fn the_highest_scores_come_first() {
    let ids = vec!["a".to_string(), "b".to_string(), "c".to_string()];
    let scores = vec![1.0f64.to_bits(), 0.5f64.to_bits(), 1.0f64.to_bits()];
    assert_eq!(select_targets(&ids, &scores), vec!["a", "c", "b"]);
}

#[test]
fn warming_counts_every_target() {
    let mut warmer = CacheWarmer::new();
    let mut cache = VaultCache::new();
    let mut store = create_vault_store();
    store.insert("v1".to_string(), make_test_vault("v1"));
    let targets = vec!["v1".to_string(), "gone".to_string()];
    let now = warmer.now();
    let r = warmer.warm_targets_at(&targets, &mut cache, &store, encode, encode_ttl, now);
    assert_eq!(r.warmed_count, 1);
    assert_eq!(r.failed_count, 1);
    assert_eq!(r.skipped_count, 0);
    assert_eq!(r.vault_ids, vec!["v1"]);
    assert_eq!(warmer.get_stats().total_prefetches, 1);
    assert_eq!(warmer.get_stats().failed_prefetches, 1);
    warmer.reset();
    assert_eq!(warmer.get_stats().total_prefetches, 0);
}

#[test]
fn patterns_are_listed_by_vault() {
    let mut warmer = CacheWarmer::new();
    let now = warmer.now();
    warmer.record_access_at("vault1", now);
    warmer.record_access_at("vault2", now);
    warmer.record_access_at("vault1", now);
    let patterns = warmer.patterns();
    assert_eq!(patterns.len(), 2);
    assert_eq!(patterns.get("vault1").unwrap().access_history().len(), 2);
    assert_eq!(patterns.get("vault2").unwrap().access_history().len(), 1);
}
