use heirloom_backend::cache_metrics::{CacheMetrics, EvictionWindow};
use heirloom_backend::clock::{Duration, Instant};
use heirloom_backend::ratio::Ratio;

fn value(r: Ratio) -> f64 {
    r.num as f64 / r.den as f64
}

fn make_metrics() -> CacheMetrics {
    CacheMetrics::new(100)
}

// ── Hit / miss counters ───────────────────────────────────────────────────

#[test]
fn test_initial_counters_zero() {
    let mut m = make_metrics();
    let snap = m.snapshot();
    assert_eq!(snap.hits, 0);
    assert_eq!(snap.misses, 0);
    assert_eq!(snap.sets, 0);
    assert_eq!(snap.deletes, 0);
    assert_eq!(snap.total_entries, 0);
}

#[test]
fn test_record_hit_increments_hits() {
    let mut m = make_metrics();
    m.record_hit();
    m.record_hit();
    assert_eq!(m.snapshot().hits, 2);
}

#[test]
fn test_record_miss_increments_misses() {
    let mut m = make_metrics();
    m.record_miss();
    assert_eq!(m.snapshot().misses, 1);
}

// ── Hit ratio ─────────────────────────────────────────────────────────────

#[test]
fn test_hit_ratio_none_with_no_accesses() {
    let mut m = make_metrics();
    assert!(m.hit_ratio().is_none());
}

#[test]
fn test_hit_ratio_all_hits() {
    let mut m = make_metrics();
    m.record_hit();
    m.record_hit();
    assert_eq!(m.hit_ratio().map(value), Some(1.0));
}

#[test]
fn test_hit_ratio_all_misses() {
    let mut m = make_metrics();
    m.record_miss();
    m.record_miss();
    assert_eq!(m.hit_ratio().map(value), Some(0.0));
}

#[test]
fn test_hit_ratio_mixed() {
    let mut m = make_metrics();
    m.record_hit();
    m.record_miss();
    assert_eq!(m.hit_ratio().map(value), Some(0.5));
}

// ── Sets / deletes ────────────────────────────────────────────────────────

#[test]
fn test_record_set_new_entry_increments_entry_count() {
    let mut m = make_metrics();
    m.record_set(true);
    m.record_set(true);
    let snap = m.snapshot();
    assert_eq!(snap.sets, 2);
    assert_eq!(snap.total_entries, 2);
}

#[test]
fn test_record_set_existing_entry_no_entry_count_change() {
    let mut m = make_metrics();
    m.record_set(true); // new
    m.record_set(false); // update
    let snap = m.snapshot();
    assert_eq!(snap.sets, 2);
    assert_eq!(snap.total_entries, 1);
}

#[test]
fn test_record_delete_decrements_entry_count() {
    let mut m = make_metrics();
    m.record_set(true);
    m.record_set(true);
    m.record_delete();
    assert_eq!(m.snapshot().total_entries, 1);
}

#[test]
fn test_record_delete_does_not_underflow() {
    let mut m = make_metrics();
    // Delete with no entries should not panic or wrap around.
    m.record_delete();
    assert_eq!(m.snapshot().total_entries, 0);
}

// ── Evictions ─────────────────────────────────────────────────────────────

#[test]
fn test_record_eviction_decrements_entries() {
    let mut m = make_metrics();
    m.record_set(true);
    m.record_eviction();
    assert_eq!(m.snapshot().total_entries, 0);
}

#[test]
fn test_evictions_tracked_increments() {
    let mut m = make_metrics();
    m.record_eviction();
    m.record_eviction();
    assert_eq!(m.snapshot().evictions_tracked, 2);
}

#[test]
fn test_evictions_in_window_recent() {
    let mut m = make_metrics();
    m.record_eviction();
    // All evictions happened within the last second.
    assert_eq!(m.evictions_in_window(Some(Duration::from_secs(1))), 1);
}

#[test]
fn test_evictions_in_window_excludes_old() {
    let mut m = CacheMetrics::new(100);
    // Record 0 evictions; the window lookback of 0 duration should return 0.
    m.record_eviction();
    // Looking back 0 seconds should return 0 (cutoff == now).
    let count = m.evictions_in_window(Some(Duration::from_nanos(0)));
    // May be 0 or 1 depending on sub-nanosecond timing; just check no panic.
    let _ = count;
}

// ── Latency ───────────────────────────────────────────────────────────────

#[test]
fn test_read_latency_none_with_no_reads() {
    let mut m = make_metrics();
    assert!(m.mean_read_latency_us().is_none());
}

#[test]
fn test_record_hit_with_latency_tracks_latency() {
    let mut m = make_metrics();
    m.record_hit_with_latency(Duration::from_micros(100));
    m.record_hit_with_latency(Duration::from_micros(200));
    let mean = value(m.mean_read_latency_us().unwrap());
    assert!((mean - 150.0).abs() < 1.0);
}

#[test]
fn test_record_miss_with_latency_tracks_latency() {
    let mut m = make_metrics();
    m.record_miss_with_latency(Duration::from_micros(50));
    let mean = value(m.mean_read_latency_us().unwrap());
    assert!((mean - 50.0).abs() < 1.0);
}

#[test]
fn test_write_latency_tracked() {
    let mut m = make_metrics();
    m.record_set_with_latency(true, Duration::from_micros(80));
    let mean = value(m.mean_write_latency_us().unwrap());
    assert!((mean - 80.0).abs() < 1.0);
}

// ── Prometheus rendering ──────────────────────────────────────────────────

#[test]
fn test_render_prometheus_contains_all_metrics() {
    let mut m = make_metrics();
    m.record_hit();
    m.record_miss();
    m.record_set(true);
    m.record_delete();
    m.record_eviction();
    m.record_hit_with_latency(Duration::from_micros(10));

    let output = m.render_prometheus();
    assert!(output.contains("cache_hits_total 1"));
    assert!(output.contains("cache_misses_total 1"));
    assert!(output.contains("cache_sets_total 1"));
    assert!(output.contains("cache_deletes_total 1"));
    assert!(output.contains("# TYPE cache_hits_total counter"));
    assert!(output.contains("# TYPE cache_entries gauge"));
}

#[test]
fn test_render_prometheus_includes_hit_ratio_when_available() {
    let mut m = make_metrics();
    m.record_hit();
    let output = m.render_prometheus();
    assert!(output.contains("cache_hit_ratio"));
}

#[test]
fn test_render_prometheus_no_hit_ratio_when_no_accesses() {
    let mut m = make_metrics();
    let output = m.render_prometheus();
    assert!(!output.contains("cache_hit_ratio"));
}

// ── Snapshot serialisation ────────────────────────────────────────────────

#[test]
fn old_evictions_leave_the_window() {
    let mut m = make_metrics();
    m.record_eviction_at(Instant { nanos: 1_000 });
    m.record_eviction_at(Instant { nanos: 5_000 });
    let now = Instant { nanos: 6_000 };
    assert_eq!(m.evictions_in_window_at(Some(Duration::from_nanos(2_000)), now), 1);
    assert_eq!(m.evictions_in_window_at(Some(Duration::from_nanos(5_000)), now), 2);
    assert_eq!(m.total_evictions_tracked(), 2);
}

#[test]
fn the_eviction_window_is_bounded() {
    let mut w = EvictionWindow::new(2);
    for i in 0..5u128 {
        w.record_at(Instant { nanos: i });
    }
    assert_eq!(w.total(), 2);
    let mut none = EvictionWindow::new(0);
    none.record_at(Instant { nanos: 1 });
    assert_eq!(none.total(), 0);
}
