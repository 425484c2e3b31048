use heirloom_backend::cache_recovery::{CacheHealth, FailureTracker, FaultTolerantCache};
use heirloom_backend::clock::Instant;

type TestCache = FaultTolerantCache<String>;

fn make_cache() -> TestCache {
    FaultTolerantCache::new(100)
}

// ── FailureTracker ────────────────────────────────────────────────────────

#[test]
fn test_failure_tracker_records_events() {
    let mut tracker = FailureTracker::new(10);
    tracker.record("error one");
    tracker.record("error two");
    assert_eq!(tracker.failure_count(), 2);
}

#[test]
fn test_failure_tracker_bounded_capacity() {
    let mut tracker = FailureTracker::new(3);
    tracker.record("e1");
    tracker.record("e2");
    tracker.record("e3");
    tracker.record("e4"); // should evict "e1"
    assert_eq!(tracker.failure_count(), 3);
    let events = tracker.events();
    assert_eq!(events[0].description, "e2");
}

#[test]
fn test_failure_tracker_clear() {
    let mut tracker = FailureTracker::new(10);
    tracker.record("e1");
    tracker.clear();
    assert_eq!(tracker.failure_count(), 0);
}

// ── Health ────────────────────────────────────────────────────────────────

#[test]
fn test_initial_health_is_healthy() {
    let mut cache = make_cache();
    assert_eq!(cache.health(), CacheHealth::Healthy);
}

#[test]
fn test_record_failure_marks_degraded() {
    let mut cache = make_cache();
    cache.record_failure("something went wrong");
    assert_eq!(cache.health(), CacheHealth::Degraded);
}

#[test]
fn test_simulate_backend_failure_marks_degraded() {
    let mut cache = make_cache();
    cache.simulate_backend_failure("disk full");
    assert_eq!(cache.health(), CacheHealth::Degraded);
    assert_eq!(cache.tracker.failure_count(), 1);
}

// ── set / get_or_fallback ─────────────────────────────────────────────────

#[test]
fn test_set_and_get_from_cache() {
    let mut cache = make_cache();
    cache.set("k1", "v1".to_string());
    let result: Result<Option<String>, ()> =
        cache.get_or_fallback("k1", |_| Ok(None));
    assert_eq!(result.unwrap(), Some("v1".to_string()));
}

#[test]
fn test_get_falls_back_to_source_on_miss() {
    let mut cache = make_cache();
    let result: Result<Option<String>, ()> =
        cache.get_or_fallback("missing_key", |k| Ok(Some(format!("source:{k}"))));
    assert_eq!(result.unwrap(), Some("source:missing_key".to_string()));
}

#[test]
fn test_fallback_value_written_back_to_cache() {
    let mut cache = make_cache();
    // First call: cache miss → source returns value and it is written back.
    let _: Result<Option<String>, ()> =
        cache.get_or_fallback("k1", |_| Ok(Some("from_source".to_string())));
    // Second call: should now be a cache hit, source not consulted.
    let mut source_called = false;
    let result: Result<Option<String>, ()> = cache.get_or_fallback("k1", |_| {
        source_called = true;
        Ok(None)
    });
    assert_eq!(result.unwrap(), Some("from_source".to_string()));
    assert!(!source_called, "source should not have been called on second get");
}

#[test]
fn test_get_falls_back_when_backend_unavailable() {
    let mut cache = make_cache();
    cache.simulate_backend_failure("backend down");
    let result: Result<Option<String>, ()> =
        cache.get_or_fallback("k1", |k| Ok(Some(format!("fallback:{k}"))));
    assert_eq!(result.unwrap(), Some("fallback:k1".to_string()));
}

#[test]
fn test_source_error_propagated() {
    let mut cache = make_cache();
    let result: Result<Option<String>, &str> =
        cache.get_or_fallback("k1", |_| Err("source error"));
    assert!(result.is_err());
}

// ── Failure detection on set ──────────────────────────────────────────────

#[test]
fn test_set_records_failure_when_backend_unavailable() {
    let mut cache = make_cache();
    cache.simulate_backend_failure("initial failure");
    let before = cache.tracker.failure_count();
    cache.set("k1", "v1".to_string());
    // An additional failure should have been recorded for the failed set.
    assert!(cache.tracker.failure_count() >= before);
}

// ── Rebuild ───────────────────────────────────────────────────────────────

#[test]
fn test_rebuild_populates_cache() {
    let mut cache = make_cache();
    cache.simulate_backend_failure("failure");

    let keys = ["k1", "k2", "k3"];
    let loaded = cache
        .rebuild(&keys, |k| Ok::<Option<String>, ()>(Some(k.to_string())))
        .unwrap();
    assert_eq!(loaded, 3);
    assert_eq!(cache.entry_count(), 3);
}

#[test]
fn test_rebuild_resets_health_to_healthy() {
    let mut cache = make_cache();
    cache.simulate_backend_failure("failure");
    assert_eq!(cache.health(), CacheHealth::Degraded);

    cache
        .rebuild(&["k1"], |_| Ok::<Option<String>, ()>(Some("v".to_string())))
        .unwrap();
    assert_eq!(cache.health(), CacheHealth::Healthy);
}

#[test]
fn test_rebuild_records_event() {
    let mut cache = make_cache();
    cache
        .rebuild(&["k1"], |_| Ok::<Option<String>, ()>(Some("v".to_string())))
        .unwrap();
    let events = cache.tracker.events();
    assert!(events.last().unwrap().description.contains("rebuilt"));
}

#[test]
fn test_rebuild_skips_keys_where_source_returns_none() {
    let mut cache = make_cache();
    let keys = ["k1", "k2"];
    let loaded = cache
        .rebuild(&keys, |k| {
            if k == "k1" {
                Ok::<Option<String>, ()>(Some("v1".to_string()))
            } else {
                Ok(None) // k2 not found in source
            }
        })
        .unwrap();
    assert_eq!(loaded, 1);
}

// ── remove ────────────────────────────────────────────────────────────────

#[test]
fn test_remove_existing_key() {
    let mut cache = make_cache();
    cache.set("k1", "v1".to_string());
    cache.remove("k1");
    let result: Result<Option<String>, ()> =
        cache.get_or_fallback("k1", |_| Ok(None));
    assert_eq!(result.unwrap(), None);
}

// ── entry_count ───────────────────────────────────────────────────────────

#[test]
fn test_entry_count_zero_when_backend_down() {
    let mut cache = make_cache();
    cache.set("k1", "v1".to_string());
    cache.simulate_backend_failure("down");
    assert_eq!(cache.entry_count(), 0);
}

#[test]
fn test_entry_count_increments_on_set() {
    let mut cache = make_cache();
    assert_eq!(cache.entry_count(), 0);
    cache.set("k1", "v1".to_string());
    assert_eq!(cache.entry_count(), 1);
    cache.set("k2", "v2".to_string());
    assert_eq!(cache.entry_count(), 2);
}

#[test]
fn a_tracker_without_room_keeps_nothing() {
    let mut tracker = FailureTracker::new(0);
    tracker.record_at("e", Instant { nanos: 1 });
    assert_eq!(tracker.failure_count(), 0);
    let mut one = FailureTracker::new(1);
    one.record_at("a", Instant { nanos: 1 });
    one.record_at("b", Instant { nanos: 2 });
    assert_eq!(one.events()[0].description, "b");
    assert_eq!(one.events()[0].occurred_at, Instant { nanos: 2 });
}

#[test]
fn a_failed_rebuild_reports_the_error_of_the_source() {
    let mut cache = make_cache();
    let r = cache.rebuild(&["k1"], |_| Err::<Option<String>, &str>("gone"));
    assert_eq!(r, Err("gone"));
}

#[test]
fn a_rebuild_starts_from_scratch() {
    let mut cache = FaultTolerantCache::<String>::new(100);
    cache.set("old", "x".to_string());
    let r = cache.rebuild(&["k1"], |_| Ok::<Option<String>, ()>(Some("v".to_string())));
    assert_eq!(r, Ok(1));
    assert_eq!(cache.entry_count(), 1);
    let kept = cache.get_or_fallback("k1", |_| Ok::<Option<String>, ()>(None));
    assert_eq!(kept, Ok(Some("v".to_string())));
    let gone = cache.get_or_fallback("old", |_| Ok::<Option<String>, ()>(None));
    assert_eq!(gone, Ok(None));
}

#[test]
fn a_failed_rebuild_keeps_only_what_it_loaded() {
    let mut cache = FaultTolerantCache::<String>::new(100);
    cache.set("old", "x".to_string());
    let r = cache.rebuild(&["k1", "k2"], |k| {
        if k == "k1" {
            Ok(Some("v".to_string()))
        } else {
            Err("gone")
        }
    });
    assert_eq!(r, Err("gone"));
    assert_eq!(cache.entry_count(), 1);
}
