use heirloom_backend::clock::Instant;
use heirloom_backend::deadlock::{DeadlockDetector, DeadlockError, RetryConfig, LOCK_ORDER};

#[test]
fn test_acquire_and_release() {
    let mut d = DeadlockDetector::new();
    assert!(d.acquire_lock("vaults", "req1").is_ok());
    assert_eq!(d.stats().active_locks, 1);
    d.release_lock("vaults", "req1");
    assert_eq!(d.stats().active_locks, 0);
}

#[test]
fn test_second_holder_gets_timeout() {
    let mut d = DeadlockDetector::new();
    d.acquire_lock("vaults", "req1").unwrap();
    let err = d.acquire_lock("vaults", "req2").unwrap_err();
    assert!(matches!(err, DeadlockError::Timeout { .. }));
}

#[test]
fn test_reentrant_acquire_is_ok() {
    let mut d = DeadlockDetector::new();
    d.acquire_lock("vaults", "req1").unwrap();
    assert!(d.acquire_lock("vaults", "req1").is_ok());
}

#[test]
fn test_with_retry_succeeds_on_first_try() {
    let cfg = RetryConfig::default();
    let result = DeadlockDetector::with_retry(&cfg, || Ok::<i32, DeadlockError>(42), |_| {});
    assert_eq!(result.unwrap(), 42);
}

#[test]
fn test_with_retry_propagates_non_deadlock_error() {
    let cfg = RetryConfig::default();
    let result = DeadlockDetector::with_retry(&cfg, || {
        Err::<i32, _>(DeadlockError::LockOrderViolation {
            expected: "vaults".into(),
            got: "tenants".into(),
        })
    }, |_| {});
    assert!(matches!(
        result,
        Err(DeadlockError::LockOrderViolation { .. })
    ));
}

#[test]
fn test_enforce_query_timeout_ok() {
    let result = DeadlockDetector::enforce_query_timeout(1_000, || 99_u32);
    assert_eq!(result.unwrap(), 99);
}

#[test]
fn test_stats_increments_deadlock_count() {
    let mut d = DeadlockDetector::new();
    // Manually bump the counter.
    d.deadlock_count += 3;
    assert_eq!(d.stats().deadlocks_detected, 3);
}

#[test]
fn test_lock_order_constant() {
    assert!(LOCK_ORDER.contains(&"vaults"));
    assert!(LOCK_ORDER.contains(&"tenants"));
}

#[test]
fn waiting_in_a_circle_is_a_deadlock() {
    let mut d = DeadlockDetector::new();
    let now = Instant { nanos: 0 };
    d.acquire_lock_at("a", "r1", now).unwrap();
    d.acquire_lock_at("b", "r2", now).unwrap();
    d.acquire_lock_at("c", "r3", now).unwrap();
    assert!(matches!(d.acquire_lock_at("b", "r1", now), Err(DeadlockError::Timeout { .. })));
    assert!(matches!(d.acquire_lock_at("c", "r2", now), Err(DeadlockError::Timeout { .. })));
    assert!(matches!(d.acquire_lock_at("a", "r3", now), Err(DeadlockError::Deadlock { .. })));
    assert_eq!(d.stats().deadlocks_detected, 1);
}

#[test]
fn deadlocks_are_retried_and_counted() {
    let mut d = DeadlockDetector::new();
    let cfg = RetryConfig { max_retries: 2, backoff_ms: 1, timeout_ms: 60_000 };
    let failing = || Err::<u8, _>(DeadlockError::Deadlock { resources: vec!["a".to_string()] });
    let r = d.with_counted_retry(&cfg, failing, |_| {});
    assert!(matches!(r, Err(DeadlockError::Deadlock { .. })));
    assert_eq!(d.stats().retries_performed, 2);
}

#[test]
fn slow_queries_time_out() {
    assert_eq!(DeadlockDetector::judge_query(10, 10, 7).ok(), Some(7));
    let err = DeadlockDetector::judge_query(10, 11, 7).unwrap_err();
    assert!(matches!(err, DeadlockError::Timeout { waited_ms: 11, .. }));
    assert!(!err.to_string().is_empty());
}

#[test]
fn retries_stop_when_the_time_is_over() {
    let cfg = RetryConfig { max_retries: 5, backoff_ms: 1, timeout_ms: 10 };
    let reading = std::cell::Cell::new(0u128);
    let clock = || {
        let now = reading.get();
        reading.set(now + 4_000_000);
        now
    };
    let failing = || Err::<u8, _>(DeadlockError::Deadlock { resources: vec!["a".to_string()] });
    let (r, retries) = DeadlockDetector::retry_timed(&cfg, failing, |_| {}, clock);
    assert_eq!(retries, 3);
    assert_eq!(
        r.unwrap_err(),
        DeadlockError::Timeout { resource: "unknown".to_string(), waited_ms: 12 }
    );
}

#[test]
fn pauses_double_between_retries() {
    let cfg = RetryConfig { max_retries: 3, backoff_ms: 50, timeout_ms: 5_000 };
    let pauses = std::cell::RefCell::new(Vec::new());
    let failing = || Err::<u8, _>(DeadlockError::Deadlock { resources: vec!["a".to_string()] });
    let (r, retries) =
        DeadlockDetector::retry_timed(&cfg, failing, |ms| pauses.borrow_mut().push(ms), || 0);
    assert!(matches!(r, Err(DeadlockError::Deadlock { .. })));
    assert_eq!(retries, 3);
    assert_eq!(*pauses.borrow(), vec![50, 100, 200]);
}

#[test]
fn a_release_lowers_the_active_locks_by_one() {
    let mut d = DeadlockDetector::new();
    d.acquire_lock("a", "h1").unwrap();
    d.acquire_lock("b", "h2").unwrap();
    assert_eq!(d.stats().active_locks, 2);
    d.release_lock("a", "h2");
    assert_eq!(d.stats().active_locks, 2);
    d.release_lock("a", "h1");
    assert_eq!(d.stats().active_locks, 1);
    assert!(d.acquire_lock("a", "h3").is_ok());
    assert_eq!(d.stats().deadlocks_detected, 0);
}
