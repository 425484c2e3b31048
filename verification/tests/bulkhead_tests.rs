use heirloom_backend::bulkhead::{Admission, Bulkhead, BulkheadConfig, BulkheadRegistry};

#[test]
fn acquire_respects_concurrency_limit() {
    let mut registry = BulkheadRegistry::new(BulkheadConfig {
        max_concurrent: 1,
        max_queue_size: 5,
    });

    let permit1 = registry.acquire("/api/slow").unwrap();
    let snapshot = registry.metrics_snapshot();
    let slow = snapshot.iter().find(|s| s.endpoint == "/api/slow").unwrap();
    assert_eq!(slow.active, 1);
    assert!(!permit1.waiting);
}

#[test]
fn queue_overflow_is_rejected() {
    let mut registry = BulkheadRegistry::new(BulkheadConfig {
        max_concurrent: 1,
        max_queue_size: 0,
    });

    let _permit = registry.acquire("/api/slow").unwrap();
    // A second request has nowhere to queue and should be rejected.
    let result = registry.acquire("/api/slow");
    assert!(result.is_err());
}

#[test]
fn isolated_endpoints_do_not_share_capacity() {
    let mut registry = BulkheadRegistry::new(BulkheadConfig {
        max_concurrent: 1,
        max_queue_size: 0,
    });

    let _slow_permit = registry.acquire("/api/slow").unwrap();
    // A saturated /api/slow bulkhead must not affect /api/fast.
    let fast_permit = registry.acquire("/api/fast");
    assert!(fast_permit.is_ok());
}

#[test]
fn a_waiting_request_takes_the_place_that_is_freed() {
    let mut b = Bulkhead::new(BulkheadConfig { max_concurrent: 1, max_queue_size: 1 });
    assert_eq!(b.enter(), Admission::Admitted);
    assert_eq!(b.enter(), Admission::Queued);
    assert_eq!(b.enter(), Admission::Rejected);
    assert!(b.leave());
    assert_eq!(b.active, 1);
    assert_eq!(b.queued, 0);
    assert_eq!(b.rejected, 1);
    assert_eq!(b.completed, 1);
    assert!(!b.leave());
    assert_eq!(b.active, 0);
}

#[test]
fn a_full_queue_names_its_endpoint() {
    let mut registry =
        BulkheadRegistry::new(BulkheadConfig { max_concurrent: 1, max_queue_size: 0 });
    let first = registry.acquire("/api/slow").unwrap();
    let err = registry.acquire("/api/slow").unwrap_err();
    assert_eq!(err.endpoint, BulkheadRegistry::key_for_path("/api/slow"));
    assert!(err.to_string().contains(&err.endpoint));
    assert!(!registry.release(&first.endpoint));
    let again = registry.acquire("/api/slow");
    assert!(again.is_ok());
}
