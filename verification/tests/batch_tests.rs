use heirloom_backend::batch::{
    check_item, record_preference, BatchItemOutcome, BatchPreferenceItem, BatchTracker,
};
use heirloom_backend::models::{Channel, Frequency};

fn item(vault_id: u64, channels: Vec<Channel>, hours: u32) -> BatchPreferenceItem {
    BatchPreferenceItem { vault_id, channels, hours_before_expiry: hours, frequency: Frequency::Daily }
}

#[test]
fn a_batch_counts_its_items() {
    let mut tracker: BatchTracker<u8> = BatchTracker::default();
    tracker.record_success("a".to_string(), 1);
    tracker.record_failure("b".to_string(), "bad".to_string(), false);
    tracker.record_failure("c".to_string(), "busy".to_string(), true);
    let r = tracker.finish();
    assert_eq!((r.total, r.succeeded, r.failed), (3, 1, 2));
    assert_eq!((r.success_rate.num, r.success_rate.den), (1, 3));
    assert!(matches!(r.items[2].outcome, BatchItemOutcome::Failure { retryable: true, .. }));
    assert!(!r.retry_guidance.is_empty());
}

#[test]
fn preferences_are_checked_before_they_are_stored() {
    assert!(check_item(item(1, vec![], 24)).is_err());
    assert!(check_item(item(1, vec![Channel::Email], 0)).is_err());
    let good = check_item(item(1, vec![Channel::Email], 24));
    assert!(good.is_ok());
    let mut tracker = BatchTracker::new();
    record_preference(&mut tracker, 1, good, Ok(()));
    record_preference(&mut tracker, 2, check_item(item(2, vec![], 24)), Ok(()));
    record_preference(&mut tracker, 3, check_item(item(3, vec![Channel::Email], 24)), Err("db".to_string()));
    let r = tracker.finish();
    assert_eq!(r.succeeded, 1);
    assert!(matches!(r.items[1].outcome, BatchItemOutcome::Failure { retryable: false, .. }));
    assert!(matches!(r.items[2].outcome, BatchItemOutcome::Failure { retryable: true, .. }));
}
