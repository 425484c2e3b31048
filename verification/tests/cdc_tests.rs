use std::sync::atomic::{AtomicU64, Ordering};
use std::sync::Arc;

use heirloom_backend::cdc::{
    transform_event, CdcBus, CdcCapture, CdcEvent, CdcEventStore, CdcProjection, ChangeOperation,
    DomainEvent,
};
use heirloom_backend::clock::Timestamp;
use heirloom_backend::json::Json;

type Callback = Box<dyn Fn(&CdcEvent)>;

fn make_store() -> CdcEventStore {
    CdcEventStore::new(1000)
}

fn make_bus() -> CdcBus<Callback> {
    CdcBus::new()
}

fn insert_event(store: &mut CdcEventStore, table: &str, op: ChangeOperation, after: Json) {
    store.append(CdcEvent {
        seq: 0,
        timestamp: Timestamp::now().to_rfc3339(),
        table: table.to_string(),
        operation: op,
        before: None,
        after: Some(after),
        tx_id: None,
    });
}

// ── CdcEventStore ─────────────────────────────────────────────────────────

#[test]
fn test_store_appends_and_assigns_seq() {
    let mut store = make_store();
    insert_event(&mut store, "vaults", ChangeOperation::Insert, Json::object().with("id", Json::text("v1")));
    insert_event(&mut store, "vaults", ChangeOperation::Update, Json::object().with("id", Json::text("v1")));

    let snap = store.snapshot();
    assert_eq!(snap.len(), 2);
    assert_eq!(snap[0].seq, 0);
    assert_eq!(snap[1].seq, 1);
}

#[test]
fn test_store_ring_buffer_evicts_oldest() {
    let mut store = CdcEventStore::new(3);
    for i in 0..5u64 {
        insert_event(&mut store, "t", ChangeOperation::Insert, Json::object().with("i", Json::Int(i as i128)));
    }
    assert_eq!(store.len(), 3);
}

#[test]
fn test_replay_from_seq() {
    let mut store = make_store();
    for i in 0..5u64 {
        insert_event(&mut store, "t", ChangeOperation::Insert, Json::object().with("i", Json::Int(i as i128)));
    }

    let seen: Vec<u64> = store.replay(3).iter().map(|e| e.seq).collect();
    assert_eq!(seen, vec![3, 4]);
}

#[test]
fn test_events_for_table_filters() {
    let mut store = make_store();
    insert_event(&mut store, "vaults", ChangeOperation::Insert, Json::object());
    insert_event(&mut store, "audit_logs", ChangeOperation::Insert, Json::object());
    insert_event(&mut store, "vaults", ChangeOperation::Update, Json::object());

    let vault_events = store.events_for_table("vaults");
    assert_eq!(vault_events.len(), 2);
}

#[test]
fn test_range_returns_correct_slice() {
    let mut store = make_store();
    for _ in 0..10u64 {
        insert_event(&mut store, "t", ChangeOperation::Insert, Json::object());
    }

    let r = store.range(3, 6);
    assert_eq!(r.len(), 3);
    assert_eq!(r[0].seq, 3);
    assert_eq!(r[2].seq, 5);
}

#[test]
fn test_consistency_check_no_gaps() {
    let mut store = make_store();
    for _ in 0..5u64 {
        insert_event(&mut store, "t", ChangeOperation::Insert, Json::object());
    }
    assert!(store.check_consistency().is_empty());
}

#[test]
fn test_consistency_check_empty_store() {
    let mut store = make_store();
    assert!(store.check_consistency().is_empty());
}

// ── transform_event ───────────────────────────────────────────────────────

#[test]
fn test_transform_vault_insert() {
    let event = CdcEvent {
        seq: 0,
        timestamp: "2026-01-01T00:00:00Z".to_string(),
        table: "vaults".to_string(),
        operation: ChangeOperation::Insert,
        before: None,
        after: Some(Json::object().with("id", Json::text("v42"))),
        tx_id: None,
    };
    let domain = transform_event(&event);
    assert_eq!(domain, DomainEvent::VaultCreated { vault_id: "v42".to_string() });
}

#[test]
fn test_transform_vault_update() {
    let event = CdcEvent {
        seq: 1,
        timestamp: "2026-01-01T00:00:00Z".to_string(),
        table: "vaults".to_string(),
        operation: ChangeOperation::Update,
        before: Some(Json::object().with("id", Json::text("v42"))),
        after: Some(Json::object().with("id", Json::text("v42")).with("balance", Json::Int(200))),
        tx_id: None,
    };
    assert_eq!(transform_event(&event), DomainEvent::VaultUpdated { vault_id: "v42".to_string() });
}

#[test]
fn test_transform_vault_delete() {
    let event = CdcEvent {
        seq: 2,
        timestamp: "2026-01-01T00:00:00Z".to_string(),
        table: "vaults".to_string(),
        operation: ChangeOperation::Delete,
        before: Some(Json::object().with("id", Json::text("v42"))),
        after: None,
        tx_id: None,
    };
    assert_eq!(transform_event(&event), DomainEvent::VaultDeleted { vault_id: "v42".to_string() });
}

#[test]
fn test_transform_audit_log() {
    let event = CdcEvent {
        seq: 3,
        timestamp: "2026-01-01T00:00:00Z".to_string(),
        table: "audit_logs".to_string(),
        operation: ChangeOperation::Insert,
        before: None,
        after: Some(Json::object().with("resource", Json::text("/api/vaults/v1"))),
        tx_id: None,
    };
    assert_eq!(
        transform_event(&event),
        DomainEvent::AuditLogAppended { resource: "/api/vaults/v1".to_string() }
    );
}

#[test]
fn test_transform_subscription_changed() {
    let event = CdcEvent {
        seq: 4,
        timestamp: "2026-01-01T00:00:00Z".to_string(),
        table: "vault_subscriptions".to_string(),
        operation: ChangeOperation::Update,
        before: None,
        after: Some(Json::object().with("vault_id", Json::text("99"))),
        tx_id: None,
    };
    assert_eq!(
        transform_event(&event),
        DomainEvent::SubscriptionChanged { vault_id: "99".to_string() }
    );
}

#[test]
fn test_transform_generic_unknown_table() {
    let event = CdcEvent {
        seq: 5,
        timestamp: "2026-01-01T00:00:00Z".to_string(),
        table: "unknown_table".to_string(),
        operation: ChangeOperation::Delete,
        before: None,
        after: None,
        tx_id: None,
    };
    assert!(matches!(transform_event(&event), DomainEvent::GenericChange { .. }));
}

// ── CdcBus ────────────────────────────────────────────────────────────────

#[test]
fn test_bus_dispatches_to_subscriber() {
    let mut bus = make_bus();
    let count = Arc::new(AtomicU64::new(0));
    let c = Arc::clone(&count);

    bus.subscribe(Box::new(move |_| { c.fetch_add(1, Ordering::SeqCst); }));

    let mut store = make_store();
    let mut capture = CdcCapture::new(store, bus);
    capture.record("vaults", ChangeOperation::Insert, None, Some(Json::object().with("id", Json::text("v1"))), None);

    assert_eq!(count.load(Ordering::SeqCst), 1);
}

#[test]
fn test_bus_multiple_subscribers() {
    let mut bus = make_bus();
    let total = Arc::new(AtomicU64::new(0));

    for _ in 0..3 {
        let t = Arc::clone(&total);
        bus.subscribe(Box::new(move |_| { t.fetch_add(1, Ordering::SeqCst); }));
    }

    let mut store = make_store();
    let mut capture = CdcCapture::new(store, bus);
    capture.record("vaults", ChangeOperation::Insert, None, None, None);

    assert_eq!(total.load(Ordering::SeqCst), 3);
}

#[test]
fn test_bus_unsubscribe_stops_delivery() {
    let mut bus = make_bus();
    let count = Arc::new(AtomicU64::new(0));
    let c = Arc::clone(&count);

    let id = bus.subscribe(Box::new(move |_| { c.fetch_add(1, Ordering::SeqCst); }));
    bus.unsubscribe(id);

    bus.publish(CdcEvent {
        seq: 0,
        timestamp: "".to_string(),
        table: "t".to_string(),
        operation: ChangeOperation::Insert,
        before: None,
        after: None,
        tx_id: None,
    });

    assert_eq!(count.load(Ordering::SeqCst), 0);
}

#[test]
fn test_bus_subscriber_count() {
    let mut bus = make_bus();
    assert_eq!(bus.subscriber_count(), 0);
    let id = bus.subscribe(Box::new(|_| {}));
    assert_eq!(bus.subscriber_count(), 1);
    bus.unsubscribe(id);
    assert_eq!(bus.subscriber_count(), 0);
}

// ── CdcCapture ────────────────────────────────────────────────────────────

#[test]
fn test_capture_stores_event() {
    let mut store = make_store();
    let mut bus = make_bus();
    let mut capture = CdcCapture::new(store, bus);

    capture.record("vaults", ChangeOperation::Insert, None, Some(Json::object().with("id", Json::text("v1"))), Some("tx-001".to_string()));

    assert_eq!(capture.store.len(), 1);
    let events = capture.store.snapshot();
    assert_eq!(events[0].table, "vaults");
    assert_eq!(events[0].tx_id, Some("tx-001".to_string()));
}

// ── CdcProjection ─────────────────────────────────────────────────────────

#[test]
fn test_projection_rebuild_from_store() {
    let mut store = make_store();
    let mut bus = make_bus();
    let mut capture = CdcCapture::new(store, bus);

    capture.record("vaults", ChangeOperation::Insert, None, Some(Json::object().with("id", Json::text("v1"))), None);
    capture.record("vaults", ChangeOperation::Insert, None, Some(Json::object().with("id", Json::text("v2"))), None);
    capture.record("audit_logs", ChangeOperation::Insert, None, Some(Json::object().with("resource", Json::text("r"))), None);

    let proj = CdcProjection::build(&capture.store, 0);
    let created = proj.count_by_table(|e| matches!(e, DomainEvent::VaultCreated { .. }));
    let audit = proj.count_by_table(|e| matches!(e, DomainEvent::AuditLogAppended { .. }));

    assert_eq!(created, 2);
    assert_eq!(audit, 1);
}

#[test]
fn test_projection_partial_replay_from_seq() {
    let mut store = make_store();
    for i in 0..5u64 {
        insert_event(&mut store, "vaults", ChangeOperation::Insert, Json::object().with("id", Json::text(&format!("v{i}"))));
    }

    let proj = CdcProjection::build(&store, 3);
    assert_eq!(proj.events.len(), 2); // seq 3 and 4
}

#[test]
fn test_cdc_end_to_end_consistency() {
    let mut store = make_store();
    let mut bus = make_bus();
    let mut capture = CdcCapture::new(store, bus);

    // Simulate 10 vault insertions.
    for i in 0..10u64 {
        capture.record(
            "vaults",
            ChangeOperation::Insert,
            None,
            Some(Json::object().with("id", Json::text(&format!("v{i}")))),
            None,
        );
    }

    // Store should have 10 events with no gaps.
    assert_eq!(capture.store.len(), 10);
    let gaps = capture.store.check_consistency();
    assert!(gaps.is_empty(), "expected no gaps, found: {gaps:?}");
}

#[test]
fn a_full_store_keeps_counting() {
    let mut store = CdcEventStore::new(2);
    for i in 0..4u64 {
        insert_event(&mut store, "t", ChangeOperation::Insert, Json::object().with("i", Json::Int(i as i128)));
    }
    let seqs: Vec<u64> = store.snapshot().iter().map(|e| e.seq).collect();
    assert_eq!(seqs, vec![2, 3]);
    assert!(store.check_consistency().is_empty());
    assert!(!store.is_empty());
}

#[test]
fn a_change_carries_its_time() {
    let mut capture = CdcCapture::new(make_store(), make_bus());
    capture.record_at(
        "vaults",
        ChangeOperation::Update,
        None,
        None,
        Some("tx".to_string()),
        Timestamp { secs: 86_400, nanos: 0 },
    );
    let events = capture.store.replay(0);
    assert_eq!(events.len(), 1);
    assert_eq!(events[0].timestamp, "1970-01-02T00:00:00+00:00");
    assert_eq!(events[0].table, "vaults");
    assert_eq!(events[0].tx_id, Some("tx".to_string()));
}
