use heirloom_backend::clock::Timestamp;
use heirloom_backend::json::Json;
use heirloom_backend::models::{AuditLogEntry, Channel, Frequency};
use heirloom_backend::records::{
    audit_cutoff, BadColumn, EncryptionKeyStatus, FeatureFlag, UpsertFlagRequest,
};
use heirloom_backend::rows::{
    audit_entry_from_row, audit_entry_row, deletion_log_from_row, flag_from_row, flag_row,
    idempotency_row, key_version_from_row, last_active_from_row, live_answer, presence_from_row,
    presence_row, reminder_from_row, retention_exception_from_row, retention_exception_row,
    retention_policy_from_row, retention_policy_row, rotation_log_from_row, rotation_log_row,
    rotation_policy_from_row, rotation_policy_row, snapshot_from_row, superseded,
    tenant_from_row, tenant_row, two_factor_from_row, two_factor_row, DataRetentionPolicy,
    DeletionLogRow, FlagRow, IdempotencyRecord, KeyVersionRow, ReminderRow, RetentionException,
    SecretRotationLog, SecretRotationPolicy, Tenant, TenantRow, TwoFactorConfig, UserPresence,
};

const T1: Timestamp = Timestamp { secs: 86_400, nanos: 0 };
const T2: Timestamp = Timestamp { secs: 1_700_000_000, nanos: 500_000_000 };

fn text(s: &str) -> String {
    s.to_string()
}

fn flag() -> FeatureFlag {
    FeatureFlag {
        key: text("k"),
        description: Some(text("d")),
        enabled: true,
        rollout_percentage: 25,
        version: 3,
        created_at: T1,
        updated_at: T2,
    }
}

#[test]
fn a_flag_is_read_back() {
    let row = flag_row(&flag());
    assert_eq!(row.enabled, 1);
    assert_eq!(row.created_at, "1970-01-02T00:00:00+00:00");
    match flag_from_row(row) {
        Ok(f) => {
            assert_eq!(f.key, "k");
            assert_eq!(f.description, Some(text("d")));
            assert!(f.enabled);
            assert_eq!(f.rollout_percentage, 25);
            assert_eq!(f.version, 3);
            assert_eq!(f.created_at, T1);
            assert_eq!(f.updated_at, T2);
        }
        Err(_) => panic!("expected a flag"),
    }
}

#[test]
fn a_flag_with_a_bad_moment_names_the_column() {
    let row = |created: &str, updated: &str| FlagRow {
        key: text("k"),
        description: None,
        enabled: 0,
        rollout_percentage: 300,
        version: 1,
        created_at: text(created),
        updated_at: text(updated),
    };
    let good = "2024-01-01T00:00:00Z";
    assert!(matches!(flag_from_row(row("x", "y")), Err(BadColumn { column: 5 })));
    assert!(matches!(flag_from_row(row(good, "y")), Err(BadColumn { column: 6 })));
    match flag_from_row(row(good, good)) {
        Ok(f) => {
            assert!(!f.enabled);
            assert_eq!(f.rollout_percentage, 44);
        }
        Err(_) => panic!("expected a flag"),
    }
}

#[test]
fn a_replaced_flag_leaves_a_snapshot() {
    let req = UpsertFlagRequest {
        key: text("k"),
        description: None,
        enabled: false,
        rollout_percentage: 0,
        updated_by: Some(text("ann")),
    };
    match snapshot_from_row(superseded(&flag(), &req)) {
        Ok(s) => {
            assert_eq!(s.version, 3);
            assert!(s.enabled);
            assert_eq!(s.rollout_percentage, 25);
            assert_eq!(s.updated_at, T2);
            assert_eq!(s.updated_by, Some(text("ann")));
        }
        Err(_) => panic!("expected a snapshot"),
    }
}

#[test]
fn an_audit_entry_is_read_back() {
    let entry = AuditLogEntry {
        id: 7,
        timestamp: T2,
        user_id: text("u"),
        action: text("a"),
        resource: text("r"),
        result: text("ok"),
        ip_address: text("::1"),
        details: Some(Json::text("x")),
    };
    let mut row = audit_entry_row(&entry);
    row.timestamp = text("not a moment");
    assert!(matches!(audit_entry_from_row(row, None), Err(BadColumn { column: 1 })));
    match audit_entry_from_row(audit_entry_row(&entry), entry.details.clone()) {
        Ok(e) => {
            assert_eq!(e.id, 7);
            assert_eq!(e.timestamp, T2);
            assert_eq!(e.ip_address, "::1");
            assert_eq!(e.details, Some(Json::text("x")));
        }
        Err(_) => panic!("expected an entry"),
    }
}

#[test]
fn an_answer_is_kept_for_a_day() {
    let record = IdempotencyRecord {
        key: text("k"),
        status_code: 201,
        response_body: text("{}"),
        created_at: T1,
    };
    let later = |secs: i64| Timestamp { secs: T1.secs + secs, nanos: 0 };
    let found = live_answer(idempotency_row(&record), &later(86_400)).unwrap();
    assert_eq!(found.status_code, 201);
    assert_eq!(found.created_at, T1);
    assert!(live_answer(idempotency_row(&record), &later(86_401)).is_none());
    let mut bad = idempotency_row(&record);
    bad.created_at = text("?");
    assert!(live_answer(bad, &later(0)).is_none());
}

#[test]
fn a_second_factor_may_have_a_malformed_verification() {
    let config = TwoFactorConfig {
        vault_id: text("v"),
        method: text("\"totp\""),
        enabled: true,
        secret: Some(text("s")),
        phone: None,
        email: None,
        created_at: T1,
        verified_at: Some(T2),
    };
    let mut row = two_factor_row(&config);
    row.verified_at = Some(text("?"));
    let lenient = two_factor_from_row(row).ok().unwrap();
    assert_eq!(lenient.verified_at, None);
    assert_eq!(lenient.created_at, T1);
    let mut row = two_factor_row(&config);
    row.created_at = text("?");
    assert!(matches!(two_factor_from_row(row), Err(BadColumn { column: 6 })));
    let whole = two_factor_from_row(two_factor_row(&config)).ok().unwrap();
    assert_eq!(whole.verified_at, Some(T2));
    assert_eq!(whole.method, "\"totp\"");
}

#[test]
fn a_tenant_is_read_back() {
    let tenant = Tenant {
        id: text("t"),
        name: text("n"),
        owner: text("o"),
        created_at: T1,
        updated_at: T2,
        is_active: false,
    };
    let back = tenant_from_row(tenant_row(&tenant)).ok().unwrap();
    assert_eq!(back.updated_at, T2);
    assert!(!back.is_active);
    let bad = |created: &str| TenantRow {
        id: text("t"),
        name: text("n"),
        owner: text("o"),
        created_at: text(created),
        updated_at: text("?"),
        is_active: 1,
    };
    assert!(matches!(tenant_from_row(bad("?")), Err(BadColumn { column: 3 })));
    assert!(matches!(
        tenant_from_row(bad("2024-01-01T00:00:00Z")),
        Err(BadColumn { column: 4 })
    ));
}

#[test]
fn a_presence_is_read_back() {
    let p = UserPresence {
        user_id: text("u"),
        vault_id: text("v"),
        status: text("online"),
        last_seen: T2,
        session_id: text("s"),
    };
    assert_eq!(presence_from_row(presence_row(&p)).ok().unwrap().last_seen, T2);
    let mut row = presence_row(&p);
    row.last_seen = text("");
    assert!(matches!(presence_from_row(row), Err(BadColumn { column: 3 })));
}

#[test]
fn retention_rows_are_read_back() {
    let policy = DataRetentionPolicy {
        data_type: text("audit"),
        retention_days: 30,
        enabled: true,
        description: None,
        created_at: T1,
        updated_at: T2,
    };
    let back = retention_policy_from_row(retention_policy_row(&policy)).ok().unwrap();
    assert_eq!(back.retention_days, 30);
    assert!(back.enabled);
    let mut row = retention_policy_row(&policy);
    row.updated_at = text("?");
    assert!(matches!(retention_policy_from_row(row), Err(BadColumn { column: 5 })));

    let exception = RetentionException {
        id: 1,
        data_type: text("audit"),
        record_id: text("r"),
        reason: text("hold"),
        expires_at: None,
        created_at: T1,
        created_by: text("ann"),
    };
    let mut row = retention_exception_row(&exception);
    row.expires_at = Some(text("?"));
    assert_eq!(retention_exception_from_row(row).ok().unwrap().expires_at, None);

    let log = |at: &str| DeletionLogRow {
        id: 2,
        data_type: text("audit"),
        deleted_rows: 9,
        purged_at: text(at),
        actor: text("job"),
    };
    let read = deletion_log_from_row(log("1970-01-02T00:00:00+00:00"), None).ok().unwrap();
    assert_eq!(read.deleted_rows, 9);
    assert_eq!(read.purged_at, T1);
    assert!(matches!(deletion_log_from_row(log("?"), None), Err(BadColumn { column: 3 })));
}

#[test]
fn key_and_rotation_rows_are_read() {
    let row = KeyVersionRow {
        version: 4,
        status: text("retiring"),
        created_at: text("1970-01-02T00:00:00+00:00"),
        rotated_at: Some(text("?")),
    };
    let key = key_version_from_row(row).ok().unwrap();
    assert_eq!(key.version, 4);
    assert_eq!(key.status, EncryptionKeyStatus::Retiring);
    assert_eq!(key.created_at, T1);
    assert_eq!(key.rotated_at, None);

    let policy = SecretRotationPolicy {
        secret_type: text("\"jwt\""),
        rotation_interval_days: 90,
        grace_period_hours: 24,
        auto_rotate: true,
        notify_channels: text("[]"),
        created_at: T1,
        updated_at: T2,
    };
    let mut row = rotation_policy_row(&policy);
    row.created_at = text("?");
    assert!(matches!(rotation_policy_from_row(row), Err(BadColumn { column: 5 })));
    let back = rotation_policy_from_row(rotation_policy_row(&policy)).ok().unwrap();
    assert_eq!(back.rotation_interval_days, 90);

    let log = SecretRotationLog {
        id: 5,
        secret_type: text("\"jwt\""),
        rotated_at: T1,
        actor: text("job"),
        grace_period_active: true,
        grace_period_ends_at: Some(T2),
        notes: None,
    };
    let back = rotation_log_from_row(rotation_log_row(&log)).ok().unwrap();
    assert_eq!(back.grace_period_ends_at, Some(T2));
    assert!(back.grace_period_active);
    let mut row = rotation_log_row(&log);
    row.rotated_at = text("?");
    assert!(matches!(rotation_log_from_row(row), Err(BadColumn { column: 2 })));
}

#[test]
fn owner_activity_and_reminders_are_read() {
    assert_eq!(last_active_from_row("1970-01-02T00:00:00Z").ok(), Some(T1));
    assert!(matches!(last_active_from_row("yesterday"), Err(BadColumn { column: 0 })));
    let row = ReminderRow {
        vault_id: 3,
        hours_before_expiry: 48,
        deleted_at: Some(text("1970-01-02T00:00:00Z")),
    };
    let prefs = reminder_from_row(row, vec![Channel::Email], Frequency::Daily);
    assert_eq!(prefs.vault_id, 3);
    assert_eq!(prefs.hours_before_expiry, 48);
    assert_eq!(prefs.deleted_at, Some(T1));
}

#[test]
fn a_cutoff_lies_whole_days_back() {
    let now = Timestamp { secs: 1_000_000, nanos: 7 };
    assert_eq!(audit_cutoff(now, 2), Timestamp { secs: 827_200, nanos: 7 });
    assert_eq!(audit_cutoff(now, -1), Timestamp { secs: 1_086_400, nanos: 7 });
}
