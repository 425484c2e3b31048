use heirloom_backend::clock::Timestamp;
use heirloom_backend::models::{Vault, VaultStatus};
use heirloom_backend::records::{
    audit_query, deletion_log_statement, idempotency_alive, pending_migrations, policy_from_row, policy_row,
    purge_statement, retention_cutoff, rotation_status, search_pattern, snippet, upserted_flag,
    vault_from_row, vault_row, violation_text, AuditLogQuery, EncryptionKeyStatus, Rotation, RotationPolicy, TtlInsurancePolicy, UpsertFlagRequest,
};

fn at(secs: i64) -> Timestamp {
    Timestamp { secs, nanos: 0 }
}

#[test]
fn a_vault_survives_its_row() {
    let v = Vault {
        id: "v1".to_string(),
        owner: "o".to_string(),
        beneficiary: "b".to_string(),
        balance: -170_141_183_460_469_231_731_687_303_715_884_105_728,
        check_in_interval: 86400,
        last_check_in: at(100),
        created_at: at(50),
        status: VaultStatus::Paused,
        ttl_remaining: Some(7),
    };
    let w = vault_from_row(vault_row(&v), at(0));
    assert_eq!(w.id, v.id);
    assert_eq!(w.balance, v.balance);
    assert_eq!(w.last_check_in, v.last_check_in);
    assert_eq!(w.status, v.status);
    assert_eq!(w.ttl_remaining, v.ttl_remaining);
}

#[test]
fn a_policy_survives_its_row() {
    let p = TtlInsurancePolicy {
        vault_id: 7,
        extension_seconds: 60,
        inactivity_threshold_seconds: 30,
        enabled: true,
        purchased_at: at(1_000),
        last_extended_at: Some(at(2_000)),
    };
    let q = policy_from_row(&policy_row(&p)).ok().unwrap();
    assert_eq!(q.vault_id, 7);
    assert_eq!(q.last_extended_at, Some(at(2_000)));
    let mut row = policy_row(&p);
    row.purchased_at = "yesterday".to_string();
    assert!(policy_from_row(&row).is_err());
}

#[test]
fn keys_and_flags_follow_the_clock() {
    assert!(idempotency_alive(&at(0), &at(10)));
    assert!(!idempotency_alive(&at(0), &at(10_000_000)));
    let req = UpsertFlagRequest {
        key: "beta".to_string(),
        description: None,
        enabled: true,
        rollout_percentage: 50,
        updated_by: None,
    };
    let first = upserted_flag(&None, &req, at(1));
    let second = upserted_flag(&Some(first), &req, at(2));
    assert_eq!(second.version, 2);
    assert_eq!(second.created_at, at(1));
    assert_eq!(second.updated_at, at(2));
}

#[test]
fn a_rotation_falls_due() {
    let policy = Some(RotationPolicy { rotation_interval_days: 1 });
    let last = Some(Rotation { rotated_at: at(0), grace_period_active: true, grace_period_ends_at: Some(at(100)) });
    let early = rotation_status(&policy, &last, at(50));
    assert!(!early.is_overdue);
    assert!(early.grace_period_active);
    assert_eq!(early.next_rotation_due, Some(at(86_400)));
    let late = rotation_status(&policy, &last, at(86_401));
    assert!(late.is_overdue);
    assert!(!late.grace_period_active);
}

#[test]
fn statements_hold_their_parameters() {
    let q = AuditLogQuery {
        user_id: Some("alice".to_string()),
        action: None,
        resource: None,
        result: None,
        after: None,
        before: None,
        limit: Some(5),
        offset: None,
    };
    let (sql, params) = audit_query(&q);
    assert!(sql.contains("user_id"));
    assert_eq!(sql.matches('?').count(), params.len());
    assert!(purge_statement("t", "id", "at").contains("t"));
}

#[test]
fn migrations_run_once() {
    let known = vec!["a".to_string(), "b".to_string(), "c".to_string()];
    assert_eq!(pending_migrations(&known, &vec!["b".to_string()]), vec![0, 2]);
    assert_eq!(snippet("short"), "short");
    assert!(snippet(&"x".repeat(500)).len() < 500);
}

#[test]
fn retention_statements_are_exact() {
    assert_eq!(retention_cutoff(at(864_000), 3), at(604_800));
    assert_eq!(
        deletion_log_statement(true, 5),
        "SELECT id, data_type, deleted_rows, purged_at, actor, details FROM retention_deletion_log WHERE data_type = ?1 ORDER BY purged_at DESC LIMIT 5"
    );
    assert!(!deletion_log_statement(false, 5).contains("WHERE"));
    assert_eq!(search_pattern("x"), "%x%");
    assert_eq!(violation_text("a", -1, "b", 2), "table=a rowid=-1 parent=b fkid=2");
}

#[test]
fn key_statuses_are_stored_by_name() {
    for s in [EncryptionKeyStatus::Active, EncryptionKeyStatus::Retiring, EncryptionKeyStatus::Retired] {
        assert_eq!(EncryptionKeyStatus::from_stored(s.to_stored()), s);
    }
    assert_eq!(EncryptionKeyStatus::from_stored("?"), EncryptionKeyStatus::Retired);
}
