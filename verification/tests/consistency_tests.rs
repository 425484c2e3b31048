use heirloom_backend::clock::Timestamp;
use heirloom_backend::consistency::{ConsistencyChecker, IssueSeverity, QueryResults};

fn results(fk: Result<Vec<String>, String>, zero: u64, orphans: u64, tenants: u64) -> QueryResults {
    QueryResults {
        foreign_key_violations: fk,
        zero_hour_reminders: zero,
        orphaned_reminders: orphans,
        orphaned_tenant_vaults: tenants,
    }
}

#[test]
fn a_clean_database_passes_every_check() {
    let now = Timestamp { secs: 1, nanos: 0 };
    let r = ConsistencyChecker::run_all_checks(&results(Ok(vec![]), 0, 0, 0), now);
    assert!(r.issues.is_empty());
    assert_eq!(r.failed_checks, 0);
    assert_eq!(r.passed_checks, r.total_checks);
    assert_eq!(r.checked_at, now);
}

#[test]
fn every_violation_is_reported() {
    let now = Timestamp { secs: 1, nanos: 0 };
    let r = ConsistencyChecker::run_all_checks(&results(Ok(vec!["vaults".to_string()]), 2, 3, 4), now);
    assert!(r.issues.len() >= 4);
    assert_eq!(r.passed_checks + r.failed_checks, r.total_checks);
    assert!(r.issues.iter().any(|i| i.affected_rows == 3));
    assert!(r.issues.iter().any(|i| i.severity != IssueSeverity::Warning));
}

#[test]
fn a_failed_query_is_an_issue() {
    let issues = ConsistencyChecker::check_foreign_keys(&Err("locked".to_string()));
    assert_eq!(issues.len(), 1);
    assert!(issues[0].description.contains("locked"));
}

#[test]
fn every_violating_row_is_an_issue_of_its_own() {
    let rows = vec!["table=a rowid=1".to_string(), "table=b rowid=2".to_string()];
    let issues = ConsistencyChecker::check_foreign_keys(&Ok(rows));
    assert_eq!(issues.len(), 2);
    assert_eq!(
        issues[1].description,
        "PRAGMA foreign_key_check returned 1 violation(s): table=b rowid=2"
    );
    assert_eq!(issues[0].affected_rows, 1);
}
