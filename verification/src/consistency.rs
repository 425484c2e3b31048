//! Data consistency verification: what the results of the checking queries
//! mean, and the report over them.

use crate::clock::Timestamp;
use crate::text;
use vstd::prelude::*;
use vstd::string::*;

verus! {

/// How severe a detected consistency issue is.
#[derive(Debug, Clone, Copy, PartialEq, Eq, Structural)]
pub enum IssueSeverity {
    /// A minor anomaly that does not affect correctness but should be
    /// investigated.
    Warning,
    /// A data integrity problem that may cause incorrect behaviour.
    Error,
    /// A serious problem that could lead to data loss or corruption.
    Critical,
}

/// A single consistency problem discovered during a check.
#[derive(Debug)]
pub struct ConsistencyIssue {
    /// Short name identifying the check that produced this issue.
    pub check_name: String,
    /// Severity classification.
    pub severity: IssueSeverity,
    /// Human-readable description of the problem.
    pub description: String,
    /// Number of database rows affected by this issue.
    pub affected_rows: u64,
}

/// What an issue says.
pub struct IssueText {
    pub check_name: Seq<char>,
    pub severity: IssueSeverity,
    pub description: Seq<char>,
    pub affected_rows: u64,
}

impl View for ConsistencyIssue {
    type V = IssueText;

    open spec fn view(&self) -> IssueText {
        IssueText {
            check_name: self.check_name@,
            severity: self.severity,
            description: self.description@,
            affected_rows: self.affected_rows,
        }
    }
}

/// What a list of issues says.
pub open spec fn issue_texts(v: Seq<ConsistencyIssue>) -> Seq<IssueText> {
    Seq::new(v.len(), |i: int| v[i]@)
}

/// Aggregated result of running all consistency checks.
pub struct ConsistencyReport {
    /// When the checks were performed.
    pub checked_at: Timestamp,
    /// All issues found across every check (empty if all checks passed).
    pub issues: Vec<ConsistencyIssue>,
    /// Total number of distinct checks that were executed.
    pub total_checks: u32,
    /// Number of checks that found no issues.
    pub passed_checks: u32,
    /// Number of checks that produced at least one issue.
    pub failed_checks: u32,
}

/// What the checking queries returned.
pub struct QueryResults {
    /// One text per foreign-key violation, or why they could not be had.
    pub foreign_key_violations: Result<Vec<String>, String>,
    /// Reminders that would fire at the moment of expiry.
    pub zero_hour_reminders: u64,
    /// Reminders for vaults without a subscription.
    pub orphaned_reminders: u64,
    /// Vaults of tenants that do not exist.
    pub orphaned_tenant_vaults: u64,
}

/// The issue that a row in violation of a foreign key amounts to.
pub open spec fn violation_issue(violation: Seq<char>) -> IssueText {
    IssueText {
        check_name: "foreign_key_check"@,
        severity: IssueSeverity::Critical,
        description: "PRAGMA foreign_key_check returned 1 violation(s): "@ + violation,
        affected_rows: 1,
    }
}

/// What foreign-key violations amount to: a critical issue for each of them, or
/// an error when they could not be had.
pub open spec fn foreign_key_issues(r: Result<Vec<String>, String>) -> Seq<IssueText> {
    match r {
        Ok(v) => Seq::new(v@.len(), |i: int| violation_issue(v@[i]@)),
        Err(e) => seq![
            IssueText {
                check_name: "foreign_key_check"@,
                severity: IssueSeverity::Error,
                description: "Failed to execute PRAGMA foreign_key_check: "@ + e@,
                affected_rows: 0,
            },
        ],
    }
}

/// An issue about `rows` rows, or none where there are none.
pub open spec fn row_issue(
    check_name: Seq<char>,
    severity: IssueSeverity,
    rows: u64,
    what: Seq<char>,
) -> Seq<IssueText> {
    if rows > 0 {
        seq![
            IssueText {
                check_name,
                severity,
                description: text::decimal(rows as nat) + what,
                affected_rows: rows,
            },
        ]
    } else {
        seq![]
    }
}

/// What inconsistent reminders amount to.
pub open spec fn reminder_issues(zero_hours: u64, orphans: u64) -> Seq<IssueText> {
    row_issue(
        "reminder_hours_before_expiry"@,
        IssueSeverity::Warning,
        zero_hours,
        " reminder_preferences row(s) have hours_before_expiry = 0"@,
    ) + row_issue(
        "reminder_orphaned_vault_ids"@,
        IssueSeverity::Warning,
        orphans,
        " reminder_preferences row(s) reference a vault_id with no subscription"@,
    )
}

/// What vaults of missing tenants amount to.
pub open spec fn derived_field_issues(orphans: u64) -> Seq<IssueText> {
    row_issue(
        "tenant_vaults_orphaned_tenant_id"@,
        IssueSeverity::Error,
        orphans,
        " tenant_vaults row(s) reference a tenant_id that does not exist in the tenants table"@,
    )
}

/// One where there are issues, zero where there are none.
pub open spec fn failed(issues: Seq<IssueText>) -> int {
    if issues.len() > 0 {
        1
    } else {
        0
    }
}

/// Judges the results of consistency queries.
pub struct ConsistencyChecker;

impl ConsistencyChecker {
    /// Create a new `ConsistencyChecker`.
    pub fn new() -> Self {
        ConsistencyChecker
    }

    /// What foreign-key violations amount to.
    pub fn check_foreign_keys(result: &Result<Vec<String>, String>) -> (r: Vec<ConsistencyIssue>)
        ensures
            issue_texts(r@) == foreign_key_issues(*result),
    {
        let mut out: Vec<ConsistencyIssue> = Vec::new();
        match result {
            Ok(violations) => {
                let mut i: usize = 0;
                while i < violations.len()
                    invariant
                        i <= violations@.len(),
                        out@.len() == i,
                        forall|j: int|
                            0 <= j < i ==> (#[trigger] out@[j])@ == violation_issue(
                                violations@[j]@,
                            ),
                    decreases violations@.len() - i,
                {
                    out.push(
                        ConsistencyIssue {
                            check_name: "foreign_key_check".to_owned(),
                            severity: IssueSeverity::Critical,
                            description: text::joined(
                                "PRAGMA foreign_key_check returned 1 violation(s): ",
                                violations[i].as_str(),
                            ),
                            affected_rows: 1,
                        },
                    );
                    i += 1;
                }
            },
            Err(e) => {
                out.push(
                    ConsistencyIssue {
                        check_name: "foreign_key_check".to_owned(),
                        severity: IssueSeverity::Error,
                        description: text::joined(
                            "Failed to execute PRAGMA foreign_key_check: ",
                            e.as_str(),
                        ),
                        affected_rows: 0,
                    },
                );
            },
        }
        assert(issue_texts(out@) =~= foreign_key_issues(*result));
        out
    }

    /// What inconsistent reminders amount to: those that would fire at the
    /// moment of expiry, and those for vaults without a subscription.
    pub fn check_reminder_consistency(zero_hours_count: u64, orphan_count: u64) -> (r: Vec<
        ConsistencyIssue,
    >)
        ensures
            issue_texts(r@) == reminder_issues(zero_hours_count, orphan_count),
    {
        let mut issues: Vec<ConsistencyIssue> = Vec::new();
        proof {
            reveal_strlit("");
            assert(""@ =~= Seq::<char>::empty());
        }
        if zero_hours_count > 0 {
            let issue = ConsistencyIssue {
                check_name: "reminder_hours_before_expiry".to_owned(),
                severity: IssueSeverity::Warning,
                description: text::numbered(
                    "",
                    zero_hours_count,
                    " reminder_preferences row(s) have hours_before_expiry = 0",
                ),
                affected_rows: zero_hours_count,
            };
            assert(issue@.description =~= text::decimal(zero_hours_count as nat)
                + " reminder_preferences row(s) have hours_before_expiry = 0"@);
            issues.push(issue);
        }
        if orphan_count > 0 {
            let issue = ConsistencyIssue {
                check_name: "reminder_orphaned_vault_ids".to_owned(),
                severity: IssueSeverity::Warning,
                description: text::numbered(
                    "",
                    orphan_count,
                    " reminder_preferences row(s) reference a vault_id with no subscription",
                ),
                affected_rows: orphan_count,
            };
            assert(issue@.description =~= text::decimal(orphan_count as nat)
                + " reminder_preferences row(s) reference a vault_id with no subscription"@);
            issues.push(issue);
        }
        assert(issue_texts(issues@) =~= reminder_issues(zero_hours_count, orphan_count));
        issues
    }

    /// What vaults of missing tenants amount to.
    pub fn check_derived_fields(orphan_count: u64) -> (r: Vec<ConsistencyIssue>)
        ensures
            issue_texts(r@) == derived_field_issues(orphan_count),
    {
        let mut issues: Vec<ConsistencyIssue> = Vec::new();
        proof {
            reveal_strlit("");
            assert(""@ =~= Seq::<char>::empty());
        }
        if orphan_count > 0 {
            let issue = ConsistencyIssue {
                check_name: "tenant_vaults_orphaned_tenant_id".to_owned(),
                severity: IssueSeverity::Error,
                description: text::numbered(
                    "",
                    orphan_count,
                    " tenant_vaults row(s) reference a tenant_id that does not exist in the tenants table",
                ),
                affected_rows: orphan_count,
            };
            assert(issue@.description =~= text::decimal(orphan_count as nat)
                + " tenant_vaults row(s) reference a tenant_id that does not exist in the tenants table"@);
            issues.push(issue);
        }
        assert(issue_texts(issues@) =~= derived_field_issues(orphan_count));
        issues
    }

    /// Judge every query result and return a `ConsistencyReport`.
    pub fn run_all_checks(results: &QueryResults, now: Timestamp) -> (r: ConsistencyReport)
        ensures
            r.checked_at == now,
            r.total_checks == 3,
            issue_texts(r.issues@) == foreign_key_issues(results.foreign_key_violations)
                + reminder_issues(results.zero_hour_reminders, results.orphaned_reminders)
                + derived_field_issues(results.orphaned_tenant_vaults),
            r.failed_checks == failed(foreign_key_issues(results.foreign_key_violations)) + failed(
                reminder_issues(results.zero_hour_reminders, results.orphaned_reminders),
            ) + failed(derived_field_issues(results.orphaned_tenant_vaults)),
            r.passed_checks == r.total_checks - r.failed_checks,
    {
        let mut a = Self::check_foreign_keys(&results.foreign_key_violations);
        let mut b = Self::check_reminder_consistency(
            results.zero_hour_reminders,
            results.orphaned_reminders,
        );
        let mut c = Self::check_derived_fields(results.orphaned_tenant_vaults);
        let ghost all = issue_texts(a@) + issue_texts(b@) + issue_texts(c@);
        let mut failed_checks: u32 = 0;
        if a.len() > 0 {
            failed_checks += 1;
        }
        if b.len() > 0 {
            failed_checks += 1;
        }
        if c.len() > 0 {
            failed_checks += 1;
        }
        let mut issues: Vec<ConsistencyIssue> = Vec::new();
        issues.append(&mut a);
        issues.append(&mut b);
        issues.append(&mut c);
        assert(issue_texts(issues@) =~= all);
        ConsistencyReport {
            checked_at: now,
            issues,
            total_checks: 3,
            passed_checks: 3 - failed_checks,
            failed_checks,
        }
    }
}

impl Default for ConsistencyChecker {
    fn default() -> Self {
        ConsistencyChecker
    }
}

/// Every row in violation of a foreign key is an issue of its own.
pub proof fn law_every_violation_is_an_issue(violations: Vec<String>, i: int)
    requires
        0 <= i < violations@.len(),
    ensures
        foreign_key_issues(Ok(violations)).len() == violations@.len(),
        foreign_key_issues(Ok(violations))[i] == violation_issue(violations@[i]@),
{
}

/// A database in which the queries find nothing passes every check without an
/// issue, and one with issues fails at least one check.
pub proof fn law_report_is_clean_iff_nothing_found(q: QueryResults)
    ensures
        ({
            let issues = foreign_key_issues(q.foreign_key_violations) + reminder_issues(
                q.zero_hour_reminders,
                q.orphaned_reminders,
            ) + derived_field_issues(q.orphaned_tenant_vaults);
            issues.len() == 0 <==> q.foreign_key_violations is Ok
                && q.foreign_key_violations->Ok_0@.len() == 0 && q.zero_hour_reminders == 0
                && q.orphaned_reminders == 0 && q.orphaned_tenant_vaults == 0
        }),
{
}

/// How grave each finding is and how many rows it is about: a row in violation of
/// a foreign key is critical, a check that could not be run or a vault of an unknown
/// tenant an error, and a reminder without hours or without a subscription a warning.
pub proof fn law_findings_have_their_gravity(violation: String, e: String, n: u64)
    requires
        n > 0,
    ensures
        violation_issue(violation@).severity == IssueSeverity::Critical,
        violation_issue(violation@).affected_rows == 1,
        foreign_key_issues(Err(e)).len() == 1,
        foreign_key_issues(Err(e))[0].severity == IssueSeverity::Error,
        foreign_key_issues(Err(e))[0].affected_rows == 0,
        reminder_issues(n, 0).len() == 1,
        reminder_issues(n, 0)[0].check_name == "reminder_hours_before_expiry"@,
        reminder_issues(n, 0)[0].severity == IssueSeverity::Warning,
        reminder_issues(n, 0)[0].affected_rows == n,
        reminder_issues(0, n).len() == 1,
        reminder_issues(0, n)[0].check_name == "reminder_orphaned_vault_ids"@,
        reminder_issues(0, n)[0].severity == IssueSeverity::Warning,
        reminder_issues(0, n)[0].affected_rows == n,
        reminder_issues(n, n).len() == 2,
        derived_field_issues(n).len() == 1,
        derived_field_issues(n)[0].check_name == "tenant_vaults_orphaned_tenant_id"@,
        derived_field_issues(n)[0].severity == IssueSeverity::Error,
        derived_field_issues(n)[0].affected_rows == n,
        derived_field_issues(0).len() == 0,
        reminder_issues(0, 0).len() == 0,
{
}

/// A check fails once however many findings it has, and passes without any.
pub proof fn law_check_fails_once(issues: Seq<IssueText>)
    ensures
        issues.len() == 0 ==> failed(issues) == 0,
        issues.len() > 0 ==> failed(issues) == 1,
{
}

} // verus!
