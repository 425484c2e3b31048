//! The records that the parts of the backend exchange.

use crate::clock::Timestamp;
use crate::json::Json;
use crate::ratio::Ratio;
use vstd::prelude::*;

verus! {

/// An error that an API endpoint answers with.
#[derive(Debug)]
pub struct ApiError {
    /// HTTP status code.
    pub status: u16,
    /// Machine-readable code.
    pub code: String,
    /// Human-readable message.
    pub message: String,
}

impl ApiError {
    /// An error with the given status, code and message.
    pub fn new(status: u16, code: &str, message: &str) -> (r: Self)
        ensures
            r.status == status,
            r.code@ == code@,
            r.message@ == message@,
    {
        ApiError { status, code: code.to_owned(), message: message.to_owned() }
    }
}

/// One line of the audit log.
pub struct AuditLogEntry {
    pub id: i64,
    pub timestamp: Timestamp,
    pub user_id: String,
    pub action: String,
    pub resource: String,
    pub result: String,
    pub ip_address: String,
    pub details: Option<Json>,
}

/// The outcome of one compliance check.
#[derive(Debug, Clone, Copy, PartialEq, Eq, Structural)]
pub enum ComplianceStatus {
    Pass,
    Fail,
    Warning,
    NotApplicable,
}

impl ComplianceStatus {
    /// The name of the outcome in reports.
    pub open spec fn spec_name(self) -> Seq<char> {
        match self {
            ComplianceStatus::Pass => "pass"@,
            ComplianceStatus::Fail => "fail"@,
            ComplianceStatus::Warning => "warning"@,
            ComplianceStatus::NotApplicable => "not_applicable"@,
        }
    }

    /// The name of the outcome in reports.
    pub fn to_string(&self) -> (r: String)
        ensures
            r@ == self.spec_name(),
    {
        match self {
            ComplianceStatus::Pass => "pass".to_owned(),
            ComplianceStatus::Fail => "fail".to_owned(),
            ComplianceStatus::Warning => "warning".to_owned(),
            ComplianceStatus::NotApplicable => "not_applicable".to_owned(),
        }
    }
}

/// One compliance check with its outcome.
pub struct ComplianceCheck {
    pub id: String,
    pub name: String,
    pub framework: String,
    pub status: ComplianceStatus,
    pub description: String,
    pub remediation: String,
}

/// What a compliance check says.
pub struct CheckRow {
    pub id: Seq<char>,
    pub name: Seq<char>,
    pub framework: Seq<char>,
    pub status: ComplianceStatus,
    pub description: Seq<char>,
    pub remediation: Seq<char>,
}

impl View for ComplianceCheck {
    type V = CheckRow;

    open spec fn view(&self) -> CheckRow {
        CheckRow {
            id: self.id@,
            name: self.name@,
            framework: self.framework@,
            status: self.status,
            description: self.description@,
            remediation: self.remediation@,
        }
    }
}

/// A compliance report.
pub struct ComplianceAuditReport {
    pub generated_at: Timestamp,
    pub total_checks: usize,
    pub passed: usize,
    pub failed: usize,
    pub warnings: usize,
    pub not_applicable: usize,
    pub checks: Vec<ComplianceCheck>,
    pub pdf_stub: Json,
}

/// The answer to a request for the compliance report.
pub struct ComplianceReportResponse {
    pub report: ComplianceAuditReport,
}

/// The state of a vault.
#[derive(Debug, Clone, Copy, PartialEq, Eq, Structural)]
pub enum VaultStatus {
    Active,
    Expired,
    Released,
    Paused,
}

/// A vault.
#[derive(Debug)]
pub struct Vault {
    pub id: String,
    pub owner: String,
    pub beneficiary: String,
    pub balance: i128,
    pub check_in_interval: u64,
    pub last_check_in: Timestamp,
    pub created_at: Timestamp,
    pub status: VaultStatus,
    pub ttl_remaining: Option<u64>,
}

impl Clone for Vault {
    fn clone(&self) -> (r: Self)
        ensures
            r == *self,
    {
        Vault {
            id: self.id.clone(),
            owner: self.owner.clone(),
            beneficiary: self.beneficiary.clone(),
            balance: self.balance,
            check_in_interval: self.check_in_interval,
            last_check_in: self.last_check_in,
            created_at: self.created_at,
            status: self.status,
            ttl_remaining: self.ttl_remaining,
        }
    }
}

/// The part of a vault that lists show.
#[derive(Debug)]
pub struct VaultSummary {
    pub vault_id: String,
    pub owner: String,
    pub status: VaultStatus,
    pub ttl_remaining: Option<u64>,
    pub balance: i128,
}

impl VaultSummary {
    /// Whether this is the summary of `v`.
    pub open spec fn summarises(self, v: Vault) -> bool {
        &&& self.vault_id == v.id
        &&& self.owner == v.owner
        &&& self.status == v.status
        &&& self.ttl_remaining == v.ttl_remaining
        &&& self.balance == v.balance
    }

    /// The summary of a vault.
    pub fn of(v: &Vault) -> (r: Self)
        ensures
            r.summarises(*v),
    {
        VaultSummary {
            vault_id: v.id.clone(),
            owner: v.owner.clone(),
            status: v.status,
            ttl_remaining: v.ttl_remaining,
            balance: v.balance,
        }
    }
}

impl Clone for VaultSummary {
    fn clone(&self) -> (r: Self)
        ensures
            r == *self,
    {
        VaultSummary {
            vault_id: self.vault_id.clone(),
            owner: self.owner.clone(),
            status: self.status,
            ttl_remaining: self.ttl_remaining,
            balance: self.balance,
        }
    }
}

/// Something that happened to a vault.
pub struct VaultEvent {
    pub vault_id: String,
    pub event_type: String,
    pub timestamp: Timestamp,
    pub data: Json,
}

impl Clone for VaultEvent {
    fn clone(&self) -> (r: Self)
        ensures
            r == *self,
    {
        VaultEvent {
            vault_id: self.vault_id.clone(),
            event_type: self.event_type.clone(),
            timestamp: self.timestamp,
            data: self.data.clone(),
        }
    }
}

/// One entry of the in-memory audit trail.
pub struct AuditEntry {
    pub timestamp: Timestamp,
    pub action: String,
    pub actor: String,
    pub details: Json,
}

impl Clone for AuditEntry {
    fn clone(&self) -> (r: Self)
        ensures
            r == *self,
    {
        AuditEntry {
            timestamp: self.timestamp,
            action: self.action.clone(),
            actor: self.actor.clone(),
            details: self.details.clone(),
        }
    }
}

/// A backup of a vault.
pub struct VaultBackup {
    pub backup_id: String,
    pub vault_id: String,
    pub encrypted_data: String,
    pub created_at: Timestamp,
}

impl Clone for VaultBackup {
    fn clone(&self) -> (r: Self)
        ensures
            r == *self,
    {
        VaultBackup {
            backup_id: self.backup_id.clone(),
            vault_id: self.vault_id.clone(),
            encrypted_data: self.encrypted_data.clone(),
            created_at: self.created_at,
        }
    }
}

/// A vault shared with someone.
pub struct VaultShare {
    pub vault_id: String,
    pub shared_with: String,
    pub permission: String,
    pub created_at: Timestamp,
}

impl Clone for VaultShare {
    fn clone(&self) -> (r: Self)
        ensures
            r == *self,
    {
        VaultShare {
            vault_id: self.vault_id.clone(),
            shared_with: self.shared_with.clone(),
            permission: self.permission.clone(),
            created_at: self.created_at,
        }
    }
}

/// A token that grants access to a vault.
pub struct ShareToken {
    pub token: String,
    pub vault_id: String,
    pub permission: String,
    pub created_at: Timestamp,
    pub expires_at: Option<Timestamp>,
    pub revoked: bool,
}

impl Clone for ShareToken {
    fn clone(&self) -> (r: Self)
        ensures
            r == *self,
    {
        ShareToken {
            token: self.token.clone(),
            vault_id: self.vault_id.clone(),
            permission: self.permission.clone(),
            created_at: self.created_at,
            expires_at: self.expires_at,
            revoked: self.revoked,
        }
    }
}

/// How an owner wants to be notified.
pub struct VaultNotificationPreferences {
    pub owner: String,
    pub email: bool,
    pub sms: bool,
    pub push: bool,
}

impl Clone for VaultNotificationPreferences {
    fn clone(&self) -> (r: Self)
        ensures
            r == *self,
    {
        VaultNotificationPreferences {
            owner: self.owner.clone(),
            email: self.email,
            sms: self.sms,
            push: self.push,
        }
    }
}

/// What to look for among the vaults.
pub struct SearchQuery {
    pub owner: Option<String>,
    pub beneficiary: Option<String>,
    pub status: Option<VaultStatus>,
    pub created_after: Option<Timestamp>,
    pub created_before: Option<Timestamp>,
    pub page: Option<u32>,
    pub limit: Option<u32>,
}

/// One page of a search.
pub struct SearchResult {
    pub vaults: Vec<Vault>,
    pub total: u32,
    pub page: u32,
    pub limit: u32,
}

/// What happened on one day.
pub struct TimeSeriesPoint {
    pub date: String,
    pub vaults_created: u64,
    pub vaults_released: u64,
}

/// A mean, as a sum and the number of its terms; zero where there are none.
#[derive(Debug, Clone, Copy, PartialEq, Eq, Structural)]
pub struct Mean {
    pub sum: u128,
    pub count: u64,
}

/// Figures over all vaults.
pub struct VaultAnalytics {
    pub total_vaults: u64,
    pub active_vaults: u64,
    pub average_ttl_seconds: Mean,
    pub release_rate: Ratio,
    pub time_series: Vec<TimeSeriesPoint>,
}

/// A way to reach an owner.
#[derive(Debug, Clone, Copy, PartialEq, Eq, Structural)]
pub enum Channel {
    Email,
    Sms,
    Push,
}

/// How often to remind an owner.
#[derive(Debug, Clone, Copy, PartialEq, Eq, Structural)]
pub enum Frequency {
    Once,
    Daily,
    Hourly,
}

/// How an owner wants to be reminded of an expiring vault.
#[derive(Debug)]
pub struct ReminderPreferences {
    pub vault_id: u64,
    pub channels: Vec<Channel>,
    pub hours_before_expiry: u32,
    pub frequency: Frequency,
    pub deleted_at: Option<Timestamp>,
}

/// A summary shows the vault's name, owner, status, remaining time and balance.
pub proof fn law_summary_agrees_with_the_vault(s: VaultSummary, v: Vault, w: Vault)
    requires
        s.summarises(v),
    ensures
        s.vault_id@ == v.id@,
        s.owner@ == v.owner@,
        s.status == v.status,
        s.ttl_remaining == v.ttl_remaining,
        s.balance == v.balance,
        s.summarises(w) ==> w.id == v.id && w.owner == v.owner && w.status == v.status && w.balance
            == v.balance,
{
}

/// The words for the verdicts of a check.
pub proof fn law_verdicts_by_name()
    ensures
        ComplianceStatus::Pass.spec_name() == "pass"@,
        ComplianceStatus::Fail.spec_name() == "fail"@,
        ComplianceStatus::Warning.spec_name() == "warning"@,
        ComplianceStatus::NotApplicable.spec_name() == "not_applicable"@,
{
}

} // verus!
