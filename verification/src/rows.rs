//! The rows of the database: what they say, and how records are written to them.
//!
//! Moments are stored as RFC 3339 text. A row whose moment cannot be read is
//! refused with the number of the column, unless the moment is one that may be
//! missing: then it counts as missing.

use crate::clock;
use crate::clock::Timestamp;
use crate::json::Json;
use crate::models::{AuditLogEntry, Channel, Frequency, ReminderPreferences};
use crate::records;
use crate::records::{
    idempotency_alive, BadColumn, EncryptionKeyStatus, FeatureFlag, UpsertFlagRequest,
};
use crate::text::copied;
use vstd::prelude::*;
use vstd::string::*;

verus! {

/// The moment that a text in the given column denotes.
pub open spec fn moment_in(s: Seq<char>, column: usize) -> Result<Timestamp, BadColumn> {
    match Timestamp::parsed(s) {
        Some(t) => Ok(t),
        None => Err(BadColumn { column }),
    }
}

/// The moment that a text in the given column denotes.
fn read_moment(s: &str, column: usize) -> (r: Result<Timestamp, BadColumn>)
    ensures
        r == moment_in(s@, column),
{
    match Timestamp::parse_rfc3339(s) {
        Some(t) => Ok(t),
        None => Err(BadColumn { column }),
    }
}

/// The moment of an optional column; none where it holds no text or text that
/// denotes none.
pub open spec fn moment_if_any(s: Option<String>) -> Option<Timestamp> {
    match s {
        Some(x) => Timestamp::parsed(x@),
        None => None,
    }
}

/// The moment of an optional column.
fn read_if_any(s: &Option<String>) -> (r: Option<Timestamp>)
    ensures
        r == moment_if_any(*s),
{
    match s {
        Some(x) => Timestamp::parse_rfc3339(x.as_str()),
        None => None,
    }
}

/// Whether RFC 3339 can write a moment.
pub open spec fn writable(t: Timestamp) -> bool {
    clock::four_digit_year(t.secs, t.nanos)
}

/// Whether RFC 3339 can write a moment, where there is one.
pub open spec fn writable_if_any(t: Option<Timestamp>) -> bool {
    t is Some ==> writable(t->0)
}

/// The text of an optional moment.
fn write_if_any(t: &Option<Timestamp>) -> (r: Option<String>)
    ensures
        records::optional_text(r) == records::optional_stamp(*t),
        writable_if_any(*t) ==> moment_if_any(r) == *t,
{
    match t {
        Some(x) => Some(x.to_rfc3339()),
        None => None,
    }
}

/// One for true, zero for false.
pub open spec fn number(b: bool) -> i64 {
    if b {
        1
    } else {
        0
    }
}

/// One for true, zero for false.
fn as_number(b: bool) -> (r: i64)
    ensures
        r == number(b),
{
    if b {
        1
    } else {
        0
    }
}

/// Reads the moment at which an owner was last active.
pub fn last_active_from_row(last_active_at: &str) -> (r: Result<Timestamp, BadColumn>)
    ensures
        r == moment_in(last_active_at@, 0),
{
    read_moment(last_active_at, 0)
}

/// An answer that is kept for repeats of a request.
pub struct IdempotencyRecord {
    pub key: String,
    pub status_code: u16,
    pub response_body: String,
    pub created_at: Timestamp,
}

/// A row that holds an answer that is kept for repeats of a request.
pub struct IdempotencyRow {
    pub key: String,
    pub status_code: i64,
    pub response_body: String,
    pub created_at: String,
}

/// What such a row says, or the column whose moment cannot be read.
pub open spec fn row_idempotency(row: IdempotencyRow) -> Result<IdempotencyRecord, BadColumn> {
    match moment_in(row.created_at@, 0) {
        Ok(created_at) => Ok(
            IdempotencyRecord {
                key: row.key,
                status_code: row.status_code as u16,
                response_body: row.response_body,
                created_at,
            },
        ),
        Err(e) => Err(e),
    }
}

/// Reads a row that holds an answer that is kept for repeats of a request.
pub fn idempotency_from_row(row: IdempotencyRow) -> (r: Result<IdempotencyRecord, BadColumn>)
    ensures
        r == row_idempotency(row),
{
    let created_at = match read_moment(row.created_at.as_str(), 0) {
        Ok(t) => t,
        Err(e) => {
            return Err(e);
        },
    };
    Ok(
        IdempotencyRecord {
            key: row.key,
            status_code: row.status_code as u16,
            response_body: row.response_body,
            created_at,
        },
    )
}

/// The row that holds an answer that is kept for repeats of a request. Moments
/// of the years 0 to 9999 are read back unchanged.
pub fn idempotency_row(x: &IdempotencyRecord) -> (r: IdempotencyRow)
    ensures
        r.key == x.key,
        r.status_code == x.status_code,
        r.response_body == x.response_body,
        r.created_at@ == x.created_at.rfc3339(),
        writable(x.created_at) ==> row_idempotency(r) == Ok::<
            IdempotencyRecord,
            BadColumn,
        >(*x),
{
    IdempotencyRow {
        key: x.key.clone(),
        status_code: x.status_code as i64,
        response_body: x.response_body.clone(),
        created_at: x.created_at.to_rfc3339(),
    }
}

/// The second factor of a vault. The method is kept as it is stored.
pub struct TwoFactorConfig {
    pub vault_id: String,
    pub method: String,
    pub enabled: bool,
    pub secret: Option<String>,
    pub phone: Option<String>,
    pub email: Option<String>,
    pub created_at: Timestamp,
    pub verified_at: Option<Timestamp>,
}

/// A row that holds the second factor of a vault.
pub struct TwoFactorRow {
    pub vault_id: String,
    pub method: String,
    pub enabled: i64,
    pub secret: Option<String>,
    pub phone: Option<String>,
    pub email: Option<String>,
    pub created_at: String,
    pub verified_at: Option<String>,
}

/// What such a row says, or the column whose moment cannot be read.
pub open spec fn row_two_factor(row: TwoFactorRow) -> Result<TwoFactorConfig, BadColumn> {
    match moment_in(row.created_at@, 6) {
        Ok(created_at) => Ok(
            TwoFactorConfig {
                vault_id: row.vault_id,
                method: row.method,
                enabled: row.enabled != 0,
                secret: row.secret,
                phone: row.phone,
                email: row.email,
                created_at,
                verified_at: moment_if_any(row.verified_at),
            },
        ),
        Err(e) => Err(e),
    }
}

/// Reads a row that holds the second factor of a vault.
pub fn two_factor_from_row(row: TwoFactorRow) -> (r: Result<TwoFactorConfig, BadColumn>)
    ensures
        r == row_two_factor(row),
{
    let created_at = match read_moment(row.created_at.as_str(), 6) {
        Ok(t) => t,
        Err(e) => {
            return Err(e);
        },
    };
    let verified_at = read_if_any(&row.verified_at);
    Ok(
        TwoFactorConfig {
            vault_id: row.vault_id,
            method: row.method,
            enabled: row.enabled != 0,
            secret: row.secret,
            phone: row.phone,
            email: row.email,
            created_at,
            verified_at,
        },
    )
}

/// The row that holds the second factor of a vault. Moments of the years 0 to
/// 9999 are read back unchanged.
pub fn two_factor_row(x: &TwoFactorConfig) -> (r: TwoFactorRow)
    ensures
        r.vault_id == x.vault_id,
        r.method == x.method,
        r.enabled == number(x.enabled),
        r.secret == x.secret,
        r.phone == x.phone,
        r.email == x.email,
        r.created_at@ == x.created_at.rfc3339(),
        records::optional_text(r.verified_at) == records::optional_stamp(x.verified_at),
        writable(x.created_at) && writable_if_any(x.verified_at) ==> row_two_factor(r) == Ok::<
            TwoFactorConfig,
            BadColumn,
        >(*x),
{
    TwoFactorRow {
        vault_id: x.vault_id.clone(),
        method: x.method.clone(),
        enabled: as_number(x.enabled),
        secret: copied(&x.secret),
        phone: copied(&x.phone),
        email: copied(&x.email),
        created_at: x.created_at.to_rfc3339(),
        verified_at: write_if_any(&x.verified_at),
    }
}

/// A row that holds a line of the audit log.
pub struct AuditRow {
    pub id: i64,
    pub timestamp: String,
    pub user_id: String,
    pub action: String,
    pub resource: String,
    pub result: String,
    pub ip_address: String,
}

/// What such a row says, or the column whose moment cannot be read.
pub open spec fn row_audit_entry(row: AuditRow, details: Option<Json>) -> Result<
    AuditLogEntry,
    BadColumn,
> {
    match moment_in(row.timestamp@, 1) {
        Ok(timestamp) => Ok(
            AuditLogEntry {
                id: row.id,
                timestamp,
                user_id: row.user_id,
                action: row.action,
                resource: row.resource,
                result: row.result,
                ip_address: row.ip_address,
                details,
            },
        ),
        Err(e) => Err(e),
    }
}

/// Reads a row that holds a line of the audit log.
pub fn audit_entry_from_row(row: AuditRow, details: Option<Json>) -> (r: Result<
    AuditLogEntry,
    BadColumn,
>)
    ensures
        r == row_audit_entry(row, details),
{
    let timestamp = match read_moment(row.timestamp.as_str(), 1) {
        Ok(t) => t,
        Err(e) => {
            return Err(e);
        },
    };
    Ok(
        AuditLogEntry {
            id: row.id,
            timestamp,
            user_id: row.user_id,
            action: row.action,
            resource: row.resource,
            result: row.result,
            ip_address: row.ip_address,
            details,
        },
    )
}

/// The row that holds a line of the audit log. Moments of the years 0 to 9999
/// are read back unchanged.
pub fn audit_entry_row(x: &AuditLogEntry) -> (r: AuditRow)
    ensures
        r.id == x.id,
        r.timestamp@ == x.timestamp.rfc3339(),
        r.user_id == x.user_id,
        r.action == x.action,
        r.resource == x.resource,
        r.result == x.result,
        r.ip_address == x.ip_address,
        writable(x.timestamp) ==> row_audit_entry(r, x.details) == Ok::<
            AuditLogEntry,
            BadColumn,
        >(*x),
{
    AuditRow {
        id: x.id,
        timestamp: x.timestamp.to_rfc3339(),
        user_id: x.user_id.clone(),
        action: x.action.clone(),
        resource: x.resource.clone(),
        result: x.result.clone(),
        ip_address: x.ip_address.clone(),
    }
}

/// A tenant.
pub struct Tenant {
    pub id: String,
    pub name: String,
    pub owner: String,
    pub created_at: Timestamp,
    pub updated_at: Timestamp,
    pub is_active: bool,
}

/// A row that holds a tenant.
pub struct TenantRow {
    pub id: String,
    pub name: String,
    pub owner: String,
    pub created_at: String,
    pub updated_at: String,
    pub is_active: i64,
}

/// What such a row says, or the column whose moment cannot be read.
pub open spec fn row_tenant(row: TenantRow) -> Result<Tenant, BadColumn> {
    match (moment_in(row.created_at@, 3), moment_in(row.updated_at@, 4)) {
        (Ok(created_at), Ok(updated_at)) => Ok(
            Tenant {
                id: row.id,
                name: row.name,
                owner: row.owner,
                created_at,
                updated_at,
                is_active: row.is_active != 0,
            },
        ),
        (Ok(_), Err(e)) => Err(e),
        (Err(e), _) => Err(e),
    }
}

/// Reads a row that holds a tenant.
pub fn tenant_from_row(row: TenantRow) -> (r: Result<Tenant, BadColumn>)
    ensures
        r == row_tenant(row),
{
    let created_at = match read_moment(row.created_at.as_str(), 3) {
        Ok(t) => t,
        Err(e) => {
            return Err(e);
        },
    };
    let updated_at = match read_moment(row.updated_at.as_str(), 4) {
        Ok(t) => t,
        Err(e) => {
            return Err(e);
        },
    };
    Ok(
        Tenant {
            id: row.id,
            name: row.name,
            owner: row.owner,
            created_at,
            updated_at,
            is_active: row.is_active != 0,
        },
    )
}

/// The row that holds a tenant. Moments of the years 0 to 9999 are read back
/// unchanged.
pub fn tenant_row(x: &Tenant) -> (r: TenantRow)
    ensures
        r.id == x.id,
        r.name == x.name,
        r.owner == x.owner,
        r.created_at@ == x.created_at.rfc3339(),
        r.updated_at@ == x.updated_at.rfc3339(),
        r.is_active == number(x.is_active),
        writable(x.created_at) && writable(x.updated_at) ==> row_tenant(r) == Ok::<
            Tenant,
            BadColumn,
        >(*x),
{
    TenantRow {
        id: x.id.clone(),
        name: x.name.clone(),
        owner: x.owner.clone(),
        created_at: x.created_at.to_rfc3339(),
        updated_at: x.updated_at.to_rfc3339(),
        is_active: as_number(x.is_active),
    }
}

/// The presence of a user at a vault.
pub struct UserPresence {
    pub user_id: String,
    pub vault_id: String,
    pub status: String,
    pub last_seen: Timestamp,
    pub session_id: String,
}

/// A row that holds the presence of a user at a vault.
pub struct PresenceRow {
    pub user_id: String,
    pub vault_id: String,
    pub status: String,
    pub last_seen: String,
    pub session_id: String,
}

/// What such a row says, or the column whose moment cannot be read.
pub open spec fn row_presence(row: PresenceRow) -> Result<UserPresence, BadColumn> {
    match moment_in(row.last_seen@, 3) {
        Ok(last_seen) => Ok(
            UserPresence {
                user_id: row.user_id,
                vault_id: row.vault_id,
                status: row.status,
                last_seen,
                session_id: row.session_id,
            },
        ),
        Err(e) => Err(e),
    }
}

/// Reads a row that holds the presence of a user at a vault.
pub fn presence_from_row(row: PresenceRow) -> (r: Result<UserPresence, BadColumn>)
    ensures
        r == row_presence(row),
{
    let last_seen = match read_moment(row.last_seen.as_str(), 3) {
        Ok(t) => t,
        Err(e) => {
            return Err(e);
        },
    };
    Ok(
        UserPresence {
            user_id: row.user_id,
            vault_id: row.vault_id,
            status: row.status,
            last_seen,
            session_id: row.session_id,
        },
    )
}

/// The row that holds the presence of a user at a vault. Moments of the years 0
/// to 9999 are read back unchanged.
pub fn presence_row(x: &UserPresence) -> (r: PresenceRow)
    ensures
        r.user_id == x.user_id,
        r.vault_id == x.vault_id,
        r.status == x.status,
        r.last_seen@ == x.last_seen.rfc3339(),
        r.session_id == x.session_id,
        writable(x.last_seen) ==> row_presence(r) == Ok::<
            UserPresence,
            BadColumn,
        >(*x),
{
    PresenceRow {
        user_id: x.user_id.clone(),
        vault_id: x.vault_id.clone(),
        status: x.status.clone(),
        last_seen: x.last_seen.to_rfc3339(),
        session_id: x.session_id.clone(),
    }
}

/// How long a type of data is kept.
pub struct DataRetentionPolicy {
    pub data_type: String,
    pub retention_days: u32,
    pub enabled: bool,
    pub description: Option<String>,
    pub created_at: Timestamp,
    pub updated_at: Timestamp,
}

/// A row that holds how long a type of data is kept.
pub struct RetentionPolicyRow {
    pub data_type: String,
    pub retention_days: i64,
    pub enabled: i64,
    pub description: Option<String>,
    pub created_at: String,
    pub updated_at: String,
}

/// What such a row says, or the column whose moment cannot be read.
pub open spec fn row_retention_policy(row: RetentionPolicyRow) -> Result<
    DataRetentionPolicy,
    BadColumn,
> {
    match (moment_in(row.created_at@, 4), moment_in(row.updated_at@, 5)) {
        (Ok(created_at), Ok(updated_at)) => Ok(
            DataRetentionPolicy {
                data_type: row.data_type,
                retention_days: row.retention_days as u32,
                enabled: row.enabled != 0,
                description: row.description,
                created_at,
                updated_at,
            },
        ),
        (Ok(_), Err(e)) => Err(e),
        (Err(e), _) => Err(e),
    }
}

/// Reads a row that holds how long a type of data is kept.
pub fn retention_policy_from_row(row: RetentionPolicyRow) -> (r: Result<
    DataRetentionPolicy,
    BadColumn,
>)
    ensures
        r == row_retention_policy(row),
{
    let created_at = match read_moment(row.created_at.as_str(), 4) {
        Ok(t) => t,
        Err(e) => {
            return Err(e);
        },
    };
    let updated_at = match read_moment(row.updated_at.as_str(), 5) {
        Ok(t) => t,
        Err(e) => {
            return Err(e);
        },
    };
    Ok(
        DataRetentionPolicy {
            data_type: row.data_type,
            retention_days: row.retention_days as u32,
            enabled: row.enabled != 0,
            description: row.description,
            created_at,
            updated_at,
        },
    )
}

/// The row that holds how long a type of data is kept. Moments of the years 0
/// to 9999 are read back unchanged.
pub fn retention_policy_row(x: &DataRetentionPolicy) -> (r: RetentionPolicyRow)
    ensures
        r.data_type == x.data_type,
        r.retention_days == x.retention_days,
        r.enabled == number(x.enabled),
        r.description == x.description,
        r.created_at@ == x.created_at.rfc3339(),
        r.updated_at@ == x.updated_at.rfc3339(),
        writable(x.created_at) && writable(x.updated_at) ==> row_retention_policy(r) == Ok::<
            DataRetentionPolicy,
            BadColumn,
        >(*x),
{
    RetentionPolicyRow {
        data_type: x.data_type.clone(),
        retention_days: x.retention_days as i64,
        enabled: as_number(x.enabled),
        description: copied(&x.description),
        created_at: x.created_at.to_rfc3339(),
        updated_at: x.updated_at.to_rfc3339(),
    }
}

/// A record that is kept longer than its type of data.
pub struct RetentionException {
    pub id: i64,
    pub data_type: String,
    pub record_id: String,
    pub reason: String,
    pub expires_at: Option<Timestamp>,
    pub created_at: Timestamp,
    pub created_by: String,
}

/// A row that holds a record that is kept longer than its type of data.
pub struct RetentionExceptionRow {
    pub id: i64,
    pub data_type: String,
    pub record_id: String,
    pub reason: String,
    pub expires_at: Option<String>,
    pub created_at: String,
    pub created_by: String,
}

/// What such a row says, or the column whose moment cannot be read.
pub open spec fn row_retention_exception(row: RetentionExceptionRow) -> Result<
    RetentionException,
    BadColumn,
> {
    match moment_in(row.created_at@, 5) {
        Ok(created_at) => Ok(
            RetentionException {
                id: row.id,
                data_type: row.data_type,
                record_id: row.record_id,
                reason: row.reason,
                expires_at: moment_if_any(row.expires_at),
                created_at,
                created_by: row.created_by,
            },
        ),
        Err(e) => Err(e),
    }
}

/// Reads a row that holds a record that is kept longer than its type of data.
pub fn retention_exception_from_row(row: RetentionExceptionRow) -> (r: Result<
    RetentionException,
    BadColumn,
>)
    ensures
        r == row_retention_exception(row),
{
    let created_at = match read_moment(row.created_at.as_str(), 5) {
        Ok(t) => t,
        Err(e) => {
            return Err(e);
        },
    };
    let expires_at = read_if_any(&row.expires_at);
    Ok(
        RetentionException {
            id: row.id,
            data_type: row.data_type,
            record_id: row.record_id,
            reason: row.reason,
            expires_at,
            created_at,
            created_by: row.created_by,
        },
    )
}

/// The row that holds a record that is kept longer than its type of data.
/// Moments of the years 0 to 9999 are read back unchanged.
pub fn retention_exception_row(x: &RetentionException) -> (r: RetentionExceptionRow)
    ensures
        r.id == x.id,
        r.data_type == x.data_type,
        r.record_id == x.record_id,
        r.reason == x.reason,
        records::optional_text(r.expires_at) == records::optional_stamp(x.expires_at),
        r.created_at@ == x.created_at.rfc3339(),
        r.created_by == x.created_by,
        writable(x.created_at) && writable_if_any(x.expires_at)
            ==> row_retention_exception(r) == Ok::<
            RetentionException,
            BadColumn,
        >(*x),
{
    RetentionExceptionRow {
        id: x.id,
        data_type: x.data_type.clone(),
        record_id: x.record_id.clone(),
        reason: x.reason.clone(),
        expires_at: write_if_any(&x.expires_at),
        created_at: x.created_at.to_rfc3339(),
        created_by: x.created_by.clone(),
    }
}

/// What a purge has deleted.
pub struct RetentionDeletionLog {
    pub id: i64,
    pub data_type: String,
    pub deleted_rows: u64,
    pub purged_at: Timestamp,
    pub actor: String,
    pub details: Option<Json>,
}

/// A row that holds what a purge has deleted.
pub struct DeletionLogRow {
    pub id: i64,
    pub data_type: String,
    pub deleted_rows: i64,
    pub purged_at: String,
    pub actor: String,
}

/// What such a row says, or the column whose moment cannot be read.
pub open spec fn row_deletion_log(row: DeletionLogRow, details: Option<Json>) -> Result<
    RetentionDeletionLog,
    BadColumn,
> {
    match moment_in(row.purged_at@, 3) {
        Ok(purged_at) => Ok(
            RetentionDeletionLog {
                id: row.id,
                data_type: row.data_type,
                deleted_rows: row.deleted_rows as u64,
                purged_at,
                actor: row.actor,
                details,
            },
        ),
        Err(e) => Err(e),
    }
}

/// Reads a row that holds what a purge has deleted.
pub fn deletion_log_from_row(row: DeletionLogRow, details: Option<Json>) -> (r: Result<
    RetentionDeletionLog,
    BadColumn,
>)
    ensures
        r == row_deletion_log(row, details),
{
    let purged_at = match read_moment(row.purged_at.as_str(), 3) {
        Ok(t) => t,
        Err(e) => {
            return Err(e);
        },
    };
    Ok(
        RetentionDeletionLog {
            id: row.id,
            data_type: row.data_type,
            deleted_rows: row.deleted_rows as u64,
            purged_at,
            actor: row.actor,
            details,
        },
    )
}

/// What is known of a version of the encryption key.
pub struct EncryptionKeyInfo {
    pub version: u32,
    pub status: EncryptionKeyStatus,
    pub created_at: Timestamp,
    pub rotated_at: Option<Timestamp>,
}

/// A row that holds a version of the encryption key.
pub struct KeyVersionRow {
    pub version: i64,
    pub status: String,
    pub created_at: String,
    pub rotated_at: Option<String>,
}

/// What such a row says, or the column whose moment cannot be read.
pub open spec fn row_key_version(row: KeyVersionRow) -> Result<EncryptionKeyInfo, BadColumn> {
    match moment_in(row.created_at@, 2) {
        Ok(created_at) => Ok(
            EncryptionKeyInfo {
                version: row.version as u32,
                status: EncryptionKeyStatus::of_stored(row.status@),
                created_at,
                rotated_at: moment_if_any(row.rotated_at),
            },
        ),
        Err(e) => Err(e),
    }
}

/// Reads a row that holds a version of the encryption key.
pub fn key_version_from_row(row: KeyVersionRow) -> (r: Result<EncryptionKeyInfo, BadColumn>)
    ensures
        r == row_key_version(row),
{
    let created_at = match read_moment(row.created_at.as_str(), 2) {
        Ok(t) => t,
        Err(e) => {
            return Err(e);
        },
    };
    let rotated_at = read_if_any(&row.rotated_at);
    Ok(
        EncryptionKeyInfo {
            version: row.version as u32,
            status: EncryptionKeyStatus::from_stored(row.status.as_str()),
            created_at,
            rotated_at,
        },
    )
}

/// How often a secret is rotated. Its type and the channels are kept as they are
/// stored.
pub struct SecretRotationPolicy {
    pub secret_type: String,
    pub rotation_interval_days: u32,
    pub grace_period_hours: u32,
    pub auto_rotate: bool,
    pub notify_channels: String,
    pub created_at: Timestamp,
    pub updated_at: Timestamp,
}

/// A row that holds how often a secret is rotated.
pub struct RotationPolicyRow {
    pub secret_type: String,
    pub rotation_interval_days: i64,
    pub grace_period_hours: i64,
    pub auto_rotate: i64,
    pub notify_channels: String,
    pub created_at: String,
    pub updated_at: String,
}

/// What such a row says, or the column whose moment cannot be read.
pub open spec fn row_rotation_policy(row: RotationPolicyRow) -> Result<
    SecretRotationPolicy,
    BadColumn,
> {
    match (moment_in(row.created_at@, 5), moment_in(row.updated_at@, 6)) {
        (Ok(created_at), Ok(updated_at)) => Ok(
            SecretRotationPolicy {
                secret_type: row.secret_type,
                rotation_interval_days: row.rotation_interval_days as u32,
                grace_period_hours: row.grace_period_hours as u32,
                auto_rotate: row.auto_rotate != 0,
                notify_channels: row.notify_channels,
                created_at,
                updated_at,
            },
        ),
        (Ok(_), Err(e)) => Err(e),
        (Err(e), _) => Err(e),
    }
}

/// Reads a row that holds how often a secret is rotated.
pub fn rotation_policy_from_row(row: RotationPolicyRow) -> (r: Result<
    SecretRotationPolicy,
    BadColumn,
>)
    ensures
        r == row_rotation_policy(row),
{
    let created_at = match read_moment(row.created_at.as_str(), 5) {
        Ok(t) => t,
        Err(e) => {
            return Err(e);
        },
    };
    let updated_at = match read_moment(row.updated_at.as_str(), 6) {
        Ok(t) => t,
        Err(e) => {
            return Err(e);
        },
    };
    Ok(
        SecretRotationPolicy {
            secret_type: row.secret_type,
            rotation_interval_days: row.rotation_interval_days as u32,
            grace_period_hours: row.grace_period_hours as u32,
            auto_rotate: row.auto_rotate != 0,
            notify_channels: row.notify_channels,
            created_at,
            updated_at,
        },
    )
}

/// The row that holds how often a secret is rotated. Moments of the years 0 to
/// 9999 are read back unchanged.
pub fn rotation_policy_row(x: &SecretRotationPolicy) -> (r: RotationPolicyRow)
    ensures
        r.secret_type == x.secret_type,
        r.rotation_interval_days == x.rotation_interval_days,
        r.grace_period_hours == x.grace_period_hours,
        r.auto_rotate == number(x.auto_rotate),
        r.notify_channels == x.notify_channels,
        r.created_at@ == x.created_at.rfc3339(),
        r.updated_at@ == x.updated_at.rfc3339(),
        writable(x.created_at) && writable(x.updated_at) ==> row_rotation_policy(r) == Ok::<
            SecretRotationPolicy,
            BadColumn,
        >(*x),
{
    RotationPolicyRow {
        secret_type: x.secret_type.clone(),
        rotation_interval_days: x.rotation_interval_days as i64,
        grace_period_hours: x.grace_period_hours as i64,
        auto_rotate: as_number(x.auto_rotate),
        notify_channels: x.notify_channels.clone(),
        created_at: x.created_at.to_rfc3339(),
        updated_at: x.updated_at.to_rfc3339(),
    }
}

/// A rotation of a secret. Its type is kept as it is stored.
pub struct SecretRotationLog {
    pub id: i64,
    pub secret_type: String,
    pub rotated_at: Timestamp,
    pub actor: String,
    pub grace_period_active: bool,
    pub grace_period_ends_at: Option<Timestamp>,
    pub notes: Option<String>,
}

/// A row that holds a rotation of a secret.
pub struct RotationLogRow {
    pub id: i64,
    pub secret_type: String,
    pub rotated_at: String,
    pub actor: String,
    pub grace_period_active: i64,
    pub grace_period_ends_at: Option<String>,
    pub notes: Option<String>,
}

/// What such a row says, or the column whose moment cannot be read.
pub open spec fn row_rotation_log(row: RotationLogRow) -> Result<SecretRotationLog, BadColumn> {
    match moment_in(row.rotated_at@, 2) {
        Ok(rotated_at) => Ok(
            SecretRotationLog {
                id: row.id,
                secret_type: row.secret_type,
                rotated_at,
                actor: row.actor,
                grace_period_active: row.grace_period_active != 0,
                grace_period_ends_at: moment_if_any(row.grace_period_ends_at),
                notes: row.notes,
            },
        ),
        Err(e) => Err(e),
    }
}

/// Reads a row that holds a rotation of a secret.
pub fn rotation_log_from_row(row: RotationLogRow) -> (r: Result<SecretRotationLog, BadColumn>)
    ensures
        r == row_rotation_log(row),
{
    let rotated_at = match read_moment(row.rotated_at.as_str(), 2) {
        Ok(t) => t,
        Err(e) => {
            return Err(e);
        },
    };
    let grace_period_ends_at = read_if_any(&row.grace_period_ends_at);
    Ok(
        SecretRotationLog {
            id: row.id,
            secret_type: row.secret_type,
            rotated_at,
            actor: row.actor,
            grace_period_active: row.grace_period_active != 0,
            grace_period_ends_at,
            notes: row.notes,
        },
    )
}

/// The row that holds a rotation of a secret. Moments of the years 0 to 9999
/// are read back unchanged.
pub fn rotation_log_row(x: &SecretRotationLog) -> (r: RotationLogRow)
    ensures
        r.id == x.id,
        r.secret_type == x.secret_type,
        r.rotated_at@ == x.rotated_at.rfc3339(),
        r.actor == x.actor,
        r.grace_period_active == number(x.grace_period_active),
        records::optional_text(r.grace_period_ends_at) == records::optional_stamp(
            x.grace_period_ends_at,
        ),
        r.notes == x.notes,
        writable(x.rotated_at) && writable_if_any(x.grace_period_ends_at)
            ==> row_rotation_log(r) == Ok::<
            SecretRotationLog,
            BadColumn,
        >(*x),
{
    RotationLogRow {
        id: x.id,
        secret_type: x.secret_type.clone(),
        rotated_at: x.rotated_at.to_rfc3339(),
        actor: x.actor.clone(),
        grace_period_active: as_number(x.grace_period_active),
        grace_period_ends_at: write_if_any(&x.grace_period_ends_at),
        notes: copied(&x.notes),
    }
}

/// A row that holds a feature flag.
pub struct FlagRow {
    pub key: String,
    pub description: Option<String>,
    pub enabled: i64,
    pub rollout_percentage: i64,
    pub version: i64,
    pub created_at: String,
    pub updated_at: String,
}

/// What such a row says, or the column whose moment cannot be read.
pub open spec fn row_flag(row: FlagRow) -> Result<FeatureFlag, BadColumn> {
    match (moment_in(row.created_at@, 5), moment_in(row.updated_at@, 6)) {
        (Ok(created_at), Ok(updated_at)) => Ok(
            FeatureFlag {
                key: row.key,
                description: row.description,
                enabled: row.enabled != 0,
                rollout_percentage: row.rollout_percentage as u8,
                version: row.version as u32,
                created_at,
                updated_at,
            },
        ),
        (Ok(_), Err(e)) => Err(e),
        (Err(e), _) => Err(e),
    }
}

/// Reads a row that holds a feature flag.
pub fn flag_from_row(row: FlagRow) -> (r: Result<FeatureFlag, BadColumn>)
    ensures
        r == row_flag(row),
{
    let created_at = match read_moment(row.created_at.as_str(), 5) {
        Ok(t) => t,
        Err(e) => {
            return Err(e);
        },
    };
    let updated_at = match read_moment(row.updated_at.as_str(), 6) {
        Ok(t) => t,
        Err(e) => {
            return Err(e);
        },
    };
    Ok(
        FeatureFlag {
            key: row.key,
            description: row.description,
            enabled: row.enabled != 0,
            rollout_percentage: row.rollout_percentage as u8,
            version: row.version as u32,
            created_at,
            updated_at,
        },
    )
}

/// The row that holds a feature flag. Moments of the years 0 to 9999 are read
/// back unchanged.
pub fn flag_row(x: &FeatureFlag) -> (r: FlagRow)
    ensures
        r.key == x.key,
        r.description == x.description,
        r.enabled == number(x.enabled),
        r.rollout_percentage == x.rollout_percentage,
        r.version == x.version,
        r.created_at@ == x.created_at.rfc3339(),
        r.updated_at@ == x.updated_at.rfc3339(),
        writable(x.created_at) && writable(x.updated_at) ==> row_flag(r) == Ok::<
            FeatureFlag,
            BadColumn,
        >(*x),
{
    FlagRow {
        key: x.key.clone(),
        description: copied(&x.description),
        enabled: as_number(x.enabled),
        rollout_percentage: x.rollout_percentage as i64,
        version: x.version as i64,
        created_at: x.created_at.to_rfc3339(),
        updated_at: x.updated_at.to_rfc3339(),
    }
}

/// A state that a feature flag had.
pub struct FlagSnapshot {
    pub version: u32,
    pub enabled: bool,
    pub rollout_percentage: u8,
    pub updated_at: Timestamp,
    pub updated_by: Option<String>,
}

/// A row that holds a state that a feature flag had.
pub struct SnapshotRow {
    pub version: i64,
    pub enabled: i64,
    pub rollout_percentage: i64,
    pub updated_at: String,
    pub updated_by: Option<String>,
}

/// What such a row says, or the column whose moment cannot be read.
pub open spec fn row_snapshot(row: SnapshotRow) -> Result<FlagSnapshot, BadColumn> {
    match moment_in(row.updated_at@, 3) {
        Ok(updated_at) => Ok(
            FlagSnapshot {
                version: row.version as u32,
                enabled: row.enabled != 0,
                rollout_percentage: row.rollout_percentage as u8,
                updated_at,
                updated_by: row.updated_by,
            },
        ),
        Err(e) => Err(e),
    }
}

/// Reads a row that holds a state that a feature flag had.
pub fn snapshot_from_row(row: SnapshotRow) -> (r: Result<FlagSnapshot, BadColumn>)
    ensures
        r == row_snapshot(row),
{
    let updated_at = match read_moment(row.updated_at.as_str(), 3) {
        Ok(t) => t,
        Err(e) => {
            return Err(e);
        },
    };
    Ok(
        FlagSnapshot {
            version: row.version as u32,
            enabled: row.enabled != 0,
            rollout_percentage: row.rollout_percentage as u8,
            updated_at,
            updated_by: row.updated_by,
        },
    )
}

/// The answer that a row keeps for repeats of a request, where it can be read and
/// is still given at `now`.
pub fn live_answer(row: IdempotencyRow, now: &Timestamp) -> (r: Option<IdempotencyRecord>)
    ensures
        r == match row_idempotency(row) {
            Ok(x) => if records::nanos_between(x.created_at, *now) < 86_401 * 1_000_000_000 {
                Some(x)
            } else {
                None
            },
            Err(_) => None,
        },
{
    match idempotency_from_row(row) {
        Ok(x) => if idempotency_alive(&x.created_at, now) {
            Some(x)
        } else {
            None
        },
        Err(_) => None,
    }
}

/// The row of the flag history for the state of `flag` that a request replaces.
pub fn superseded(flag: &FeatureFlag, req: &UpsertFlagRequest) -> (r: SnapshotRow)
    ensures
        r.version == flag.version,
        r.enabled == number(flag.enabled),
        r.rollout_percentage == flag.rollout_percentage,
        r.updated_at@ == flag.updated_at.rfc3339(),
        r.updated_by == req.updated_by,
        writable(flag.updated_at) ==> row_snapshot(r) == Ok::<FlagSnapshot, BadColumn>(
            FlagSnapshot {
                version: flag.version,
                enabled: flag.enabled,
                rollout_percentage: flag.rollout_percentage,
                updated_at: flag.updated_at,
                updated_by: req.updated_by,
            },
        ),
{
    SnapshotRow {
        version: flag.version as i64,
        enabled: as_number(flag.enabled),
        rollout_percentage: flag.rollout_percentage as i64,
        updated_at: flag.updated_at.to_rfc3339(),
        updated_by: copied(&req.updated_by),
    }
}

/// A row that holds how an owner wants to be reminded, but for the channels and
/// the frequency.
pub struct ReminderRow {
    pub vault_id: i64,
    pub hours_before_expiry: i64,
    pub deleted_at: Option<String>,
}

/// Reads a row that holds how an owner wants to be reminded, with the channels
/// and the frequency that it names.
pub fn reminder_from_row(row: ReminderRow, channels: Vec<Channel>, frequency: Frequency) -> (r:
    ReminderPreferences)
    ensures
        r.vault_id == row.vault_id as u64,
        r.channels == channels,
        r.hours_before_expiry == row.hours_before_expiry as u32,
        r.frequency == frequency,
        r.deleted_at == moment_if_any(row.deleted_at),
{
    let deleted_at = read_if_any(&row.deleted_at);
    ReminderPreferences {
        vault_id: row.vault_id as u64,
        channels,
        hours_before_expiry: row.hours_before_expiry as u32,
        frequency,
        deleted_at,
    }
}

/// A row that holds a remembered answer column by column is read back as it.
pub proof fn law_remembered_answer_is_read_back(row: IdempotencyRow, x: IdempotencyRecord)
    requires
        row.key == x.key,
        row.status_code == x.status_code,
        row.response_body == x.response_body,
        Timestamp::parsed(row.created_at@) == Some(x.created_at),
    ensures
        row_idempotency(row) == Ok::<IdempotencyRecord, BadColumn>(x),
{
}

/// A remembered answer is refused for a moment that cannot be read, and for nothing
/// else; the refusal names the first such column.
pub proof fn law_remembered_answer_needs_its_moments(row: IdempotencyRow)
    ensures
        Timestamp::parsed(row.created_at@) is None ==> row_idempotency(row) == Err::<IdempotencyRecord, BadColumn>(
            BadColumn { column: 0 },
        ),
        Timestamp::parsed(row.created_at@) is Some ==> row_idempotency(row) is Ok,
{
}

/// A row that holds a second factor column by column is read back as it.
pub proof fn law_second_factor_is_read_back(row: TwoFactorRow, x: TwoFactorConfig)
    requires
        row.vault_id == x.vault_id,
        row.method == x.method,
        row.enabled == if x.enabled {
            1int
        } else {
            0int
        },
        row.secret == x.secret,
        row.phone == x.phone,
        row.email == x.email,
        Timestamp::parsed(row.created_at@) == Some(x.created_at),
        x.verified_at is None ==> row.verified_at is None,
        x.verified_at is Some ==> row.verified_at is Some && Timestamp::parsed(row.verified_at->0@) == x.verified_at,
    ensures
        row_two_factor(row) == Ok::<TwoFactorConfig, BadColumn>(x),
{
}

/// A second factor is refused for a moment that cannot be read, and for nothing
/// else; the refusal names the first such column.
pub proof fn law_second_factor_needs_its_moments(row: TwoFactorRow)
    ensures
        Timestamp::parsed(row.created_at@) is None ==> row_two_factor(row) == Err::<TwoFactorConfig, BadColumn>(
            BadColumn { column: 6 },
        ),
        Timestamp::parsed(row.created_at@) is Some ==> row_two_factor(row) is Ok,
{
}

/// A row that holds an audit entry column by column is read back as it.
pub proof fn law_audit_entry_is_read_back(row: AuditRow, details: Option<Json>, x: AuditLogEntry)
    requires
        row.id == x.id,
        Timestamp::parsed(row.timestamp@) == Some(x.timestamp),
        row.user_id == x.user_id,
        row.action == x.action,
        row.resource == x.resource,
        row.result == x.result,
        row.ip_address == x.ip_address,
        details == x.details,
    ensures
        row_audit_entry(row, details) == Ok::<AuditLogEntry, BadColumn>(x),
{
}

/// An audit entry is refused for a moment that cannot be read, and for nothing
/// else; the refusal names the first such column.
pub proof fn law_audit_entry_needs_its_moments(row: AuditRow, details: Option<Json>)
    ensures
        Timestamp::parsed(row.timestamp@) is None ==> row_audit_entry(row, details) == Err::<AuditLogEntry, BadColumn>(
            BadColumn { column: 1 },
        ),
        Timestamp::parsed(row.timestamp@) is Some ==> row_audit_entry(row, details) is Ok,
{
}

/// A row that holds a tenant column by column is read back as it.
pub proof fn law_tenant_is_read_back(row: TenantRow, x: Tenant)
    requires
        row.id == x.id,
        row.name == x.name,
        row.owner == x.owner,
        Timestamp::parsed(row.created_at@) == Some(x.created_at),
        Timestamp::parsed(row.updated_at@) == Some(x.updated_at),
        row.is_active == if x.is_active {
            1int
        } else {
            0int
        },
    ensures
        row_tenant(row) == Ok::<Tenant, BadColumn>(x),
{
}

/// A tenant is refused for a moment that cannot be read, and for nothing
/// else; the refusal names the first such column.
pub proof fn law_tenant_needs_its_moments(row: TenantRow)
    ensures
        Timestamp::parsed(row.created_at@) is None ==> row_tenant(row) == Err::<Tenant, BadColumn>(
            BadColumn { column: 3 },
        ),
        Timestamp::parsed(row.created_at@) is Some && Timestamp::parsed(row.updated_at@) is None ==> row_tenant(row) == Err::<Tenant, BadColumn>(
            BadColumn { column: 4 },
        ),
        Timestamp::parsed(row.created_at@) is Some && Timestamp::parsed(row.updated_at@) is Some ==> row_tenant(row) is Ok,
{
}

/// A row that holds a presence column by column is read back as it.
pub proof fn law_presence_is_read_back(row: PresenceRow, x: UserPresence)
    requires
        row.user_id == x.user_id,
        row.vault_id == x.vault_id,
        row.status == x.status,
        Timestamp::parsed(row.last_seen@) == Some(x.last_seen),
        row.session_id == x.session_id,
    ensures
        row_presence(row) == Ok::<UserPresence, BadColumn>(x),
{
}

/// A presence is refused for a moment that cannot be read, and for nothing
/// else; the refusal names the first such column.
pub proof fn law_presence_needs_its_moments(row: PresenceRow)
    ensures
        Timestamp::parsed(row.last_seen@) is None ==> row_presence(row) == Err::<UserPresence, BadColumn>(
            BadColumn { column: 3 },
        ),
        Timestamp::parsed(row.last_seen@) is Some ==> row_presence(row) is Ok,
{
}

/// A row that holds a retention policy column by column is read back as it.
pub proof fn law_retention_policy_is_read_back(row: RetentionPolicyRow, x: DataRetentionPolicy)
    requires
        row.data_type == x.data_type,
        row.retention_days == x.retention_days,
        row.enabled == if x.enabled {
            1int
        } else {
            0int
        },
        row.description == x.description,
        Timestamp::parsed(row.created_at@) == Some(x.created_at),
        Timestamp::parsed(row.updated_at@) == Some(x.updated_at),
    ensures
        row_retention_policy(row) == Ok::<DataRetentionPolicy, BadColumn>(x),
{
}

/// A retention policy is refused for a moment that cannot be read, and for nothing
/// else; the refusal names the first such column.
pub proof fn law_retention_policy_needs_its_moments(row: RetentionPolicyRow)
    ensures
        Timestamp::parsed(row.created_at@) is None ==> row_retention_policy(row) == Err::<DataRetentionPolicy, BadColumn>(
            BadColumn { column: 4 },
        ),
        Timestamp::parsed(row.created_at@) is Some && Timestamp::parsed(row.updated_at@) is None ==> row_retention_policy(row) == Err::<DataRetentionPolicy, BadColumn>(
            BadColumn { column: 5 },
        ),
        Timestamp::parsed(row.created_at@) is Some && Timestamp::parsed(row.updated_at@) is Some ==> row_retention_policy(row) is Ok,
{
}

/// A row that holds an exception from retention column by column is read back as it.
pub proof fn law_retention_exception_is_read_back(row: RetentionExceptionRow, x: RetentionException)
    requires
        row.id == x.id,
        row.data_type == x.data_type,
        row.record_id == x.record_id,
        row.reason == x.reason,
        x.expires_at is None ==> row.expires_at is None,
        x.expires_at is Some ==> row.expires_at is Some && Timestamp::parsed(row.expires_at->0@) == x.expires_at,
        Timestamp::parsed(row.created_at@) == Some(x.created_at),
        row.created_by == x.created_by,
    ensures
        row_retention_exception(row) == Ok::<RetentionException, BadColumn>(x),
{
}

/// An exception from retention is refused for a moment that cannot be read, and for nothing
/// else; the refusal names the first such column.
pub proof fn law_retention_exception_needs_its_moments(row: RetentionExceptionRow)
    ensures
        Timestamp::parsed(row.created_at@) is None ==> row_retention_exception(row) == Err::<RetentionException, BadColumn>(
            BadColumn { column: 5 },
        ),
        Timestamp::parsed(row.created_at@) is Some ==> row_retention_exception(row) is Ok,
{
}

/// A row that holds an entry of the deletion log column by column is read back as it.
pub proof fn law_deletion_log_is_read_back(row: DeletionLogRow, details: Option<Json>, x: RetentionDeletionLog)
    requires
        row.id == x.id,
        row.data_type == x.data_type,
        x.deleted_rows <= i64::MAX,
        row.deleted_rows == x.deleted_rows,
        Timestamp::parsed(row.purged_at@) == Some(x.purged_at),
        row.actor == x.actor,
        details == x.details,
    ensures
        row_deletion_log(row, details) == Ok::<RetentionDeletionLog, BadColumn>(x),
{
}

/// An entry of the deletion log is refused for a moment that cannot be read, and for nothing
/// else; the refusal names the first such column.
pub proof fn law_deletion_log_needs_its_moments(row: DeletionLogRow, details: Option<Json>)
    ensures
        Timestamp::parsed(row.purged_at@) is None ==> row_deletion_log(row, details) == Err::<RetentionDeletionLog, BadColumn>(
            BadColumn { column: 3 },
        ),
        Timestamp::parsed(row.purged_at@) is Some ==> row_deletion_log(row, details) is Ok,
{
}

/// A row that holds a key version column by column is read back as it.
pub proof fn law_key_version_is_read_back(row: KeyVersionRow, x: EncryptionKeyInfo)
    requires
        row.version == x.version,
        row.status@ == x.status.stored_text(),
        Timestamp::parsed(row.created_at@) == Some(x.created_at),
        x.rotated_at is None ==> row.rotated_at is None,
        x.rotated_at is Some ==> row.rotated_at is Some && Timestamp::parsed(row.rotated_at->0@) == x.rotated_at,
    ensures
        row_key_version(row) == Ok::<EncryptionKeyInfo, BadColumn>(x),
{
    crate::records::law_key_status_round_trip(x.status);
}

/// A key version is refused for a moment that cannot be read, and for nothing
/// else; the refusal names the first such column.
pub proof fn law_key_version_needs_its_moments(row: KeyVersionRow)
    ensures
        Timestamp::parsed(row.created_at@) is None ==> row_key_version(row) == Err::<EncryptionKeyInfo, BadColumn>(
            BadColumn { column: 2 },
        ),
        Timestamp::parsed(row.created_at@) is Some ==> row_key_version(row) is Ok,
{
}

/// A row that holds a rotation policy column by column is read back as it.
pub proof fn law_rotation_policy_is_read_back(row: RotationPolicyRow, x: SecretRotationPolicy)
    requires
        row.secret_type == x.secret_type,
        row.rotation_interval_days == x.rotation_interval_days,
        row.grace_period_hours == x.grace_period_hours,
        row.auto_rotate == if x.auto_rotate {
            1int
        } else {
            0int
        },
        row.notify_channels == x.notify_channels,
        Timestamp::parsed(row.created_at@) == Some(x.created_at),
        Timestamp::parsed(row.updated_at@) == Some(x.updated_at),
    ensures
        row_rotation_policy(row) == Ok::<SecretRotationPolicy, BadColumn>(x),
{
}

/// A rotation policy is refused for a moment that cannot be read, and for nothing
/// else; the refusal names the first such column.
pub proof fn law_rotation_policy_needs_its_moments(row: RotationPolicyRow)
    ensures
        Timestamp::parsed(row.created_at@) is None ==> row_rotation_policy(row) == Err::<SecretRotationPolicy, BadColumn>(
            BadColumn { column: 5 },
        ),
        Timestamp::parsed(row.created_at@) is Some && Timestamp::parsed(row.updated_at@) is None ==> row_rotation_policy(row) == Err::<SecretRotationPolicy, BadColumn>(
            BadColumn { column: 6 },
        ),
        Timestamp::parsed(row.created_at@) is Some && Timestamp::parsed(row.updated_at@) is Some ==> row_rotation_policy(row) is Ok,
{
}

/// A row that holds an entry of the rotation log column by column is read back as it.
pub proof fn law_rotation_log_is_read_back(row: RotationLogRow, x: SecretRotationLog)
    requires
        row.id == x.id,
        row.secret_type == x.secret_type,
        Timestamp::parsed(row.rotated_at@) == Some(x.rotated_at),
        row.actor == x.actor,
        row.grace_period_active == if x.grace_period_active {
            1int
        } else {
            0int
        },
        x.grace_period_ends_at is None ==> row.grace_period_ends_at is None,
        x.grace_period_ends_at is Some ==> row.grace_period_ends_at is Some && Timestamp::parsed(row.grace_period_ends_at->0@) == x.grace_period_ends_at,
        row.notes == x.notes,
    ensures
        row_rotation_log(row) == Ok::<SecretRotationLog, BadColumn>(x),
{
}

/// An entry of the rotation log is refused for a moment that cannot be read, and for nothing
/// else; the refusal names the first such column.
pub proof fn law_rotation_log_needs_its_moments(row: RotationLogRow)
    ensures
        Timestamp::parsed(row.rotated_at@) is None ==> row_rotation_log(row) == Err::<SecretRotationLog, BadColumn>(
            BadColumn { column: 2 },
        ),
        Timestamp::parsed(row.rotated_at@) is Some ==> row_rotation_log(row) is Ok,
{
}

/// A row that holds a feature flag column by column is read back as it.
pub proof fn law_flag_is_read_back(row: FlagRow, x: FeatureFlag)
    requires
        row.key == x.key,
        row.description == x.description,
        row.enabled == if x.enabled {
            1int
        } else {
            0int
        },
        row.rollout_percentage == x.rollout_percentage,
        row.version == x.version,
        Timestamp::parsed(row.created_at@) == Some(x.created_at),
        Timestamp::parsed(row.updated_at@) == Some(x.updated_at),
    ensures
        row_flag(row) == Ok::<FeatureFlag, BadColumn>(x),
{
}

/// A feature flag is refused for a moment that cannot be read, and for nothing
/// else; the refusal names the first such column.
pub proof fn law_flag_needs_its_moments(row: FlagRow)
    ensures
        Timestamp::parsed(row.created_at@) is None ==> row_flag(row) == Err::<FeatureFlag, BadColumn>(
            BadColumn { column: 5 },
        ),
        Timestamp::parsed(row.created_at@) is Some && Timestamp::parsed(row.updated_at@) is None ==> row_flag(row) == Err::<FeatureFlag, BadColumn>(
            BadColumn { column: 6 },
        ),
        Timestamp::parsed(row.created_at@) is Some && Timestamp::parsed(row.updated_at@) is Some ==> row_flag(row) is Ok,
{
}

/// A row that holds a snapshot of a flag column by column is read back as it.
pub proof fn law_snapshot_is_read_back(row: SnapshotRow, x: FlagSnapshot)
    requires
        row.version == x.version,
        row.enabled == if x.enabled {
            1int
        } else {
            0int
        },
        row.rollout_percentage == x.rollout_percentage,
        Timestamp::parsed(row.updated_at@) == Some(x.updated_at),
        row.updated_by == x.updated_by,
    ensures
        row_snapshot(row) == Ok::<FlagSnapshot, BadColumn>(x),
{
}

/// A snapshot of a flag is refused for a moment that cannot be read, and for nothing
/// else; the refusal names the first such column.
pub proof fn law_snapshot_needs_its_moments(row: SnapshotRow)
    ensures
        Timestamp::parsed(row.updated_at@) is None ==> row_snapshot(row) == Err::<FlagSnapshot, BadColumn>(
            BadColumn { column: 3 },
        ),
        Timestamp::parsed(row.updated_at@) is Some ==> row_snapshot(row) is Ok,
{
}

} // verus!
