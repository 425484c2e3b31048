//! What database rows say, and the statements that are built at run time.

use crate::clock;
use crate::clock::Timestamp;
use crate::db;
use crate::models::Vault;
use crate::text;
use crate::text::{copied, parse_signed, str_eq};
use vstd::prelude::*;
use vstd::string::*;

verus! {

/// A row with a column that cannot be read.
#[derive(Debug, Clone, Copy, PartialEq, Eq, Structural)]
pub struct BadColumn {
    pub column: usize,
}

/// An insurance against losing a vault to inactivity.
pub struct TtlInsurancePolicy {
    pub vault_id: u64,
    pub extension_seconds: u64,
    pub inactivity_threshold_seconds: u64,
    pub enabled: bool,
    pub purchased_at: Timestamp,
    pub last_extended_at: Option<Timestamp>,
}

/// A row of the table of insurance policies.
pub struct InsuranceRow {
    pub vault_id: i64,
    pub extension_seconds: i64,
    pub inactivity_threshold_seconds: i64,
    pub enabled: i64,
    pub purchased_at: String,
    pub last_extended_at: Option<String>,
}

/// The moment of an optional column: `Err` when the column holds text that
/// denotes none.
pub open spec fn optional_moment(s: Option<String>) -> Result<Option<Timestamp>, ()> {
    match s {
        None => Ok(None),
        Some(x) => match Timestamp::parsed(x@) {
            Some(t) => Ok(Some(t)),
            None => Err(()),
        },
    }
}

/// The policy that a row holds: an error when one of its moments cannot be
/// read.
pub open spec fn row_policy(row: InsuranceRow) -> Result<TtlInsurancePolicy, BadColumn> {
    match (Timestamp::parsed(row.purchased_at@), optional_moment(row.last_extended_at)) {
        (Some(purchased_at), Ok(last_extended_at)) => Ok(
            TtlInsurancePolicy {
                vault_id: row.vault_id as u64,
                extension_seconds: row.extension_seconds as u64,
                inactivity_threshold_seconds: row.inactivity_threshold_seconds as u64,
                enabled: row.enabled != 0,
                purchased_at,
                last_extended_at,
            },
        ),
        _ => Err(BadColumn { column: 0 }),
    }
}

/// The policy that a row holds.
pub fn policy_from_row(row: &InsuranceRow) -> (r: Result<TtlInsurancePolicy, BadColumn>)
    ensures
        r == row_policy(*row),
{
    let purchased_at = match Timestamp::parse_rfc3339(row.purchased_at.as_str()) {
        Some(t) => t,
        None => {
            return Err(BadColumn { column: 0 });
        },
    };
    let last_extended_at = match &row.last_extended_at {
        Some(s) => match Timestamp::parse_rfc3339(s.as_str()) {
            Some(t) => Some(t),
            None => {
                return Err(BadColumn { column: 0 });
            },
        },
        None => None,
    };
    Ok(
        TtlInsurancePolicy {
            vault_id: row.vault_id as u64,
            extension_seconds: row.extension_seconds as u64,
            inactivity_threshold_seconds: row.inactivity_threshold_seconds as u64,
            enabled: row.enabled != 0,
            purchased_at,
            last_extended_at,
        },
    )
}

/// Whether RFC 3339 can write the moments of a policy.
pub open spec fn policy_writable(p: TtlInsurancePolicy) -> bool {
    &&& clock::four_digit_year(p.purchased_at.secs, p.purchased_at.nanos)
    &&& p.last_extended_at is Some ==> clock::four_digit_year(
        p.last_extended_at->0.secs,
        p.last_extended_at->0.nanos,
    )
}

/// The row that holds a policy. A policy whose moments lie in the years 0 to
/// 9999 is read back from it unchanged.
pub fn policy_row(p: &TtlInsurancePolicy) -> (r: InsuranceRow)
    ensures
        r.vault_id == p.vault_id as i64,
        r.extension_seconds == p.extension_seconds as i64,
        r.inactivity_threshold_seconds == p.inactivity_threshold_seconds as i64,
        r.enabled == if p.enabled {
            1i64
        } else {
            0i64
        },
        r.purchased_at@ == p.purchased_at.rfc3339(),
        optional_text(r.last_extended_at) == optional_stamp(p.last_extended_at),
        policy_writable(*p) ==> row_policy(r) == Ok::<TtlInsurancePolicy, BadColumn>(*p),
{
    let a: u64 = p.vault_id;
    let b: u64 = p.extension_seconds;
    let c: u64 = p.inactivity_threshold_seconds;
    proof {
        lemma_sign_round_trip(a);
        lemma_sign_round_trip(b);
        lemma_sign_round_trip(c);
    }
    let last = match p.last_extended_at {
        Some(t) => Some(t.to_rfc3339()),
        None => None,
    };
    InsuranceRow {
        vault_id: a as i64,
        extension_seconds: b as i64,
        inactivity_threshold_seconds: c as i64,
        enabled: if p.enabled {
            1
        } else {
            0
        },
        purchased_at: p.purchased_at.to_rfc3339(),
        last_extended_at: last,
    }
}

/// An unsigned number survives being stored as a signed one.
pub proof fn lemma_sign_round_trip(x: u64)
    ensures
        (x as i64) as u64 == x,
{
    assert((x as i64) as u64 == x) by (bit_vector);
}

/// A row of the table of vaults.
pub struct VaultRow {
    pub id: String,
    pub owner: String,
    pub beneficiary: String,
    pub balance: String,
    pub check_in_interval: i64,
    pub last_check_in: String,
    pub created_at: String,
    pub status: String,
    pub ttl_remaining: Option<i64>,
}

/// The balance that a column holds; zero where it holds no integer of 128
/// bits.
pub open spec fn column_balance(s: Seq<char>) -> i128 {
    match text::signed_value(s) {
        Some(v) => if i128::MIN <= v <= i128::MAX {
            v as i128
        } else {
            0
        },
        None => 0,
    }
}

/// The moment that a column holds; `now` where it holds none.
pub open spec fn column_moment(s: Seq<char>, now: Timestamp) -> Timestamp {
    match Timestamp::parsed(s) {
        Some(t) => t,
        None => now,
    }
}

/// Whether `v` is the vault that a row holds, read at `now`.
pub open spec fn row_holds(row: VaultRow, v: Vault, now: Timestamp) -> bool {
    &&& v.id@ == row.id@
    &&& v.owner@ == row.owner@
    &&& v.beneficiary@ == row.beneficiary@
    &&& v.balance == column_balance(row.balance@)
    &&& v.check_in_interval == row.check_in_interval as u64
    &&& v.last_check_in == column_moment(row.last_check_in@, now)
    &&& v.created_at == column_moment(row.created_at@, now)
    &&& v.status == db::word_status(row.status@)
    &&& v.ttl_remaining == match row.ttl_remaining {
        Some(t) => Some(t as u64),
        None => None,
    }
}

/// The vault that a row holds, read at `now`.
pub fn vault_from_row(row: VaultRow, now: Timestamp) -> (r: Vault)
    ensures
        row_holds(row, r, now),
{
    let balance: i128 = match parse_signed(row.balance.as_str()) {
        Some(v) => v,
        None => 0,
    };
    let last_check_in = match Timestamp::parse_rfc3339(row.last_check_in.as_str()) {
        Some(t) => t,
        None => now,
    };
    let created_at = match Timestamp::parse_rfc3339(row.created_at.as_str()) {
        Some(t) => t,
        None => now,
    };
    Vault {
        status: db::vault_status_from_str(row.status.as_str()),
        id: row.id,
        owner: row.owner,
        beneficiary: row.beneficiary,
        balance,
        check_in_interval: row.check_in_interval as u64,
        last_check_in,
        created_at,
        ttl_remaining: match row.ttl_remaining {
            Some(t) => Some(t as u64),
            None => None,
        },
    }
}

/// Whether RFC 3339 can write the moments of a vault.
pub open spec fn vault_writable(v: Vault) -> bool {
    &&& clock::four_digit_year(v.last_check_in.secs, v.last_check_in.nanos)
    &&& clock::four_digit_year(v.created_at.secs, v.created_at.nanos)
}

/// The row that holds a vault. A vault whose moments lie in the years 0 to
/// 9999 is read back from it unchanged, whenever that is.
pub fn vault_row(v: &Vault) -> (r: VaultRow)
    ensures
        r.id@ == v.id@,
        r.owner@ == v.owner@,
        r.beneficiary@ == v.beneficiary@,
        r.balance@ == text::decimal_int(v.balance as int),
        r.check_in_interval == v.check_in_interval as i64,
        r.last_check_in@ == v.last_check_in.rfc3339(),
        r.created_at@ == v.created_at.rfc3339(),
        r.status@ == db::status_word(v.status),
        r.ttl_remaining == (match v.ttl_remaining {
            Some(t) => Some(t as i64),
            None => None,
        }),
        vault_writable(*v) ==> forall|now: Timestamp| #[trigger] row_holds(r, *v, now),
{
    let interval: u64 = v.check_in_interval;
    let ttl: Option<i64> = match v.ttl_remaining {
        Some(t) => Some(t as i64),
        None => None,
    };
    proof {
        lemma_sign_round_trip(interval);
        if v.ttl_remaining is Some {
            lemma_sign_round_trip(v.ttl_remaining->0);
        }
        text::law_decimal_round_trip(v.balance as int);
        db::law_status_round_trip(v.status);
    }
    VaultRow {
        id: v.id.clone(),
        owner: v.owner.clone(),
        beneficiary: v.beneficiary.clone(),
        balance: text::decimal_int_text(v.balance),
        check_in_interval: interval as i64,
        last_check_in: v.last_check_in.to_rfc3339(),
        created_at: v.created_at.to_rfc3339(),
        status: db::vault_status_to_str(&v.status).to_owned(),
        ttl_remaining: ttl,
    }
}

/// The nanoseconds from `earlier` to `later`; negative when `later` comes
/// first.
pub open spec fn nanos_between(earlier: Timestamp, later: Timestamp) -> int {
    (later.secs - earlier.secs) * 1_000_000_000 + (later.nanos - earlier.nanos)
}

/// Whether an answer that was stored for repeats of a request at `created` is
/// still given at `now`: for a day, counted in whole seconds.
pub fn idempotency_alive(created: &Timestamp, now: &Timestamp) -> (r: bool)
    ensures
        r == (nanos_between(*created, *now) < 86_401 * 1_000_000_000),
{
    let secs: i128 = now.secs as i128 - created.secs as i128;
    let nanos: i128 = now.nanos as i128 - created.nanos as i128;
    secs * 1_000_000_000 + nanos < 86_401 * 1_000_000_000
}

/// When a secret has to be rotated.
pub struct RotationPolicy {
    pub rotation_interval_days: u32,
}

/// The latest rotation of a secret.
pub struct Rotation {
    pub rotated_at: Timestamp,
    pub grace_period_active: bool,
    pub grace_period_ends_at: Option<Timestamp>,
}

/// How things stand with the rotation of a secret.
#[derive(Debug, Clone, Copy, PartialEq, Eq)]
pub struct RotationStatus {
    pub last_rotated_at: Option<Timestamp>,
    pub next_rotation_due: Option<Timestamp>,
    pub is_overdue: bool,
    pub grace_period_active: bool,
    pub grace_period_ends_at: Option<Timestamp>,
}

/// The moment `days` days later.
pub open spec fn days_later(t: Timestamp, days: u32) -> Timestamp {
    Timestamp { secs: (t.secs + days * 86_400) as i64, nanos: t.nanos }
}

/// When the next rotation is due: an interval after the latest one.
pub open spec fn next_due(policy: Option<RotationPolicy>, last: Option<Rotation>) -> Option<
    Timestamp,
> {
    match (policy, last) {
        (Some(p), Some(l)) => Some(days_later(l.rotated_at, p.rotation_interval_days)),
        _ => None,
    }
}

/// Whether a rotation is overdue at `now`: the due date has passed, or there
/// is an interval to keep and there was no rotation at all.
pub open spec fn overdue(
    policy: Option<RotationPolicy>,
    last: Option<Rotation>,
    now: Timestamp,
) -> bool {
    match (policy, last) {
        (Some(p), Some(l)) => days_later(l.rotated_at, p.rotation_interval_days).before(now),
        (Some(p), None) => p.rotation_interval_days > 0,
        (None, _) => false,
    }
}

/// How things stand at `now` with the rotation of a secret.
pub fn rotation_status(
    policy: &Option<RotationPolicy>,
    last: &Option<Rotation>,
    now: Timestamp,
) -> (r: RotationStatus)
    requires
        policy is Some && last is Some ==> last->0.rotated_at.secs
            + policy->0.rotation_interval_days * 86_400 <= i64::MAX,
    ensures
        r.last_rotated_at == (match *last {
            Some(l) => Some(l.rotated_at),
            None => None,
        }),
        r.next_rotation_due == next_due(*policy, *last),
        r.is_overdue == overdue(*policy, *last, now),
        r.grace_period_active == match *last {
            Some(l) => l.grace_period_active && l.grace_period_ends_at is Some && now.before(
                l.grace_period_ends_at->0,
            ),
            None => false,
        },
        r.grace_period_ends_at == match *last {
            Some(l) => l.grace_period_ends_at,
            None => None,
        },
{
    let due: Option<Timestamp>;
    let late: bool;
    match policy {
        Some(p) => match last {
            Some(l) => {
                let next = Timestamp {
                    secs: l.rotated_at.secs + p.rotation_interval_days as i64 * 86_400,
                    nanos: l.rotated_at.nanos,
                };
                due = Some(next);
                late = next.is_before(&now);
            },
            None => {
                due = None;
                late = p.rotation_interval_days > 0;
            },
        },
        None => {
            due = None;
            late = false;
        },
    }
    match last {
        Some(l) => {
            let active: bool = match l.grace_period_ends_at {
                Some(end) => l.grace_period_active && now.is_before(&end),
                None => false,
            };
            RotationStatus {
                last_rotated_at: Some(l.rotated_at),
                next_rotation_due: due,
                is_overdue: late,
                grace_period_active: active,
                grace_period_ends_at: l.grace_period_ends_at,
            }
        },
        None => RotationStatus {
            last_rotated_at: None,
            next_rotation_due: due,
            is_overdue: late,
            grace_period_active: false,
            grace_period_ends_at: None,
        },
    }
}

/// A switch for a feature.
pub struct FeatureFlag {
    pub key: String,
    pub description: Option<String>,
    pub enabled: bool,
    pub rollout_percentage: u8,
    pub version: u32,
    pub created_at: Timestamp,
    pub updated_at: Timestamp,
}

/// A request to create or change a feature flag.
pub struct UpsertFlagRequest {
    pub key: String,
    pub description: Option<String>,
    pub enabled: bool,
    pub rollout_percentage: u8,
    pub updated_by: Option<String>,
}

/// The flag that a request at `now` leads to: a new flag of version one, or
/// the next version of an existing flag, which keeps its creation date and,
/// where the request has none, its description.
pub fn upserted_flag(existing: &Option<FeatureFlag>, req: &UpsertFlagRequest, now: Timestamp) -> (r:
    FeatureFlag)
    requires
        existing is Some ==> existing->0.version < u32::MAX,
    ensures
        r.key == req.key,
        r.enabled == req.enabled,
        r.rollout_percentage == req.rollout_percentage,
        r.updated_at == now,
        match *existing {
            Some(e) => {
                &&& r.version == e.version + 1
                &&& r.created_at == e.created_at
                &&& r.description == if req.description is Some {
                    req.description
                } else {
                    e.description
                }
            },
            None => {
                &&& r.version == 1
                &&& r.created_at == now
                &&& r.description == req.description
            },
        },
{
    match existing {
        Some(e) => {
            let description = match &req.description {
                Some(d) => Some(d.clone()),
                None => match &e.description {
                    Some(d) => Some(d.clone()),
                    None => None,
                },
            };
            FeatureFlag {
                key: req.key.clone(),
                description,
                enabled: req.enabled,
                rollout_percentage: req.rollout_percentage,
                version: e.version + 1,
                created_at: e.created_at,
                updated_at: now,
            }
        },
        None => {
            let description = match &req.description {
                Some(d) => Some(d.clone()),
                None => None,
            };
            FeatureFlag {
                key: req.key.clone(),
                description,
                enabled: req.enabled,
                rollout_percentage: req.rollout_percentage,
                version: 1,
                created_at: now,
                updated_at: now,
            }
        },
    }
}

/// What to look for in the audit log.
pub struct AuditLogQuery {
    pub user_id: Option<String>,
    pub action: Option<String>,
    pub resource: Option<String>,
    pub result: Option<String>,
    pub after: Option<Timestamp>,
    pub before: Option<Timestamp>,
    pub limit: Option<u32>,
    pub offset: Option<u32>,
}

/// A parameter of a statement.
pub enum SqlParam {
    Text(String),
    Int(u32),
}

/// A parameter of a statement.
pub enum ParamValue {
    Text(Seq<char>),
    Int(u32),
}

impl View for SqlParam {
    type V = ParamValue;

    open spec fn view(&self) -> ParamValue {
        match *self {
            SqlParam::Text(s) => ParamValue::Text(s@),
            SqlParam::Int(n) => ParamValue::Int(n),
        }
    }
}

/// The parameters of a statement.
pub open spec fn param_values(p: Seq<SqlParam>) -> Seq<ParamValue> {
    Seq::new(p.len(), |i: int| p[i]@)
}

/// A statement under construction: its text and its parameters.
pub struct Statement {
    pub sql: Seq<char>,
    pub params: Seq<ParamValue>,
}

impl Statement {
    /// The statement with one more condition, where there is a value for it.
    pub open spec fn narrowed(self, condition: Seq<char>, value: Option<Seq<char>>) -> Statement {
        match value {
            Some(v) => Statement {
                sql: self.sql + condition,
                params: self.params.push(ParamValue::Text(v)),
            },
            None => self,
        }
    }
}

/// The characters of an optional text.
pub open spec fn optional_text(s: Option<String>) -> Option<Seq<char>> {
    match s {
        Some(x) => Some(x@),
        None => None,
    }
}

/// The RFC 3339 text of an optional moment.
pub open spec fn optional_stamp(t: Option<Timestamp>) -> Option<Seq<char>> {
    match t {
        Some(x) => Some(x.rfc3339()),
        None => None,
    }
}

/// The statement that looks for audit entries: a condition for each criterion
/// that is given, the latest entries first, a hundred from the start on unless
/// the query says otherwise.
pub open spec fn audit_statement(q: AuditLogQuery) -> Statement {
    let conditions = (Statement {
        sql: "SELECT id, timestamp, user_id, action, resource, result, ip_address, details FROM audit_logs WHERE 1=1"@,
        params: Seq::empty(),
    }).narrowed(" AND user_id = ?"@, optional_text(q.user_id)).narrowed(
        " AND action = ?"@,
        optional_text(q.action),
    ).narrowed(" AND resource = ?"@, optional_text(q.resource)).narrowed(
        " AND result = ?"@,
        optional_text(q.result),
    ).narrowed(" AND timestamp >= ?"@, optional_stamp(q.after)).narrowed(
        " AND timestamp <= ?"@,
        optional_stamp(q.before),
    );
    Statement {
        sql: conditions.sql + " ORDER BY timestamp DESC"@ + " LIMIT ? OFFSET ?"@,
        params: conditions.params.push(
            ParamValue::Int(
                match q.limit {
                    Some(n) => n,
                    None => 100,
                },
            ),
        ).push(
            ParamValue::Int(
                match q.offset {
                    Some(n) => n,
                    None => 0,
                },
            ),
        ),
    }
}

/// Adds a condition where there is a value for it.
fn narrow(sql: &mut String, params: &mut Vec<SqlParam>, condition: &str, value: Option<String>)
    ensures
        (Statement { sql: final(sql)@, params: param_values(final(params)@) }) == (Statement {
            sql: old(sql)@,
            params: param_values(old(params)@),
        }).narrowed(condition@, optional_text(value)),
{
    match value {
        Some(v) => {
            sql.append(condition);
            let ghost said = v@;
            params.push(SqlParam::Text(v));
            assert(param_values(params@) =~= param_values(old(params)@).push(
                ParamValue::Text(said),
            ));
        },
        None => {},
    }
}

/// The RFC 3339 text of an optional moment.
fn stamped(t: &Option<Timestamp>) -> (r: Option<String>)
    ensures
        optional_text(r) == optional_stamp(*t),
{
    match t {
        Some(x) => Some(x.to_rfc3339()),
        None => None,
    }
}

/// The statement that looks for audit entries, with its parameters.
pub fn audit_query(query: &AuditLogQuery) -> (r: (String, Vec<SqlParam>))
    ensures
        (Statement { sql: r.0@, params: param_values(r.1@) }) == audit_statement(*query),
{
    let mut sql =
        "SELECT id, timestamp, user_id, action, resource, result, ip_address, details FROM audit_logs WHERE 1=1".to_owned();
    let mut params: Vec<SqlParam> = Vec::new();
    assert(param_values(params@) =~= Seq::<ParamValue>::empty());
    narrow(&mut sql, &mut params, " AND user_id = ?", copied(&query.user_id));
    narrow(&mut sql, &mut params, " AND action = ?", copied(&query.action));
    narrow(&mut sql, &mut params, " AND resource = ?", copied(&query.resource));
    narrow(&mut sql, &mut params, " AND result = ?", copied(&query.result));
    narrow(&mut sql, &mut params, " AND timestamp >= ?", stamped(&query.after));
    narrow(&mut sql, &mut params, " AND timestamp <= ?", stamped(&query.before));
    sql.append(" ORDER BY timestamp DESC");
    sql.append(" LIMIT ? OFFSET ?");
    let limit: u32 = match query.limit {
        Some(n) => n,
        None => 100,
    };
    let offset: u32 = match query.offset {
        Some(n) => n,
        None => 0,
    };
    let ghost before = param_values(params@);
    params.push(SqlParam::Int(limit));
    params.push(SqlParam::Int(offset));
    assert(param_values(params@) =~= before.push(ParamValue::Int(limit)).push(
        ParamValue::Int(offset),
    ));
    (sql, params)
}

/// The statement that deletes old records of a table, save those with an
/// exception that is in force.
pub fn purge_statement(table: &str, id_col: &str, timestamp_col: &str) -> (r: String)
    ensures
        r@ == "DELETE FROM "@ + table@ + " WHERE "@ + timestamp_col@ + " < ?1 AND "@ + id_col@
            + " NOT IN ( SELECT record_id FROM retention_exceptions WHERE data_type = ?2 AND (expires_at IS NULL OR expires_at > ?3) )"@,
{
    let mut out = "DELETE FROM ".to_owned();
    out.append(table);
    out.append(" WHERE ");
    out.append(timestamp_col);
    out.append(" < ?1 AND ");
    out.append(id_col);
    out.append(
        " NOT IN ( SELECT record_id FROM retention_exceptions WHERE data_type = ?2 AND (expires_at IS NULL OR expires_at > ?3) )",
    );
    out
}

/// Which of the known migrations are still to be applied: those whose version
/// is not among the applied ones, in order.
pub fn pending_migrations(known: &Vec<String>, applied: &Vec<String>) -> (r: Vec<usize>)
    ensures
        forall|i: int, j: int| 0 <= i < j < r@.len() ==> r@[i] < r@[j],
        forall|k: int|
            0 <= k < r@.len() ==> (#[trigger] r@[k]) < known@.len() && !text::texts(
                applied@,
            ).contains(known@[r@[k] as int]@),
        forall|i: int|
            0 <= i < known@.len() && !text::texts(applied@).contains(known@[i]@) ==> r@.contains(
                i as usize,
            ),
{
    let mut out: Vec<usize> = Vec::new();
    let mut i: usize = 0;
    while i < known.len()
        invariant
            i <= known.len(),
            forall|a: int, b: int| 0 <= a < b < out@.len() ==> out@[a] < out@[b],
            forall|k: int|
                0 <= k < out@.len() ==> (#[trigger] out@[k]) < i && !text::texts(
                    applied@,
                ).contains(known@[out@[k] as int]@),
            forall|k: int|
                0 <= k < i && !text::texts(applied@).contains(known@[k]@) ==> out@.contains(
                    k as usize,
                ),
        decreases known.len() - i,
    {
        let ghost before = out@;
        if !listed(applied, known[i].as_str()) {
            out.push(i);
            assert(out@.last() == i);
        }
        proof {
            assert forall|k: int|
                0 <= k < i + 1 && !text::texts(applied@).contains(known@[k]@) implies out@.contains(
                k as usize,
            ) by {
                if k < i {
                    let j = before.index_of(k as usize);
                    assert(before[j] == k as usize);
                    assert(out@[j] == k as usize);
                } else {
                    assert(out@[out@.len() - 1] == k as usize);
                }
            }
        }
        i += 1;
    }
    out
}

/// Whether a text is in a list.
fn listed(list: &Vec<String>, s: &str) -> (r: bool)
    ensures
        r == text::texts(list@).contains(s@),
{
    let mut i: usize = 0;
    while i < list.len()
        invariant
            i <= list.len(),
            forall|j: int| 0 <= j < i ==> list@[j]@ != s@,
        decreases list.len() - i,
    {
        if str_eq(list[i].as_str(), s) {
            assert(text::texts(list@)[i as int] == s@);
            return true;
        }
        i += 1;
    }
    assert forall|j: int| 0 <= j < text::texts(list@).len() implies text::texts(list@)[j] != s@ by {
        assert(list@[j]@ != s@);
    }
    false
}

/// The beginning of a text that search results show: all of it up to 200
/// bytes, else its first 200 bytes and an ellipsis.
pub fn snippet(content: &str) -> (r: String)
    requires
        content.spec_bytes().len() > 200 ==> vstd::utf8::is_char_boundary(
            content.spec_bytes(),
            200,
        ),
    ensures
        content.spec_bytes().len() <= 200 ==> r@ == content@,
        content.spec_bytes().len() > 200 ==> r@ == vstd::utf8::decode_utf8(
            content.spec_bytes().subrange(0, 200),
        ) + "..."@,
{
    let bytes = content.as_bytes();
    if bytes.len() > 200 {
        let (head, _rest) = content.split_at(200);
        proof {
            vstd::utf8::encode_utf8_decode_utf8(head@);
        }
        text::joined(head, "...")
    } else {
        content.to_owned()
    }
}

/// Where a version of the encryption key stands.
#[derive(Debug, Clone, Copy, PartialEq, Eq, Structural)]
pub enum EncryptionKeyStatus {
    Active,
    Retiring,
    Retired,
}

impl EncryptionKeyStatus {
    /// The text of a status in a stored row.
    pub open spec fn stored_text(self) -> Seq<char> {
        match self {
            EncryptionKeyStatus::Active => "active"@,
            EncryptionKeyStatus::Retiring => "retiring"@,
            EncryptionKeyStatus::Retired => "retired"@,
        }
    }

    /// The text of a status in a stored row.
    pub fn to_stored(&self) -> (r: &'static str)
        ensures
            r@ == self.stored_text(),
    {
        match self {
            EncryptionKeyStatus::Active => "active",
            EncryptionKeyStatus::Retiring => "retiring",
            EncryptionKeyStatus::Retired => "retired",
        }
    }

    /// The status that a stored text stands for; one that is not known counts
    /// as retired.
    pub open spec fn of_stored(s: Seq<char>) -> EncryptionKeyStatus {
        if s == "active"@ {
            EncryptionKeyStatus::Active
        } else if s == "retiring"@ {
            EncryptionKeyStatus::Retiring
        } else {
            EncryptionKeyStatus::Retired
        }
    }

    /// The status that a stored text stands for.
    pub fn from_stored(s: &str) -> (r: Self)
        ensures
            r == Self::of_stored(s@),
    {
        if str_eq(s, "active") {
            EncryptionKeyStatus::Active
        } else if str_eq(s, "retiring") {
            EncryptionKeyStatus::Retiring
        } else {
            EncryptionKeyStatus::Retired
        }
    }
}

/// A status that is stored is read back.
pub proof fn law_key_status_round_trip(status: EncryptionKeyStatus)
    ensures
        EncryptionKeyStatus::of_stored(status.stored_text()) == status,
{
    reveal_strlit("active");
    reveal_strlit("retiring");
    reveal_strlit("retired");
    assert("active"@.len() == 6);
    assert("retiring"@.len() == 8);
    assert("retired"@.len() == 7);
}

/// The moment before which records of the given age are old: `days` days before
/// `now`.
pub fn retention_cutoff(now: Timestamp, days: u32) -> (r: Timestamp)
    requires
        now.secs - days * 86_400 >= i64::MIN,
    ensures
        r.secs == now.secs - days * 86_400,
        r.nanos == now.nanos,
{
    Timestamp { secs: now.secs - days as i64 * 86_400, nanos: now.nanos }
}

/// The moment before which audit entries, or the answers kept for repeats of a
/// request, are old: `days` days before `now`. A negative number of days gives a
/// moment to come.
pub fn audit_cutoff(now: Timestamp, days: i64) -> (r: Timestamp)
    requires
        i64::MIN <= now.secs - days * 86_400 <= i64::MAX,
    ensures
        r.secs == now.secs - days * 86_400,
        r.nanos == now.nanos,
{
    let secs: i128 = now.secs as i128 - days as i128 * 86_400;
    Timestamp { secs: secs as i64, nanos: now.nanos }
}

/// The statement that lists what was deleted, the latest first: for one type of
/// data, which is its parameter, or for all.
pub fn deletion_log_statement(for_type: bool, limit: u32) -> (r: String)
    ensures
        r@ == "SELECT id, data_type, deleted_rows, purged_at, actor, details FROM retention_deletion_log"@
            + (if for_type {
            " WHERE data_type = ?1"@
        } else {
            ""@
        }) + " ORDER BY purged_at DESC LIMIT "@ + text::decimal(limit as nat),
{
    let mut out =
        "SELECT id, data_type, deleted_rows, purged_at, actor, details FROM retention_deletion_log".to_owned();
    let condition: &str = if for_type {
        " WHERE data_type = ?1"
    } else {
        ""
    };
    out.append(condition);
    let number = text::decimal_text(limit as u128);
    out.append(" ORDER BY purged_at DESC LIMIT ");
    out.append(number.as_str());
    out
}

/// The pattern that matches every text in which `query` occurs.
pub fn search_pattern(query: &str) -> (r: String)
    ensures
        r@ == "%"@ + query@ + "%"@,
{
    let mut out = "%".to_owned();
    out.append(query);
    out.append("%");
    out
}

/// A violation of a foreign key, in words.
pub fn violation_text(table: &str, rowid: i64, parent: &str, fkid: i64) -> (r: String)
    ensures
        r@ == "table="@ + table@ + " rowid="@ + text::decimal_int(rowid as int) + " parent="@
            + parent@ + " fkid="@ + text::decimal_int(fkid as int),
{
    let row = text::decimal_int_text(rowid as i128);
    let key = text::decimal_int_text(fkid as i128);
    let mut out = "table=".to_owned();
    out.append(table);
    out.append(" rowid=");
    out.append(row.as_str());
    out.append(" parent=");
    out.append(parent);
    out.append(" fkid=");
    out.append(key.as_str());
    out
}

/// A key is overdue once the moment is past the last rotation by more than the
/// interval in days; with a policy and no rotation it is overdue unless the interval
/// is nothing, and without a policy never.
pub proof fn law_rotation_is_due_after_its_interval(p: RotationPolicy, l: Rotation, now: Timestamp)
    requires
        -1_000_000_000_000 <= l.rotated_at.secs <= 1_000_000_000_000,
    ensures
        next_due(Some(p), Some(l)) is Some,
        next_due(Some(p), Some(l))->0.secs == l.rotated_at.secs + 86_400 * p.rotation_interval_days,
        next_due(Some(p), Some(l))->0.nanos == l.rotated_at.nanos,
        next_due(None, Some(l)) is None,
        next_due(Some(p), None) is None,
        now.secs - l.rotated_at.secs > 86_400 * p.rotation_interval_days ==> overdue(
            Some(p),
            Some(l),
            now,
        ),
        now.secs - l.rotated_at.secs < 86_400 * p.rotation_interval_days ==> !overdue(
            Some(p),
            Some(l),
            now,
        ),
        now.secs - l.rotated_at.secs == 86_400 * p.rotation_interval_days ==> (overdue(
            Some(p),
            Some(l),
            now,
        ) <==> now.nanos > l.rotated_at.nanos),
        overdue(Some(p), None, now) <==> p.rotation_interval_days > 0,
        !overdue(None, Some(l), now),
        !overdue(None, None, now),
{
}

/// A row of the insurance table is read column by column, or refused where a
/// moment in it cannot be read.
pub proof fn law_policy_is_read_from_its_row(row: InsuranceRow)
    ensures
        Timestamp::parsed(row.purchased_at@) is None ==> row_policy(row) is Err,
        row.last_extended_at is Some && Timestamp::parsed(row.last_extended_at->0@) is None
            ==> row_policy(row) is Err,
        Timestamp::parsed(row.purchased_at@) is Some && (row.last_extended_at is None
            || Timestamp::parsed(row.last_extended_at->0@) is Some) ==> row_policy(row) is Ok,
        row_policy(row) is Ok ==> {
            let p = row_policy(row)->Ok_0;
            &&& row.vault_id >= 0 ==> p.vault_id == row.vault_id
            &&& row.extension_seconds >= 0 ==> p.extension_seconds == row.extension_seconds
            &&& row.inactivity_threshold_seconds >= 0 ==> p.inactivity_threshold_seconds
                == row.inactivity_threshold_seconds
            &&& p.enabled == (row.enabled != 0)
            &&& Some(p.purchased_at) == Timestamp::parsed(row.purchased_at@)
            &&& row.last_extended_at is None ==> p.last_extended_at is None
            &&& row.last_extended_at is Some ==> p.last_extended_at == Timestamp::parsed(
                row.last_extended_at->0@,
            )
        },
{
}

/// A row of the vaults is read column by column: a balance that is no number
/// counts as nothing, and a moment that cannot be read as the present one.
pub proof fn law_vault_is_read_from_its_row(row: VaultRow, v: Vault, now: Timestamp, n: i128)
    requires
        row_holds(row, v, now),
    ensures
        v.id@ == row.id@ && v.owner@ == row.owner@ && v.beneficiary@ == row.beneficiary@,
        row.balance@ == text::decimal_int(n as int) ==> v.balance == n,
        text::signed_value(row.balance@) is None ==> v.balance == 0,
        row.check_in_interval >= 0 ==> v.check_in_interval == row.check_in_interval,
        Timestamp::parsed(row.last_check_in@) is Some ==> Some(v.last_check_in)
            == Timestamp::parsed(row.last_check_in@),
        Timestamp::parsed(row.last_check_in@) is None ==> v.last_check_in == now,
        Timestamp::parsed(row.created_at@) is Some ==> Some(v.created_at) == Timestamp::parsed(
            row.created_at@,
        ),
        Timestamp::parsed(row.created_at@) is None ==> v.created_at == now,
        v.status == db::word_status(row.status@),
        row.ttl_remaining is None ==> v.ttl_remaining is None,
        row.ttl_remaining is Some && row.ttl_remaining->0 >= 0 ==> v.ttl_remaining is Some
            && v.ttl_remaining->0 == row.ttl_remaining->0,
{
    text::law_decimal_round_trip(n as int);
}

/// The span between two moments is their difference in nanoseconds.
pub proof fn law_span_between_moments(a: Timestamp, b: Timestamp, secs: i64)
    ensures
        nanos_between(a, a) == 0,
        nanos_between(a, b) == -nanos_between(b, a),
        b.nanos == a.nanos && b.secs == a.secs + secs ==> nanos_between(a, b) == secs
            * 1_000_000_000,
{
}

/// A query of the audit log has one condition and one value for each criterion that
/// is given, in a fixed order, and ends with the size and the start of the page:
/// a hundred entries from the first on where nothing else is asked for.
pub proof fn law_audit_query_binds_what_is_asked(q: AuditLogQuery)
    ensures
        ({
            let s = audit_statement(q);
            let given = (if q.user_id is Some { 1int } else { 0 }) + (if q.action is Some {
                1int
            } else {
                0
            }) + (if q.resource is Some { 1int } else { 0 }) + (if q.result is Some {
                1int
            } else {
                0
            }) + (if q.after is Some { 1int } else { 0 }) + (if q.before is Some {
                1int
            } else {
                0
            });
            &&& s.params.len() == given + 2
            &&& s.params[given] == ParamValue::Int(
                if q.limit is Some {
                    q.limit->0
                } else {
                    100
                },
            )
            &&& s.params[given + 1] == ParamValue::Int(
                if q.offset is Some {
                    q.offset->0
                } else {
                    0
                },
            )
            &&& q.user_id is Some ==> s.params[0] == ParamValue::Text(q.user_id->0@)
            &&& q.user_id is None && q.action is Some ==> s.params[0] == ParamValue::Text(
                q.action->0@,
            )
            &&& q.user_id is None && q.action is None && q.resource is Some ==> s.params[0]
                == ParamValue::Text(q.resource->0@)
            &&& q.user_id is None && q.action is None && q.resource is None && q.result is Some
                ==> s.params[0] == ParamValue::Text(q.result->0@)
            &&& q.before is Some ==> s.params[given - 1] == ParamValue::Text(q.before->0.rfc3339())
            &&& q.before is None && q.after is Some ==> s.params[given - 1] == ParamValue::Text(
                q.after->0.rfc3339(),
            )
        }),
{
}

/// One criterion more adds its condition and its value, and one that is not given
/// adds neither.
pub proof fn law_criterion_narrows_a_statement(
    s: Statement,
    condition: Seq<char>,
    v: Seq<char>,
)
    ensures
        s.narrowed(condition, None) == s,
        s.narrowed(condition, Some(v)).sql == s.sql + condition,
        s.narrowed(condition, Some(v)).params == s.params.push(ParamValue::Text(v)),
{
}

/// A policy and a vault can be written exactly if their moments lie in the years
/// that the format can write.
pub proof fn law_writable_means_writable_moments(p: TtlInsurancePolicy, v: Vault)
    ensures
        policy_writable(p) && p.last_extended_at is None <==> p.last_extended_at is None
            && clock::four_digit_year(p.purchased_at.secs, p.purchased_at.nanos),
        policy_writable(p) && p.last_extended_at is Some ==> clock::four_digit_year(
            p.last_extended_at->0.secs,
            p.last_extended_at->0.nanos,
        ),
        vault_writable(v) <==> clock::four_digit_year(v.last_check_in.secs, v.last_check_in.nanos)
            && clock::four_digit_year(v.created_at.secs, v.created_at.nanos),
{
}

/// The words for the states of a key.
pub proof fn law_key_states_by_word(s: Seq<char>)
    ensures
        EncryptionKeyStatus::Active.stored_text() == "active"@,
        EncryptionKeyStatus::Retiring.stored_text() == "retiring"@,
        EncryptionKeyStatus::Retired.stored_text() == "retired"@,
        s != "active"@ && s != "retiring"@ ==> EncryptionKeyStatus::of_stored(s)
            == EncryptionKeyStatus::Retired,
{
}

} // verus!
