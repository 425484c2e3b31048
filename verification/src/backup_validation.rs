//! Automatic database backup validation.
//!
//! A backup is inspected in two steps: its data must begin with the SQLite
//! magic bytes, and a simulated in-memory restore must succeed.

use crate::clock::Timestamp;
use crate::text;
use vstd::prelude::*;
use vstd::string::*;

verus! {

/// Whether `data` begins as every SQLite database file does: with "SQLite".
pub open spec fn has_magic(data: Seq<u8>) -> bool {
    data.len() >= 6 && data.subrange(0, 6) == seq![83u8, 81u8, 76u8, 105u8, 116u8, 101u8]
}

/// Outcome of a single backup validation run.
pub struct BackupValidationResult {
    /// Identifier of the backup that was validated.
    pub backup_id: String,
    /// `true` iff every validation step passed.
    pub valid: bool,
    /// `true` iff the raw data passes the integrity check.
    pub integrity_ok: bool,
    /// `true` iff the simulated in-memory restore succeeded.
    pub restore_test_ok: bool,
    /// Human-readable error description when `valid` is `false`.
    pub error: Option<String>,
    /// When this validation was performed.
    pub validated_at: Timestamp,
}

/// Scheduling metadata for the periodic backup-validation job.
pub struct BackupValidationJob {
    /// Unique job identifier.
    pub id: String,
    /// When this job was scheduled to run next.
    pub scheduled_at: Timestamp,
    /// When the job last ran (`None` if it has not run yet).
    pub last_run: Option<Timestamp>,
    /// The result of the most recent validation run.
    pub last_result: Option<BackupValidationResult>,
}

/// What is wrong with a backup whose restore test ended as given; `None` when
/// nothing is.
pub open spec fn fault(data: Seq<u8>, restore: Result<(), Seq<char>>) -> Option<Seq<char>> {
    if data.len() == 0 {
        Some("backup data is empty"@)
    } else if !has_magic(data) {
        Some("backup data does not start with the SQLite magic header"@)
    } else {
        match restore {
            Ok(_) => None,
            Err(e) => Some("restore simulation failed: "@ + e),
        }
    }
}

/// Whether `r` is the verdict on a backup whose restore test ended as given.
pub open spec fn verdict(
    r: BackupValidationResult,
    backup_id: Seq<char>,
    data: Seq<u8>,
    restore: Result<(), Seq<char>>,
) -> bool {
    &&& r.backup_id@ == backup_id
    &&& r.integrity_ok == has_magic(data)
    &&& r.restore_test_ok == (has_magic(data) && restore is Ok)
    &&& r.valid == (r.integrity_ok && r.restore_test_ok)
    &&& match r.error {
        Some(e) => fault(data, restore) == Some(e@),
        None => fault(data, restore) is None,
    }
}

/// Whether `r` is the verdict on a backup, however its restore test ended.
pub open spec fn judged(r: BackupValidationResult, backup_id: Seq<char>, data: Seq<u8>) -> bool {
    exists|restore: Result<(), Seq<char>>| #[trigger] verdict(r, backup_id, data, restore)
}

/// The characters of an error text.
pub open spec fn outcome(r: Result<(), String>) -> Result<(), Seq<char>> {
    match r {
        Ok(_) => Ok(()),
        Err(e) => Err(e@),
    }
}

/// Opens an in-memory SQLite database and runs a trivial query.
///
/// Trusted: `rusqlite::Connection::open_in_memory` and `execute_batch`.
/// Nothing is claimed of the outcome, which depends on the machine.
#[verifier::external_body]
fn self_test() -> (r: Result<(), String>) {
    let conn = rusqlite::Connection::open_in_memory().map_err(|e| e.to_string())?;
    conn.execute_batch("SELECT 1;").map_err(|e| e.to_string())
}

/// Validates SQLite backup payloads.
pub struct BackupValidator;

impl BackupValidator {
    /// Create a new `BackupValidator`.
    pub fn new() -> Self {
        BackupValidator
    }

    /// Validate a single backup identified by `backup_id`: the integrity of
    /// its data, then a simulated restore.
    pub fn validate_backup(backup_id: &str, data: &[u8]) -> (r: BackupValidationResult)
        ensures
            judged(r, backup_id@, data@),
    {
        let restore = if begins_with_magic(data) {
            Self::simulate_restore(data)
        } else {
            Ok(())
        };
        let ghost seen = outcome(restore);
        let r = Self::judge(backup_id, data, restore, Timestamp::now());
        assert(verdict(r, backup_id@, data@, seen));
        r
    }

    /// The verdict at `now` on a backup whose restore test ended as given.
    pub fn judge(
        backup_id: &str,
        data: &[u8],
        restore: Result<(), String>,
        now: Timestamp,
    ) -> (r: BackupValidationResult)
        ensures
            verdict(r, backup_id@, data@, outcome(restore)),
            r.validated_at == now,
    {
        let integrity_ok: bool = begins_with_magic(data);
        let error = if data.len() == 0 {
            Some("backup data is empty".to_owned())
        } else if !integrity_ok {
            Some("backup data does not start with the SQLite magic header".to_owned())
        } else {
            match &restore {
                Ok(_) => None,
                Err(e) => Some(text::joined("restore simulation failed: ", e.as_str())),
            }
        };
        let restore_test_ok: bool = integrity_ok && restore.is_ok();
        BackupValidationResult {
            backup_id: backup_id.to_owned(),
            valid: integrity_ok && restore_test_ok,
            integrity_ok,
            restore_test_ok,
            error,
            validated_at: now,
        }
    }

    /// Validate every backup in the supplied list and return one
    /// `BackupValidationResult` per entry.
    pub fn validate_all_backups(backups: &Vec<(String, Vec<u8>)>) -> (r: Vec<
        BackupValidationResult,
    >)
        ensures
            r@.len() == backups@.len(),
            forall|i: int|
                0 <= i < r@.len() ==> judged(#[trigger] r@[i], backups@[i].0@, backups@[i].1@),
    {
        let mut out: Vec<BackupValidationResult> = Vec::new();
        let mut i: usize = 0;
        while i < backups.len()
            invariant
                i <= backups.len(),
                out@.len() == i,
                forall|j: int|
                    0 <= j < i ==> judged(#[trigger] out@[j], backups@[j].0@, backups@[j].1@),
            decreases backups.len() - i,
        {
            let one = Self::validate_backup(backups[i].0.as_str(), backups[i].1.as_slice());
            out.push(one);
            i += 1;
        }
        out
    }

    /// Open an in-memory SQLite database and run a trivial query to confirm
    /// the restore path is functional.
    fn simulate_restore(_data: &[u8]) -> Result<(), String> {
        self_test()
    }
}

impl Default for BackupValidator {
    fn default() -> Self {
        BackupValidator
    }
}

/// Whether `data` begins with the SQLite magic bytes.
fn begins_with_magic(data: &[u8]) -> (r: bool)
    ensures
        r == has_magic(data@),
{
    if data.len() < 6 {
        return false;
    }
    let r: bool = data[0] == 83 && data[1] == 81 && data[2] == 76 && data[3] == 105 && data[4] == 116
        && data[5] == 101;
    proof {
        let want = seq![83u8, 81u8, 76u8, 105u8, 116u8, 101u8];
        let head = data@.subrange(0, 6);
        if r {
            assert(head =~= want);
        } else if head == want {
            assert(head[0] == 83 && head[1] == 81 && head[2] == 76 && head[3] == 105 && head[4] == 116
                && head[5] == 101);
        }
    }
    r
}

/// A backup is valid exactly when no error is reported, and data without the
/// magic bytes is never valid, however the restore test ended.
pub proof fn law_valid_iff_no_error(
    r: BackupValidationResult,
    backup_id: Seq<char>,
    data: Seq<u8>,
    restore: Result<(), Seq<char>>,
)
    requires
        verdict(r, backup_id, data, restore),
    ensures
        r.valid <==> r.error is None,
        !has_magic(data) ==> !r.valid,
        has_magic(data) && restore is Ok ==> r.valid,
{
}

/// A backup begins with the six bytes of its format, and what does not, or is too
/// short to, is refused before a restore is tried.
pub proof fn law_backup_begins_with_its_format(
    r: BackupValidationResult,
    backup_id: Seq<char>,
    data: Seq<u8>,
    restore: Result<(), Seq<char>>,
)
    requires
        verdict(r, backup_id, data, restore),
    ensures
        r.backup_id@ == backup_id,
        data.len() < 6 ==> !r.integrity_ok && !r.valid,
        r.integrity_ok ==> data[0] == 0x53 && data[1] == 0x51 && data[2] == 0x4C && data[3] == 0x69
            && data[4] == 0x74 && data[5] == 0x65,
        data.len() >= 6 && data[0] == 0x53 && data[1] == 0x51 && data[2] == 0x4C && data[3] == 0x69
            && data[4] == 0x74 && data[5] == 0x65 ==> r.integrity_ok,
        !r.integrity_ok ==> !r.restore_test_ok,
        r.integrity_ok ==> r.restore_test_ok == restore is Ok,
        r.valid == (r.integrity_ok && r.restore_test_ok),
        data.len() == 0 ==> r.error is Some && r.error->0@ == "backup data is empty"@,
        data.len() > 0 && !r.integrity_ok ==> r.error is Some && r.error->0@
            == "backup data does not start with the SQLite magic header"@,
        r.integrity_ok && restore is Err ==> r.error is Some && r.error->0@
            == "restore simulation failed: "@ + restore->Err_0,
{
    let m = seq![83u8, 81u8, 76u8, 105u8, 116u8, 101u8];
    if data.len() >= 6 {
        let h = data.subrange(0, 6);
        assert(h[0] == data[0] && h[1] == data[1] && h[2] == data[2] && h[3] == data[3] && h[4]
            == data[4] && h[5] == data[5]);
        if data[0] == 0x53 && data[1] == 0x51 && data[2] == 0x4C && data[3] == 0x69 && data[4]
            == 0x74 && data[5] == 0x65 {
            assert(h =~= m);
        }
    }
}

} // verus!
