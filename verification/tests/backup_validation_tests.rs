use heirloom_backend::backup_validation::BackupValidator;
use heirloom_backend::clock::Timestamp;

const SQLITE_MAGIC: &[u8] = b"SQLite";

fn sqlite_magic_bytes() -> Vec<u8> {
    // A minimal, fake payload that starts with the correct magic bytes.
    let mut data = Vec::from(SQLITE_MAGIC);
    data.extend_from_slice(b" format 3\x00");
    data
}

#[test]
fn test_empty_data_fails_integrity() {
    let result = BackupValidator::validate_backup("bk1", &[]);
    assert!(!result.valid);
    assert!(!result.integrity_ok);
    assert!(!result.restore_test_ok);
    assert!(result.error.is_some());
}

#[test]
fn test_bad_magic_fails_integrity() {
    let data = b"NOTADB\x00\x00";
    let result = BackupValidator::validate_backup("bk2", data);
    assert!(!result.valid);
    assert!(!result.integrity_ok);
}

#[test]
fn test_valid_magic_passes_integrity_and_restore() {
    let data = sqlite_magic_bytes();
    let result = BackupValidator::validate_backup("bk3", &data);
    assert!(result.integrity_ok);
    assert!(result.restore_test_ok);
    assert!(result.valid);
    assert!(result.error.is_none());
}

#[test]
fn test_validate_all_backups() {
    let backups = vec![
        ("good".to_string(), sqlite_magic_bytes()),
        ("bad".to_string(), b"garbage".to_vec()),
    ];
    let results = BackupValidator::validate_all_backups(&backups);
    assert_eq!(results.len(), 2);
    assert!(results[0].valid);
    assert!(!results[1].valid);
}

#[test]
fn a_failed_restore_makes_a_backup_invalid() {
    let now = Timestamp { secs: 5, nanos: 0 };
    let data = sqlite_magic_bytes();
    let bad = BackupValidator::judge("bk", &data, Err("disk".to_string()), now);
    assert!(bad.integrity_ok);
    assert!(!bad.restore_test_ok);
    assert!(!bad.valid);
    assert!(bad.error.is_some());
    let good = BackupValidator::judge("bk", &data, Ok(()), now);
    assert!(good.valid);
    assert_eq!(good.validated_at, now);
    assert_eq!(good.backup_id, "bk");
}

#[test]
fn the_database_answers_the_restore_test() {
    let r = BackupValidator::validate_backup("bk", b"SQLite format 3");
    assert!(r.restore_test_ok);
    assert!(r.valid);
}
