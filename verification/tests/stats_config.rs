//! Tests of the statistics counters, the configuration defaults, the
//! request validators, and the error texts.

use astrobase::command::{ensure_key_valid, ensure_value_valid, MAX_KEY_LEN, MAX_VALUE_LEN};
use astrobase::config::Astrobase;
use astrobase::error::Error;
use astrobase::stats::Stats;

#[test]
fn stats_counters() {
    let mut stats = Stats::default();
    assert_eq!(stats.number_of_records, 0);

    stats.insert(true);
    stats.insert(true);
    stats.insert(false);
    assert_eq!(stats.insert_ok_fail, (2, 1));
    assert_eq!(stats.number_of_records, 2);

    stats.get(true);
    stats.get(false);
    stats.get(false);
    assert_eq!(stats.get_ok_fail, (1, 2));

    stats.delete(true);
    stats.delete(false);
    assert_eq!(stats.delete_ok_fail, (1, 1));
    assert_eq!(stats.number_of_records, 1);

    stats.update(true);
    stats.update(false);
    assert_eq!(stats.update_ok_fail, (1, 1));
    assert_eq!(stats.number_of_records, 1);
}

#[test]
fn config_defaults() {
    let cfg = Astrobase::default();
    assert_eq!(cfg.environment, "");
    assert_eq!(cfg.server.endpoint, "");
    assert_eq!(cfg.monitoring.interval, 0);
}

#[test]
fn key_and_value_limits() {
    assert!(ensure_key_valid("ordinary").is_ok());
    assert!(ensure_key_valid(&"k".repeat(MAX_KEY_LEN)).is_ok());
    assert_eq!(
        ensure_key_valid(&"k".repeat(MAX_KEY_LEN + 1)),
        Err(MAX_KEY_LEN + 1)
    );

    assert!(ensure_value_valid(&"v".repeat(MAX_VALUE_LEN)).is_ok());
    assert_eq!(
        ensure_value_valid(&"v".repeat(MAX_VALUE_LEN + 1)),
        Err(MAX_VALUE_LEN + 1)
    );
}

#[test]
fn error_messages() {
    let k = || "k".to_string();
    assert_eq!(
        Error::RecordMissing(k()).message(),
        "Record 'k' is missing"
    );
    assert_eq!(
        Error::RecordAlreadyMissing(k()).message(),
        "Record 'k' is missing already"
    );
    assert_eq!(
        Error::RecordAlreadyExists(k()).message(),
        "Record 'k' already exists"
    );
    assert_eq!(
        Error::RecordAlreadyExistsIdentical(k()).message(),
        "Record 'k' already exists and identical"
    );
    assert_eq!(
        Error::RecordInvalid("x y".to_string()).message(),
        "Invalid record 'x y'"
    );
    assert_eq!(
        Error::Filename("/tmp/db".to_string()).message(),
        "Unsupported file name '/tmp/db'"
    );
    assert_eq!(
        Error::OpenFile("denied".to_string(), "/tmp/db".to_string()).message(),
        "Cannot open file '/tmp/db': denied"
    );
    assert_eq!(
        Error::DeleteFile("denied".to_string(), "/tmp/db".to_string()).message(),
        "Cannot delete file '/tmp/db': denied"
    );
    assert_eq!(
        Error::LockFile("denied".to_string(), "/tmp/db".to_string()).message(),
        "Cannot lock file '/tmp/db': denied"
    );
    assert_eq!(
        Error::UnlockFile("denied".to_string(), "/tmp/db".to_string()).message(),
        "Cannot unlock file '/tmp/db': denied"
    );
    assert_eq!(Error::Io("boom".to_string()).message(), "Input/output error");
}
