//! Unit tests of the persistent key-value backend.

use astrobase::database::Database;
use astrobase::persistent::Persistent;

/// Creates a database with a few records.
fn populate_database() -> Persistent {
    let mut db = Persistent::new();
    db.clear();
    db.insert("a", "1").ok();
    db.insert("b", "2").ok();
    db.insert("c", "3").ok();
    db.insert("d", "4").ok();
    db
}

#[test]
fn get() {
    let db = populate_database();

    let r = db.get("a");
    assert!(r.is_ok());
    assert_eq!(r.unwrap(), "1");

    let r = db.get("z");
    assert!(r.is_err());
    assert_eq!(r.unwrap_err().message(), "Record 'z' is missing");
}

#[test]
fn insert() {
    let mut db = populate_database();

    let r = db.insert("z", "26");
    assert!(r.is_ok());
    assert_eq!(r.unwrap(), "");

    let r = db.get("z");
    assert!(r.is_ok());
    assert_eq!(r.unwrap(), "26");

    let r = db.insert("z", "26");
    assert!(r.is_err());
    assert_eq!(r.unwrap_err().message(), "Record 'z' already exists");

    let r = db.delete("z");
    assert!(r.is_ok());
    assert_eq!(r.unwrap(), "26");

    let r = db.insert("z", "1000");
    assert!(r.is_ok());
    assert_eq!(r.unwrap(), "");

    let r = db.get("z");
    assert!(r.is_ok());
    assert_eq!(r.unwrap(), "1000");
}

#[test]
fn delete() {
    let mut db = populate_database();

    let r = db.delete("d");
    assert!(r.is_ok());
    assert_eq!(r.unwrap(), "4");

    let r = db.delete("z");
    assert!(r.is_err());
    assert_eq!(r.unwrap_err().message(), "Record 'z' is missing already");

    let r = db.delete("d");
    assert!(r.is_err());
    assert_eq!(r.unwrap_err().message(), "Record 'd' is missing already");
}

#[test]
fn update() {
    let mut db = populate_database();

    let r = db.update("a", "100");
    assert!(r.is_ok());
    assert_eq!(r.unwrap(), "");

    let r = db.get("a");
    assert!(r.is_ok());
    assert_eq!(r.unwrap(), "100");

    let r = db.update("b", "2");
    assert!(r.is_err());
    assert_eq!(
        r.unwrap_err().message(),
        "Record 'b' already exists and identical"
    );

    let r = db.update("z", "26");
    assert!(r.is_err());
    assert_eq!(r.unwrap_err().message(), "Record 'z' is missing");

    let r = db.delete("a");
    assert!(r.is_ok());
    assert_eq!(r.unwrap(), "100");

    let r = db.update("a", "100");
    assert!(r.is_err());
    assert_eq!(r.unwrap_err().message(), "Record 'a' is missing");
}
