//! The shared scenario suite, run unchanged against either backend.

use astrobase::database::Database;
use astrobase::inmemory::InMemory;
use astrobase::persistent::Persistent;

#[test]
fn inmemory() {
    let db = populate_database::<InMemory>();
    run_tests(db);
}

#[test]
fn persistent() {
    let db = populate_database::<Persistent>();
    run_tests(db);
}

fn populate_database<Db: Database>() -> Db {
    let mut db = Db::new();
    db.clear();
    db.insert("a", "1").ok();
    db.insert("b", "2").ok();
    db.insert("c", "3").ok();
    db.insert("d", "4").ok();
    db
}

fn run_tests<Db: Database>(mut db: Db) {
    test_get(&db);
    test_insert(&mut db);
    test_delete(&mut db);
    test_update(&mut db);
}

fn test_get<Db: Database>(db: &Db) {
    let r = db.get("a");
    assert!(r.is_ok());
    assert_eq!(r.unwrap(), "1");

    let r = db.get("z");
    assert!(r.is_err());
    assert_eq!(r.unwrap_err().message(), "Record 'z' is missing");
}

fn test_insert<Db: Database>(db: &mut Db) {
    let r = db.insert("z", "26");
    assert!(r.is_ok());
    assert_eq!(r.unwrap(), "");

    let r = db.get("z");
    assert!(r.is_ok());
    assert_eq!(r.unwrap(), "26");

    let r = db.insert("z", "26");
    assert!(r.is_err());
    assert_eq!(r.unwrap_err().message(), "Record 'z' already exists");

    let r = db.delete("z");
    assert!(r.is_ok());
    assert_eq!(r.unwrap(), "26");

    let r = db.insert("z", "1000");
    assert!(r.is_ok());
    assert_eq!(r.unwrap(), "");

    let r = db.get("z");
    assert!(r.is_ok());
    assert_eq!(r.unwrap(), "1000");
}

fn test_delete<Db: Database>(db: &mut Db) {
    let r = db.delete("d");
    assert!(r.is_ok());
    assert_eq!(r.unwrap(), "4");

    let r = db.delete("z");
    assert!(r.is_ok());
    assert_eq!(r.unwrap(), "1000");

    let r = db.delete("z");
    assert!(r.is_err());
    assert_eq!(r.unwrap_err().message(), "Record 'z' is missing already");

    let r = db.delete("d");
    assert!(r.is_err());
    assert_eq!(r.unwrap_err().message(), "Record 'd' is missing already");
}

fn test_update<Db: Database>(db: &mut Db) {
    let r = db.update("a", "100");
    assert!(r.is_ok());
    assert_eq!(r.unwrap(), "");

    let r = db.get("a");
    assert!(r.is_ok());
    assert_eq!(r.unwrap(), "100");

    let r = db.update("b", "2");
    assert!(r.is_err());
    assert_eq!(
        r.unwrap_err().message(),
        "Record 'b' already exists and identical"
    );

    let r = db.update("z", "26");
    assert!(r.is_err());
    assert_eq!(r.unwrap_err().message(), "Record 'z' is missing");

    let r = db.delete("a");
    assert!(r.is_ok());
    assert_eq!(r.unwrap(), "100");

    let r = db.update("a", "100");
    assert!(r.is_err());
    assert_eq!(r.unwrap_err().message(), "Record 'a' is missing");
}
