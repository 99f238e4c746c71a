//! Tests of the storage log itself: scanning, last-record search, raw
//! containment, appending, and tombstoning.

use astrobase::database::Database;
use astrobase::inmemory::InMemory;
use astrobase::storage::Storage;

fn storage_of(lines: &[&str]) -> Storage {
    let lines: Vec<String> = lines.iter().map(|l| l.to_string()).collect();
    Storage::from_lines(&lines).unwrap()
}

#[test]
fn find_last_keeps_the_latest_record() {
    let s = storage_of(&["a\t1", "b\t2", "a\t3", "c\t4", "a\t5"]);
    assert_eq!(s.find_last("a"), Some("5".to_string()));
    assert_eq!(s.find_last("b"), Some("2".to_string()));
    assert_eq!(s.find_last("z"), None);
}

#[test]
fn find_last_hides_tombstones_but_contains_does_not() {
    let mut s = storage_of(&["a\t1"]);
    s.mark_deleted("a");
    assert_eq!(s.find_last("a"), None);
    assert!(s.contains("a"), "the raw log still carries the key");
    assert!(!s.contains("z"));
}

#[test]
fn append_then_render_round_trips() {
    let mut s = Storage::new();
    assert_eq!(s.len(), 0);
    s.append("k", "v");
    s.append("empty", "");
    assert_eq!(s.len(), 2);
    assert_eq!(s.render_line(0), "k\tv");
    assert_eq!(s.render_line(1), "empty\t");
    assert_eq!(s.find_last("empty"), Some(String::new()));

    s.clear();
    assert_eq!(s.len(), 0);
    assert_eq!(s.find_last("k"), None);
}

#[test]
fn inmemory_clear_forgets_everything() {
    let mut db = InMemory::new();
    db.insert("a", "1").unwrap();
    db.insert("b", "2").unwrap();
    db.clear();
    assert!(db.get("a").is_err());
    assert!(db.get("b").is_err());
    assert!(db.insert("a", "fresh").is_ok());
    assert_eq!(db.get("a").unwrap(), "fresh");
}
