//! Tests of the line codec and of the scanned record log.

use astrobase::codec::{encode, parse, tombstone};
use astrobase::database::Database;
use astrobase::persistent::Persistent;

#[test]
fn encode_joins_with_separator() {
    assert_eq!(encode("a", "1"), "a\t1");
    assert_eq!(encode("", ""), "\t");
    assert_eq!(encode("key", ""), "key\t");
}

#[test]
fn parse_round_trip() {
    let line = encode("some key", "some value");
    let rec = parse(&line).unwrap();
    assert_eq!(rec.key, "some key");
    assert_eq!(rec.value, "some value");

    let rec = parse("a\t1").unwrap();
    assert_eq!(rec.key, "a");
    assert_eq!(rec.value, "1");

    let rec = parse("\t").unwrap();
    assert_eq!(rec.key, "");
    assert_eq!(rec.value, "");

    let line = encode("clé", "väärde");
    let rec = parse(&line).unwrap();
    assert_eq!(rec.key, "clé");
    assert_eq!(rec.value, "väärde");
}

#[test]
fn parse_rejects_malformed_lines() {
    let r = parse("no separator here");
    assert!(r.is_err());
    assert_eq!(
        r.unwrap_err().message(),
        "Invalid record 'no separator here'"
    );

    let r = parse("a\tb\tc");
    assert!(r.is_err(), "three fields are not a record");
    assert_eq!(r.unwrap_err().message(), "Invalid record 'a\tb\tc'");

    assert!(parse("").is_err());
}

#[test]
fn tombstone_is_reserved() {
    assert_eq!(tombstone(), "\0");
}

fn store_of(lines: &[&str]) -> Persistent {
    let lines: Vec<String> = lines.iter().map(|l| l.to_string()).collect();
    Persistent::from_lines(&lines).unwrap()
}

#[test]
fn last_write_wins_on_scan() {
    let db = store_of(&["a\t1", "b\t2", "a\t10"]);
    assert_eq!(db.get("a").unwrap(), "10");
    assert_eq!(db.get("b").unwrap(), "2");
}

#[test]
fn tombstone_line_means_absent() {
    let db = store_of(&["a\t1", "a\t\0"]);
    assert_eq!(db.get("a").unwrap_err().message(), "Record 'a' is missing");

    let db = store_of(&["a\t1", "a\t\0", "a\t2"]);
    assert_eq!(db.get("a").unwrap(), "2");
}

#[test]
fn malformed_line_aborts_scan() {
    let lines: Vec<String> = vec!["a\t1".to_string(), "broken".to_string()];
    let r = Persistent::from_lines(&lines);
    assert!(r.is_err());
    assert_eq!(r.unwrap_err().message(), "Invalid record 'broken'");
}

#[test]
fn operations_append_renderable_lines() {
    let mut db = store_of(&["a\t1"]);
    assert_eq!(db.line_count(), 1);

    db.insert("b", "2").unwrap();
    assert_eq!(db.line_count(), 2);
    assert_eq!(db.render_line(1), "b\t2");

    db.delete("a").unwrap();
    assert_eq!(db.line_count(), 3);
    assert_eq!(db.render_line(2), "a\t\0");

    db.update("b", "20").unwrap();
    assert_eq!(db.line_count(), 4);
    assert_eq!(db.render_line(3), "b\t20");

    // The rendered log reloads into an equivalent store.
    let mut lines = Vec::new();
    for i in 0..db.line_count() {
        lines.push(db.render_line(i));
    }
    let reloaded = Persistent::from_lines(&lines).unwrap();
    assert_eq!(reloaded.get("b").unwrap(), "20");
    assert!(reloaded.get("a").is_err());
}
