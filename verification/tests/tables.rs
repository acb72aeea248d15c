use statsd::number::Number;
use statsd::summary::{Percentile, Summary};
use statsd::table::Table;
use statsd::text::{push_bytes, push_str};

fn n(millionths: i64) -> Number {
    Number { millionths }
}

#[test]
fn new_table_is_empty() {
    let t: Table<Number> = Table::new();
    assert_eq!(t.len(), 0);
    assert_eq!(t.find(b"a"), None);
    assert_eq!(t.get(b"a"), None);
}

#[test]
fn insert_appends_new_names_and_replaces_known_ones() {
    let mut t: Table<Number> = Table::new();
    t.insert(b"b", n(1));
    t.insert(b"a", n(2));
    t.insert(b"b", n(3));
    assert_eq!(t.len(), 2);
    assert_eq!(t.name_at(0), &b"b".to_vec());
    assert_eq!(t.name_at(1), &b"a".to_vec());
    assert_eq!(t.value_at(0), &n(3));
    assert_eq!(t.value_at(1), &n(2));
    assert_eq!(t.find(b"a"), Some(1));
    assert_eq!(t.find(b"b"), Some(0));
    assert_eq!(t.find(b"c"), None);
    assert_eq!(t.get(b"b"), Some(&n(3)));
}

#[test]
fn names_are_compared_byte_for_byte() {
    let mut t: Table<Number> = Table::new();
    t.insert(b"", n(0));
    t.insert(b"a", n(1));
    t.insert(b"A", n(2));
    t.insert(b"a ", n(3));
    t.insert(b"\xff", n(4));
    assert_eq!(t.len(), 5);
    assert_eq!(t.get(b""), Some(&n(0)));
    assert_eq!(t.get(b"a"), Some(&n(1)));
    assert_eq!(t.get(b"A"), Some(&n(2)));
    assert_eq!(t.get(b"a "), Some(&n(3)));
    assert_eq!(t.get(b"\xff"), Some(&n(4)));
    assert_eq!(t.get(b"aa"), None);
}

#[test]
fn clear_removes_everything() {
    let mut t: Table<Number> = Table::new();
    t.insert(b"a", n(1));
    t.insert(b"b", n(2));
    t.clear();
    assert_eq!(t.len(), 0);
    assert_eq!(t.get(b"a"), None);
    t.insert(b"b", n(5));
    assert_eq!(t.find(b"b"), Some(0));
}

#[test]
fn duplicate_is_independent_of_its_source() {
    let mut t: Table<Number> = Table::new();
    t.insert(b"a", n(1));
    t.insert(b"b", n(2));
    let copy = t.duplicate();
    t.insert(b"a", n(9));
    t.insert(b"c", n(3));
    assert_eq!(copy.len(), 2);
    assert_eq!(copy.name_at(0), &b"a".to_vec());
    assert_eq!(copy.name_at(1), &b"b".to_vec());
    assert_eq!(copy.get(b"a"), Some(&n(1)));
    assert_eq!(copy.get(b"b"), Some(&n(2)));
    assert_eq!(copy.get(b"c"), None);
}

#[test]
fn append_collects_samples_per_name() {
    let mut t: Table<Vec<Number>> = Table::new();
    t.append(b"x", n(3));
    t.append(b"y", n(1));
    t.append(b"x", n(2));
    assert_eq!(t.len(), 2);
    assert_eq!(t.get(b"x"), Some(&vec![n(3), n(2)]));
    assert_eq!(t.get(b"y"), Some(&vec![n(1)]));
    assert_eq!(t.name_at(0), &b"x".to_vec());
}

#[test]
fn with_names_of_pairs_names_with_new_values() {
    let mut samples: Table<Vec<Number>> = Table::new();
    samples.append(b"x", n(3));
    samples.append(b"y", n(1));
    samples.append(b"x", n(5));
    let p = Percentile::default();
    let summaries = vec![
        Summary::of(samples.value_at(0), p),
        Summary::of(samples.value_at(1), p),
    ];
    let t: Table<Summary> = Table::with_names_of(&samples, summaries);
    assert_eq!(t.len(), 2);
    assert_eq!(t.name_at(0), &b"x".to_vec());
    assert_eq!(t.name_at(1), &b"y".to_vec());
    assert_eq!(t.get(b"x").unwrap().count, 2);
    assert_eq!(t.get(b"x").unwrap().sum, n(8));
    assert_eq!(t.get(b"y").unwrap().count, 1);
    assert_eq!(t.get(b"y").unwrap().upper, n(1));
}

#[test]
fn push_bytes_and_push_str_append() {
    let mut out = b"ab".to_vec();
    push_bytes(&mut out, b"cd");
    push_bytes(&mut out, b"");
    push_str(&mut out, "ef");
    push_str(&mut out, "\u{e9}");
    assert_eq!(out, "abcdef\u{e9}".as_bytes().to_vec());
}
