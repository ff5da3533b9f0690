use gravedigger::display::fmt_downloads;
use gravedigger::render::{join, number, signed_number};
use gravedigger::table::{lookup, Table};
use gravedigger::text::{
    cut, get_prefix, head_before, in_order, longer_than, replace, split, split_whitespace, tail_after,
    trim, trim_end, trim_end_matches, trim_start_matches,
};

#[test]
fn texts_are_trimmed() {
    assert_eq!(trim("  a b\t\r\n"), "a b");
    assert_eq!(trim(" \u{a0}\u{3000} "), "");
    assert_eq!(trim_end("  a b\t\r\n"), "  a b");
    assert_eq!(trim_start_matches("vv1.0v", "v"), "1.0v");
    assert_eq!(trim_end_matches("repo.git.git", ".git"), "repo");
    assert_eq!(trim_end_matches("x", ""), "x");
}

#[test]
fn texts_are_taken_apart() {
    assert_eq!(split("a/b//c", "/"), vec!["a", "b", "", "c"]);
    assert_eq!(split("", "/"), vec![""]);
    assert_eq!(split_whitespace(" a  b\tc\n"), vec!["a", "b", "c"]);
    assert!(split_whitespace(" \t ").is_empty());
    assert_eq!(head_before("One. Two. Three", "."), "One");
    assert_eq!(head_before("no period", "."), "no period");
    assert_eq!(tail_after("node_modules/a/node_modules/b", "node_modules/"), "b");
    assert_eq!(tail_after("plain", "node_modules/"), "plain");
    assert_eq!(replace("@scope/name", '/', "%2F"), "@scope%2Fname");
}

#[test]
fn bytes_are_counted() {
    assert_eq!(get_prefix("abc", 2), Some("ab"));
    assert_eq!(get_prefix("abc", 3), Some("abc"));
    assert_eq!(get_prefix("abc", 4), None);
    assert_eq!(get_prefix("aéb", 2), None);
    assert_eq!(get_prefix("aéb", 3), Some("aé"));
    assert_eq!(cut("aéb", 2), "a");
    assert_eq!(cut("aéb", 3), "aé");
    assert_eq!(cut("aéb", 9), "aéb");
    assert_eq!(cut("🪦", 0), "");
    assert!(longer_than("🪦", 3));
    assert!(!longer_than("🪦", 4));
}

#[test]
fn texts_have_an_order() {
    assert!(in_order("CRITICAL", "HIGH"));
    assert!(!in_order("MODERATE", "HIGH"));
    assert!(in_order("a", "a"));
    assert!(in_order("a", "ab"));
    assert!(!in_order("ab", "a"));
}

#[test]
fn numbers_are_written() {
    assert_eq!(number(0), "0");
    assert_eq!(number(1234567890), "1234567890");
    assert_eq!(number(u64::MAX), "18446744073709551615");
    assert_eq!(signed_number(-42), "-42");
    assert_eq!(signed_number(i64::MIN), "-9223372036854775808");
    assert_eq!(join(&vec!["a".into(), "b".into()], ", "), "a, b");
    assert_eq!(join(&vec![], ", "), "");
}

#[test]
fn downloads_are_rounded() {
    assert_eq!(fmt_downloads(0), "0");
    assert_eq!(fmt_downloads(999), "999");
    assert_eq!(fmt_downloads(1_000), "1.0K");
    assert_eq!(fmt_downloads(1_949), "1.9K");
    assert_eq!(fmt_downloads(1_950), "2.0K");
    assert_eq!(fmt_downloads(658_400_000), "658.4M");
    assert_eq!(fmt_downloads(1_000_000), "1.0M");
    assert_eq!(fmt_downloads(u64::MAX), "18446744073709.6M");
}

#[test]
fn a_table_keeps_one_value_per_key() {
    let mut table: Table<String> = Table::new();
    assert!(table.is_empty());
    table.insert("a".into(), "1".into());
    table.insert("b".into(), "2".into());
    table.insert("a".into(), "3".into());
    assert_eq!(table.len(), 2);
    assert_eq!(table.get("a").unwrap(), "3");
    assert_eq!(table.get("b").unwrap(), "2");
    assert!(table.get("c").is_none());
    assert!(table.contains_key("b"));
    assert_eq!(table.key(0), "a");
    assert_eq!(table.value(1), "2");
    let list = vec![("k".to_string(), "1".to_string()), ("k".to_string(), "2".to_string())];
    assert_eq!(lookup(&list, "k").unwrap(), "2");
    assert!(lookup(&list, "x").is_none());
}
