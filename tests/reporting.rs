use std::cmp::Ordering;

use cask_update::ordering::{compare, sort_records, PackageRecord};
use cask_update::session::{package_names, report_lines, trim, update_message, updates, SessionError, REPORT_WIDTH};
use cask_update::table::{header_row, parse_row, render_row, truncate};

fn rec(name: &str, updatable: bool) -> PackageRecord {
    PackageRecord {
        name: name.to_string(),
        installed: "1".to_string(),
        latest: "2".to_string(),
        path: String::new(),
        updatable,
    }
}

fn names(v: &[PackageRecord]) -> Vec<(String, bool)> {
    v.iter().map(|r| (r.name.clone(), r.updatable)).collect()
}

#[test]
fn sorts_up_to_date_first_then_by_name() {
    let sorted = sort_records(vec![rec("B", false), rec("A", true), rec("A", false)]);
    assert_eq!(
        names(&sorted),
        vec![("A".to_string(), false), ("B".to_string(), false), ("A".to_string(), true)]
    );
}

#[test]
fn compare_is_a_total_order() {
    let a = rec("a", false);
    let b = rec("ab", false);
    let c = rec("a", true);
    assert_eq!(compare(&a, &a), Ordering::Equal);
    assert_eq!(compare(&a, &b), Ordering::Less);
    assert_eq!(compare(&b, &a), Ordering::Greater);
    assert_eq!(compare(&b, &c), Ordering::Less);
    assert_eq!(compare(&a, &c), Ordering::Less);
    assert_eq!(compare(&rec("Z", false), &rec("a", false)), Ordering::Less);
}

#[test]
fn sorting_keeps_every_record() {
    let sorted = sort_records(vec![rec("c", true), rec("b", false), rec("a", true), rec("d", false)]);
    assert_eq!(
        names(&sorted),
        vec![
            ("b".to_string(), false),
            ("d".to_string(), false),
            ("a".to_string(), true),
            ("c".to_string(), true)
        ]
    );
    assert!(sort_records(Vec::new()).is_empty());
}

#[test]
fn truncates_to_width() {
    assert_eq!(truncate("abcdef", Some(3)), "abc");
    assert_eq!(truncate("abc", Some(3)), "abc");
    assert_eq!(truncate("abcdef", None), "abcdef");
    assert_eq!(truncate("äöüß", Some(2)), "äö");
}

#[test]
fn renders_rows() {
    assert_eq!(header_row(), "Cask\tInstalled\tLatest\tNeeds update\n");
    let mut r = rec("foo", true);
    r.installed = "1.2.3-a-very-long-version-string".to_string();
    assert_eq!(
        render_row(&r, Some(REPORT_WIDTH)),
        "foo\t1.2.3-a-very-long-ve\t2\tYes\n"
    );
    assert_eq!(render_row(&rec("bar", false), None), "bar\t1\t2\tNo\n");
}

#[test]
fn row_round_trip() {
    let mut r = rec("foo", true);
    r.latest = "0123456789abcdefghijKLM".to_string();
    let row = render_row(&r, Some(REPORT_WIDTH));
    let f = parse_row(&row).unwrap();
    assert_eq!(f.name, "foo");
    assert_eq!(f.installed, "1");
    assert_eq!(f.latest, "0123456789abcdefghij");
    assert!(f.updatable);
    let g = parse_row(&render_row(&rec("bar", false), None)).unwrap();
    assert!(!g.updatable);
}

#[test]
fn rejects_malformed_rows() {
    assert!(parse_row("a\tb\tc\tYes").is_none());
    assert!(parse_row("a\tb\tc\tMaybe\n").is_none());
    assert!(parse_row("a\tb\tYes\n").is_none());
    assert!(parse_row("a\tb\tc\td\tYes\n").is_none());
}

#[test]
fn failed_listing_aborts() {
    match package_names(false, "foo\nbar\n") {
        Err(SessionError::ListFailed) => {}
        other => panic!("expected a listing failure, got {:?}", other),
    }
}

#[test]
fn listing_gives_trimmed_names() {
    let n = package_names(true, "foo\n  bar \t\n\u{3000}baz\u{a0}\n").unwrap();
    assert_eq!(n, vec!["foo".to_string(), "bar".to_string(), "baz".to_string()]);
    assert!(package_names(true, "").unwrap().is_empty());
}

#[test]
fn trims_white_space() {
    assert_eq!(trim("  x y \n"), "x y");
    assert_eq!(trim(" \t "), "");
    assert_eq!(trim("\u{2003}z"), "z");
}

#[test]
fn selects_updates_in_order() {
    let v = vec![rec("a", false), rec("b", true), rec("c", false), rec("d", true)];
    assert_eq!(updates(&v), vec![1, 3]);
    assert_eq!(update_message(&v[1]), "Updating b from 1 to 2");
}

#[test]
fn report_has_title_and_rows() {
    let v = vec![rec("a", false), rec("b", true)];
    let lines = report_lines(&v, Some(REPORT_WIDTH));
    assert_eq!(
        lines,
        vec![
            "Cask\tInstalled\tLatest\tNeeds update\n".to_string(),
            "a\t1\t2\tNo\n".to_string(),
            "b\t1\t2\tYes\n".to_string()
        ]
    );
}
