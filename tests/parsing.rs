use cask_update::info::{parse, ParseErrorKind};
use cask_update::lines::{all_lines, nth_line};
use cask_update::matchers::{match_installed, match_latest_version};

#[test]
fn parses_info_with_older_install() {
    let info = parse("foo", "Name: 1.2.0\n\n/usr/local/Caskroom/foo/1.1.0 (bottle)").unwrap();
    assert_eq!(info.name, "foo");
    assert_eq!(info.latest, "1.2.0");
    assert_eq!(info.installed, "1.1.0");
    assert_eq!(info.path, "/usr/local/Caskroom/foo/1.1.0");
}

#[test]
fn parses_info_with_current_install() {
    let info = parse("foo", "Name: 1.2.0\n\n/usr/local/Caskroom/foo/1.2.0 (bottle)").unwrap();
    assert_eq!(info.latest, "1.2.0");
    assert_eq!(info.installed, "1.2.0");
}

#[test]
fn other_lines_do_not_matter() {
    let a = parse("foo", "Name: 1.2.0\nanything\n/usr/local/Caskroom/foo/1.1.0 (bottle)\nmore").unwrap();
    let b = parse("foo", "Name: 1.2.0\n\n/usr/local/Caskroom/foo/1.1.0 (bottle)\n\nx: y\n").unwrap();
    assert_eq!(a.latest, b.latest);
    assert_eq!(a.installed, b.installed);
    assert_eq!(a.path, b.path);
}

#[test]
fn missing_latest_version() {
    let e = parse("foo", "no version here\n\n/usr/local/Caskroom/foo/1.1.0 (bottle)").unwrap_err();
    assert_eq!(e.kind, ParseErrorKind::MissingLatestVersion);
    assert_eq!(e.name, "foo");
    assert_eq!(e.message(), "Unknown latest version for foo");
}

#[test]
fn missing_latest_version_wins_over_missing_install() {
    let e = parse("bar", "").unwrap_err();
    assert_eq!(e.kind, ParseErrorKind::MissingLatestVersion);
}

#[test]
fn missing_installed_version() {
    let e = parse("foo", "Name: 1.2.0\n\nNot installed").unwrap_err();
    assert_eq!(e.kind, ParseErrorKind::MissingInstalledVersion);
    assert_eq!(e.message(), "Unknown installed version for foo");
}

#[test]
fn short_header_is_missing_install() {
    let e = parse("foo", "Name: 1.2.0\n/usr/local/Caskroom/foo/1.1.0 (bottle)\n").unwrap_err();
    assert_eq!(e.kind, ParseErrorKind::MissingInstalledVersion);
}

#[test]
fn crlf_line_endings() {
    let info = parse("foo", "Name: 1.2.0\r\n\r\n/usr/local/Caskroom/foo/1.1.0 (bottle)\r\n").unwrap();
    assert_eq!(info.latest, "1.2.0");
    assert_eq!(info.installed, "1.1.0");
}

#[test]
fn latest_takes_text_after_last_colon() {
    assert_eq!(match_latest_version("a: b: c").unwrap(), "c");
    assert_eq!(match_latest_version("foo: ").unwrap(), "");
    assert!(match_latest_version("foo:bar").is_none());
}

#[test]
fn installed_greedy_captures() {
    let (path, version) = match_installed("/usr/local/Caskroom/foo/1.0 (x) (y)").unwrap();
    assert_eq!(path, "/usr/local/Caskroom/foo/1.0 (x)");
    assert_eq!(version, "1.0 (x)");
    let (path, version) =
        match_installed("at /usr/local/Caskroom/a/b/2.0,3 (123 files, 4MB)").unwrap();
    assert_eq!(path, "/usr/local/Caskroom/a/b/2.0,3");
    assert_eq!(version, "2.0,3");
}

#[test]
fn installed_needs_every_part() {
    assert!(match_installed("/usr/local/Caskroom/foo/1.0").is_none());
    assert!(match_installed("/usr/local/Caskroom/foo (x)").is_none());
    assert!(match_installed("/opt/foo/1.0 (x)").is_none());
    assert!(match_installed("/usr/local/Caskroom/foo/1.0 (x").is_none());
}

#[test]
fn lines_as_std_splits_them() {
    let text = "a\r\nb\n\nc\n";
    let ours = all_lines(text);
    let std_lines: Vec<&str> = text.lines().collect();
    assert_eq!(ours, std_lines);
    assert_eq!(nth_line(text, 1).unwrap(), "b");
    assert_eq!(nth_line(text, 2).unwrap(), "");
    assert!(nth_line(text, 4).is_none());
    assert!(all_lines("").is_empty());
}
