use cask_update::decision::{decide, needs_modification_time, DecisionErrorKind, Policy, STALE_AFTER_NANOS};
use cask_update::info::{parse, PackageInfo};

fn info(latest: &str, installed: &str) -> PackageInfo {
    PackageInfo {
        name: "foo".to_string(),
        latest: latest.to_string(),
        installed: installed.to_string(),
        path: "/usr/local/Caskroom/foo/x".to_string(),
    }
}

#[test]
fn older_install_is_updatable() {
    let i = parse("foo", "Name: 1.2.0\n\n/usr/local/Caskroom/foo/1.1.0 (bottle)").unwrap();
    assert!(decide(&i, Policy::Equality, None, 0).unwrap());
}

#[test]
fn current_install_is_not_updatable() {
    let i = parse("foo", "Name: 1.2.0\n\n/usr/local/Caskroom/foo/1.2.0 (bottle)").unwrap();
    assert!(!decide(&i, Policy::Equality, None, 0).unwrap());
    assert!(!decide(&i, Policy::Sentinel, None, 0).unwrap());
    assert!(!decide(&i, Policy::AgeGatedSentinel, None, 0).unwrap());
}

#[test]
fn equality_away_from_sentinel() {
    for policy in [Policy::Equality, Policy::Sentinel, Policy::AgeGatedSentinel] {
        assert!(decide(&info("2", "1"), policy, None, 5).unwrap());
        assert!(!decide(&info("2", "2"), policy, None, 5).unwrap());
    }
}

#[test]
fn sentinel_policy_always_updates_latest() {
    assert!(decide(&info("latest", "latest"), Policy::Sentinel, None, 0).unwrap());
    assert!(!decide(&info("latest", "latest"), Policy::Equality, None, 0).unwrap());
}

#[test]
fn age_gate_boundaries() {
    let i = info("latest", "latest");
    let m: u128 = 1_000;
    assert_eq!(STALE_AFTER_NANOS, 20 * 3600 * 1_000_000_000);
    let p = Policy::AgeGatedSentinel;
    assert!(!decide(&i, p, Some(m), m + STALE_AFTER_NANOS - 1).unwrap());
    assert!(!decide(&i, p, Some(m), m + STALE_AFTER_NANOS).unwrap());
    assert!(decide(&i, p, Some(m), m + STALE_AFTER_NANOS + 1).unwrap());
    assert!(!decide(&i, p, Some(m), m).unwrap());
}

#[test]
fn age_gate_errors() {
    let i = info("latest", "latest");
    let e = decide(&i, Policy::AgeGatedSentinel, None, 10).unwrap_err();
    assert_eq!(e.kind, DecisionErrorKind::PathUnreadable);
    assert_eq!(e.name, "foo");
    assert_eq!(e.path, "/usr/local/Caskroom/foo/x");
    let e = decide(&i, Policy::AgeGatedSentinel, Some(11), 10).unwrap_err();
    assert_eq!(e.kind, DecisionErrorKind::ClockSkew);
}

#[test]
fn modification_time_only_for_age_gate_on_sentinel() {
    assert!(needs_modification_time(&info("latest", "x"), Policy::AgeGatedSentinel));
    assert!(!needs_modification_time(&info("latest", "x"), Policy::Sentinel));
    assert!(!needs_modification_time(&info("1.0", "x"), Policy::AgeGatedSentinel));
}
