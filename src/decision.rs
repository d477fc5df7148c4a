use vstd::prelude::*;

use crate::info::{PackageInfo, PackageInfoView};

verus! {

/// How long, in nanoseconds, a package on the "latest" version may stay
/// installed before it counts as updatable: twenty hours.
pub const STALE_AFTER_NANOS: u128 = 72_000_000_000_000;

/// The rule that decides whether a package is updatable.
#[derive(Clone, Copy, Debug, PartialEq, Eq, Structural)]
pub enum Policy {
    /// Updatable when the latest version differs from the installed one.
    Equality,
    /// As `Equality`, and always when the latest version is "latest".
    Sentinel,
    /// When the latest version is "latest", updatable once the install is
    /// older than twenty hours; otherwise as `Equality`.
    AgeGatedSentinel,
}

/// Why no decision could be made.
#[derive(Clone, Copy, Debug, PartialEq, Eq, Structural)]
pub enum DecisionErrorKind {
    /// The modification time of the installed path could not be read.
    PathUnreadable,
    /// The installed path was modified after the current time.
    ClockSkew,
}

/// A package for which no decision could be made.
#[derive(Debug)]
pub struct DecisionError {
    pub kind: DecisionErrorKind,
    pub name: String,
    pub path: String,
}

/// Whether a version string is the sentinel "latest", which names no fixed version.
pub open spec fn is_sentinel(version: Seq<char>) -> bool {
    version == "latest"@
}

/// Whether the decision for `info` under `policy` needs the modification time
/// of the installed path.
pub open spec fn needs_age(info: PackageInfoView, policy: Policy) -> bool {
    policy == Policy::AgeGatedSentinel && is_sentinel(info.latest)
}

/// The verdict for `info` under `policy`, where `modified` is the modification
/// time of the installed path (absent when it could not be read) and `now` the
/// current time, both in nanoseconds since the epoch.
pub open spec fn decision(
    info: PackageInfoView,
    policy: Policy,
    modified: Option<u128>,
    now: u128,
) -> Result<bool, DecisionErrorKind> {
    if needs_age(info, policy) {
        match modified {
            None => Err(DecisionErrorKind::PathUnreadable),
            Some(m) => if m > now {
                Err(DecisionErrorKind::ClockSkew)
            } else {
                Ok(now - m > STALE_AFTER_NANOS)
            },
        }
    } else if policy == Policy::Sentinel {
        Ok(info.latest != info.installed || is_sentinel(info.latest))
    } else {
        Ok(info.latest != info.installed)
    }
}

/// Whether `decide` will look at the modification time for `info` under `policy`.
pub fn needs_modification_time(info: &PackageInfo, policy: Policy) -> (r: bool)
    ensures
        r == needs_age(info@, policy),
{
    policy == Policy::AgeGatedSentinel && info.latest == String::from_str("latest")
}

/// Decides whether the package described by `info` is updatable.
pub fn decide(info: &PackageInfo, policy: Policy, modified: Option<u128>, now: u128) -> (r: Result<
    bool,
    DecisionError,
>)
    ensures
        match r {
            Ok(b) => decision(info@, policy, modified, now) == Ok::<bool, DecisionErrorKind>(b),
            Err(e) => e.name@ == info.name@ && e.path@ == info.path@ && decision(
                info@,
                policy,
                modified,
                now,
            ) == Err::<bool, DecisionErrorKind>(e.kind),
        },
{
    let sentinel = String::from_str("latest");
    let differs = !(info.latest == info.installed);
    if needs_modification_time(info, policy) {
        match modified {
            None => Err(
                DecisionError {
                    kind: DecisionErrorKind::PathUnreadable,
                    name: info.name.clone(),
                    path: info.path.clone(),
                },
            ),
            Some(m) => if m > now {
                Err(
                    DecisionError {
                        kind: DecisionErrorKind::ClockSkew,
                        name: info.name.clone(),
                        path: info.path.clone(),
                    },
                )
            } else {
                Ok(now - m > STALE_AFTER_NANOS)
            },
        }
    } else if policy == Policy::Sentinel {
        Ok(differs || info.latest == sentinel)
    } else {
        Ok(differs)
    }
}

/// Away from the sentinel every policy decides by equality: a package is
/// updatable exactly when its latest and installed versions differ.
pub proof fn lemma_equality_rule(
    info: PackageInfoView,
    policy: Policy,
    modified: Option<u128>,
    now: u128,
)
    requires
        !is_sentinel(info.latest),
    ensures
        decision(info, policy, modified, now) == Ok::<bool, DecisionErrorKind>(
            info.latest != info.installed,
        ),
{
}

/// Under the age-gated policy a package on the sentinel is updatable exactly
/// when more than twenty hours have passed since its install was modified:
/// not one nanosecond before that mark, nor at it, but one nanosecond after.
pub proof fn lemma_age_rule(info: PackageInfoView, modified: u128, now: u128)
    requires
        is_sentinel(info.latest),
        modified <= now,
    ensures
        decision(info, Policy::AgeGatedSentinel, Some(modified), now) == Ok::<
            bool,
            DecisionErrorKind,
        >(now - modified > 72_000_000_000_000),
        now - modified == 72_000_000_000_000 - 1 ==> decision(
            info,
            Policy::AgeGatedSentinel,
            Some(modified),
            now,
        ) == Ok::<bool, DecisionErrorKind>(false),
        now - modified == 72_000_000_000_000 ==> decision(
            info,
            Policy::AgeGatedSentinel,
            Some(modified),
            now,
        ) == Ok::<bool, DecisionErrorKind>(false),
        now - modified == 72_000_000_000_000 + 1 ==> decision(
            info,
            Policy::AgeGatedSentinel,
            Some(modified),
            now,
        ) == Ok::<bool, DecisionErrorKind>(true),
{
}

} // verus!
