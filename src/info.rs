use vstd::prelude::*;

use crate::lines::{lemma_line_end_at, line_of, line_start, nth_line};
use crate::matchers::{installed_in, latest_version_in, match_installed, match_latest_version};

verus! {

/// What the package manager's info text says of one installed package.
#[derive(Debug)]
pub struct PackageInfo {
    pub name: String,
    /// The version that the package manager offers.
    pub latest: String,
    /// The version that is installed.
    pub installed: String,
    /// The directory that holds the installed version.
    pub path: String,
}

/// The characters of each field of a [`PackageInfo`].
pub struct PackageInfoView {
    pub name: Seq<char>,
    pub latest: Seq<char>,
    pub installed: Seq<char>,
    pub path: Seq<char>,
}

impl View for PackageInfo {
    type V = PackageInfoView;

    open spec fn view(&self) -> PackageInfoView {
        PackageInfoView {
            name: self.name@,
            latest: self.latest@,
            installed: self.installed@,
            path: self.path@,
        }
    }
}

/// Which header line failed to match.
#[derive(Clone, Copy, Debug, PartialEq, Eq, Structural)]
pub enum ParseErrorKind {
    /// The first line names no latest version.
    MissingLatestVersion,
    /// The third line names no installed version.
    MissingInstalledVersion,
}

/// A package whose info text could not be read.
#[derive(Debug)]
pub struct ParseError {
    pub kind: ParseErrorKind,
    pub name: String,
}

impl ParseError {
    /// A message for the operator that names the package.
    pub fn message(&self) -> (r: String)
        ensures
            r@ == match self.kind {
                ParseErrorKind::MissingLatestVersion => "Unknown latest version for "@,
                ParseErrorKind::MissingInstalledVersion => "Unknown installed version for "@,
            } + self.name@,
    {
        let head = match self.kind {
            ParseErrorKind::MissingLatestVersion => String::from_str("Unknown latest version for "),
            ParseErrorKind::MissingInstalledVersion => String::from_str(
                "Unknown installed version for ",
            ),
        };
        head.concat(self.name.as_str())
    }
}

/// The latest version named by the first line of `text`.
pub open spec fn latest_of_text(text: Seq<char>) -> Option<Seq<char>> {
    match line_of(text, 0) {
        Some(line) => latest_version_in(line),
        None => None,
    }
}

/// The installed path and version named by the third line of `text`.
pub open spec fn installed_of_text(text: Seq<char>) -> Option<(Seq<char>, Seq<char>)> {
    match line_of(text, 2) {
        Some(line) => installed_in(line),
        None => None,
    }
}

/// What reading the info text `text` of package `name` gives.
pub open spec fn parse_result(name: Seq<char>, text: Seq<char>) -> Result<
    PackageInfoView,
    ParseErrorKind,
> {
    match latest_of_text(text) {
        None => Err(ParseErrorKind::MissingLatestVersion),
        Some(latest) => match installed_of_text(text) {
            None => Err(ParseErrorKind::MissingInstalledVersion),
            Some((path, installed)) => Ok(
                PackageInfoView { name, latest, installed, path },
            ),
        },
    }
}

/// Reads the first three lines of a package's info text: the latest version
/// from the first, the installed path and version from the third.
pub fn parse(name: &str, text: &str) -> (r: Result<PackageInfo, ParseError>)
    ensures
        match r {
            Ok(info) => parse_result(name@, text@) == Ok::<PackageInfoView, ParseErrorKind>(
                info@,
            ),
            Err(e) => e.name@ == name@ && parse_result(name@, text@) == Err::<
                PackageInfoView,
                ParseErrorKind,
            >(e.kind),
        },
{
    let latest = match nth_line(text, 0) {
        Some(line) => match_latest_version(line.as_str()),
        None => None,
    };
    let installed = match nth_line(text, 2) {
        Some(line) => match_installed(line.as_str()),
        None => None,
    };
    match latest {
        None => Err(ParseError { kind: ParseErrorKind::MissingLatestVersion, name: String::from_str(name) }),
        Some(latest) => match installed {
            None => Err(
                ParseError { kind: ParseErrorKind::MissingInstalledVersion, name: String::from_str(name) },
            ),
            Some((path, installed)) => Ok(
                PackageInfo { name: String::from_str(name), latest, installed, path },
            ),
        },
    }
}

/// Reading a package's info text looks at its first and third lines only:
/// two texts that agree on those lines read the same.
pub proof fn lemma_parse_reads_header_only(name: Seq<char>, t1: Seq<char>, t2: Seq<char>)
    requires
        line_of(t1, 0) == line_of(t2, 0),
        line_of(t1, 2) == line_of(t2, 2),
    ensures
        parse_result(name, t1) == parse_result(name, t2),
{
}

/// Whether `l` can stand as one line of a text: it holds no line feed and
/// does not end in a carriage return.
pub open spec fn plain_line(l: Seq<char>) -> bool {
    (forall|i: int| 0 <= i < l.len() ==> l[i] != '\n') && (l.len() == 0 || l.last() != '\r')
}

/// A header of three lines whose first and third match the two patterns
/// reads as exactly what the patterns capture, whatever the second line and
/// whatever follows the third.
pub proof fn lemma_parse_header(
    name: Seq<char>,
    l1: Seq<char>,
    l2: Seq<char>,
    l3: Seq<char>,
    tail: Seq<char>,
)
    requires
        plain_line(l1),
        plain_line(l2),
        plain_line(l3),
        tail.len() == 0 || tail[0] == '\n',
        latest_version_in(l1).is_some(),
        installed_in(l3).is_some(),
    ensures
        parse_result(name, l1 + seq!['\n'] + l2 + seq!['\n'] + l3 + tail) == Ok::<
            PackageInfoView,
            ParseErrorKind,
        >(
            PackageInfoView {
                name,
                latest: latest_version_in(l1).unwrap(),
                installed: installed_in(l3).unwrap().1,
                path: installed_in(l3).unwrap().0,
            },
        ),
{
    let t = l1 + seq!['\n'] + l2 + seq!['\n'] + l3 + tail;
    let a = l1.len() as int;
    let b = a + 1 + l2.len();
    let c = b + 1 + l3.len();
    assert(l3.len() > 0);
    assert(t.len() == c + tail.len());
    assert forall|i: int| 0 <= i < a implies t[i] != '\n' && t[i] == l1[i] by {}
    assert forall|i: int| a + 1 <= i < b implies t[i] != '\n' by {
        assert(t[i] == l2[i - a - 1]);
    }
    assert forall|i: int| b + 1 <= i < c implies t[i] != '\n' && t[i] == l3[i - b - 1] by {}
    assert(t[a] == '\n');
    assert(t[b] == '\n');
    assert(c < t.len() ==> t[c] == tail[0]);
    lemma_line_end_at(t, 0, a);
    lemma_line_end_at(t, a + 1, b);
    lemma_line_end_at(t, b + 1, c);
    assert(line_start(t, 0) == Some(0int));
    assert(line_start(t, 1) == Some(a + 1));
    assert(line_start(t, 2) == Some(b + 1));
    if a > 0 {
        assert(t[a - 1] == l1.last());
    }
    assert(t[c - 1] == l3.last());
    assert(t.subrange(0, a) =~= l1);
    assert(t.subrange(b + 1, c) =~= l3);
    assert(line_of(t, 0) == Some(l1));
    assert(line_of(t, 2) == Some(l3));
}

} // verus!
