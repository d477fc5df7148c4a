use vstd::prelude::*;

use crate::decision::DecisionError;
use crate::info::ParseError;
use crate::lines::{all_lines, line_of};
use crate::ordering::PackageRecord;
use crate::table::{header_row, render_row, row_text};

verus! {

/// How many characters of each version the report shows.
pub const REPORT_WIDTH: usize = 20;

/// Why a session stopped before its end.
#[derive(Debug)]
pub enum SessionError {
    /// The package manager could not list the installed packages.
    ListFailed,
    /// The info text of a package could not be read.
    Parse(ParseError),
    /// No verdict could be reached for a package.
    Decision(DecisionError),
}

/// Whether `c` has the Unicode White_Space property.
pub open spec fn is_white_space(c: char) -> bool {
    let n = c as int;
    (9 <= n <= 13) || n == 0x20 || n == 0x85 || n == 0xA0 || n == 0x1680 || (0x2000 <= n
        <= 0x200A) || n == 0x2028 || n == 0x2029 || n == 0x202F || n == 0x205F || n == 0x3000
}

/// Relies on `char::is_whitespace`, which holds exactly for the characters
/// with the Unicode White_Space property.
#[verifier::external_body]
fn white_space(c: char) -> (r: bool)
    ensures
        r == is_white_space(c),
{
    c.is_whitespace()
}

/// The first index at or after `i` of a character of `s` that is not white space,
/// or the length of `s`.
pub open spec fn text_start(s: Seq<char>, i: int) -> int
    decreases s.len() - i,
{
    if i >= s.len() {
        s.len() as int
    } else if is_white_space(s[i]) {
        text_start(s, i + 1)
    } else {
        i
    }
}

/// The end of `s.take(j)` once white space is cut from its end.
pub open spec fn text_end(s: Seq<char>, j: int) -> int
    decreases j,
{
    if j <= 0 {
        0
    } else if is_white_space(s[j - 1]) {
        text_end(s, j - 1)
    } else {
        j
    }
}

/// `s` without white space at either end, as `str::trim` leaves it.
pub open spec fn trimmed(s: Seq<char>) -> Seq<char> {
    let a = text_start(s, 0);
    let b = text_end(s, s.len() as int);
    if a >= b {
        Seq::empty()
    } else {
        s.subrange(a, b)
    }
}

/// Cuts white space from both ends of `s`.
pub fn trim(s: &str) -> (r: String)
    ensures
        r@ == trimmed(s@),
{
    let len = s.unicode_len();
    let mut a: usize = 0;
    while a < len && white_space(s.get_char(a))
        invariant
            a <= len,
            len == s@.len(),
            text_start(s@, 0) == text_start(s@, a as int),
        decreases len - a,
    {
        a = a + 1;
    }
    let mut b: usize = len;
    while b > 0 && white_space(s.get_char(b - 1))
        invariant
            b <= len,
            len == s@.len(),
            text_end(s@, len as int) == text_end(s@, b as int),
        decreases b,
    {
        b = b - 1;
    }
    if a >= b {
        String::new()
    } else {
        String::from_str(s.substring_char(a, b))
    }
}

/// Line `k` of a listing, trimmed, when the listing has that many lines.
pub open spec fn listed_name(listing: Seq<char>, k: nat) -> Option<Seq<char>> {
    match line_of(listing, k) {
        Some(line) => Some(trimmed(line)),
        None => None,
    }
}

/// The names of the installed packages, one per line of the package manager's
/// listing, trimmed. A listing that did not succeed ends the session.
pub fn package_names(listed: bool, listing: &str) -> (r: Result<Vec<String>, SessionError>)
    ensures
        match r {
            Ok(names) => listed && line_of(listing@, names.len() as nat).is_none() && forall|k: int|
                0 <= k < names.len() ==> listed_name(listing@, k as nat) == Some(
                    #[trigger] names@[k]@,
                ),
            Err(e) => !listed && e is ListFailed,
        },
{
    if !listed {
        return Err(SessionError::ListFailed);
    }
    let lines = all_lines(listing);
    let mut names: Vec<String> = Vec::new();
    let mut k: usize = 0;
    while k < lines.len()
        invariant
            k <= lines.len(),
            names.len() == k,
            forall|i: int|
                0 <= i < lines.len() ==> line_of(listing@, i as nat) == Some(
                    #[trigger] lines@[i]@,
                ),
            line_of(listing@, lines.len() as nat).is_none(),
            forall|i: int|
                0 <= i < k ==> listed_name(listing@, i as nat) == Some(#[trigger] names@[i]@),
        decreases lines.len() - k,
    {
        let name = trim(lines[k].as_str());
        let ghost prev = names@;
        names.push(name);
        proof {
            assert(line_of(listing@, k as nat) == Some(lines@[k as int]@));
            assert forall|i: int|
                0 <= i < k + 1 implies listed_name(listing@, i as nat) == Some(
                #[trigger] names@[i]@) by {
                if i < k {
                    assert(names@[i] == prev[i]);
                }
            }
        }
        k = k + 1;
    }
    Ok(names)
}

/// The indices, in order, of the updatable records among the first `n` of `s`.
pub open spec fn updatable_indices(s: Seq<PackageRecord>, n: int) -> Seq<usize>
    decreases n,
{
    if n <= 0 {
        Seq::empty()
    } else if s[n - 1].updatable {
        updatable_indices(s, n - 1).push((n - 1) as usize)
    } else {
        updatable_indices(s, n - 1)
    }
}

/// The positions of the records to reinstall, in report order.
pub fn updates(records: &Vec<PackageRecord>) -> (r: Vec<usize>)
    ensures
        r@ == updatable_indices(records@, records.len() as int),
{
    let mut out: Vec<usize> = Vec::new();
    let mut k: usize = 0;
    while k < records.len()
        invariant
            k <= records.len(),
            out@ == updatable_indices(records@, k as int),
        decreases records.len() - k,
    {
        if records[k].updatable {
            out.push(k);
        }
        k = k + 1;
    }
    out
}

/// The progress line printed before a package is reinstalled.
pub fn update_message(r: &PackageRecord) -> (s: String)
    ensures
        s@ == "Updating "@ + r.name@ + " from "@ + r.installed@ + " to "@ + r.latest@,
{
    let s = String::from_str("Updating ");
    let s = s.concat(r.name.as_str());
    let s = s.concat(" from ");
    let s = s.concat(r.installed.as_str());
    let s = s.concat(" to ");
    s.concat(r.latest.as_str())
}

/// The report: a title line, then one line per record in the given order.
pub fn report_lines(records: &Vec<PackageRecord>, width: Option<usize>) -> (r: Vec<String>)
    ensures
        r.len() == records.len() + 1,
        r@[0]@ == "Cask\tInstalled\tLatest\tNeeds update\n"@,
        forall|k: int|
            0 <= k < records.len() ==> (#[trigger] r@[k + 1])@ == row_text(records@[k]@, width),
{
    let mut out: Vec<String> = Vec::new();
    out.push(header_row());
    let mut k: usize = 0;
    while k < records.len()
        invariant
            k <= records.len(),
            out.len() == k + 1,
            out@[0]@ == "Cask\tInstalled\tLatest\tNeeds update\n"@,
            forall|i: int| 0 <= i < k ==> (#[trigger] out@[i + 1])@ == row_text(records@[i]@, width),
        decreases records.len() - k,
    {
        out.push(render_row(&records[k], width));
        k = k + 1;
    }
    out
}

} // verus!
