use vstd::prelude::*;

use crate::lines::opt_view;

verus! {

/// The marks that the header matchers look for in a line.
#[derive(Clone, Copy, Debug, PartialEq, Eq, Structural)]
pub enum Mark {
    /// A colon followed by a space.
    ColonSpace,
    /// A space followed by an opening parenthesis.
    SpaceParen,
    /// A closing parenthesis.
    CloseParen,
    /// A slash.
    Slash,
}

/// Whether mark `m` starts at index `i` of `s`.
pub open spec fn mark_at(s: Seq<char>, i: int, m: Mark) -> bool {
    0 <= i && match m {
        Mark::ColonSpace => i + 1 < s.len() && s[i] == ':' && s[i + 1] == ' ',
        Mark::SpaceParen => i + 1 < s.len() && s[i] == ' ' && s[i + 1] == '(',
        Mark::CloseParen => i < s.len() && s[i] == ')',
        Mark::Slash => i < s.len() && s[i] == '/',
    }
}

/// The largest index below `hi` where mark `m` starts in `s`, or -1.
pub open spec fn last_mark(s: Seq<char>, hi: int, m: Mark) -> int
    decreases hi,
{
    if hi <= 0 {
        -1
    } else if mark_at(s, hi - 1, m) {
        hi - 1
    } else {
        last_mark(s, hi - 1, m)
    }
}

/// The directory under which the package manager installs packages.
pub open spec fn install_root() -> Seq<char> {
    "/usr/local/Caskroom/"@
}

/// Whether the install root is spelled out in `s` from index `i` on.
pub open spec fn root_at(s: Seq<char>, i: int) -> bool {
    0 <= i && i + install_root().len() <= s.len() && s.subrange(i, i + install_root().len())
        == install_root()
}

/// The smallest index `i >= from` where the install root starts and ends
/// no later than `limit`, or -1.
pub open spec fn first_root(s: Seq<char>, from: int, limit: int) -> int
    decreases limit - from,
{
    if from < 0 || from >= limit || from + install_root().len() > limit {
        -1
    } else if root_at(s, from) {
        from
    } else {
        first_root(s, from + 1, limit)
    }
}

/// The latest version on a first header line: a match of `.*: (.*)`, whose
/// greedy prefix puts the capture after the last colon and space.
pub open spec fn latest_version_in(line: Seq<char>) -> Option<Seq<char>> {
    let i = last_mark(line, line.len() as int, Mark::ColonSpace);
    if i < 0 {
        None
    } else {
        Some(line.subrange(i + 2, line.len() as int))
    }
}

/// The installed path and version on a third header line: the leftmost match of
/// `(ROOT.*/(.*)) \(.*\)`, where ROOT is the install root. Greedy matching ends
/// both captures at the last space and opening parenthesis that a closing
/// parenthesis follows; the version starts after the last slash before that.
pub open spec fn installed_in(line: Seq<char>) -> Option<(Seq<char>, Seq<char>)> {
    let close = last_mark(line, line.len() as int, Mark::CloseParen);
    let open = last_mark(line, close - 1, Mark::SpaceParen);
    let slash = last_mark(line, open, Mark::Slash);
    let start = first_root(line, 0, slash);
    if close < 0 || open < 0 || slash < 0 || start < 0 {
        None
    } else {
        Some((line.subrange(start, open), line.subrange(slash + 1, open)))
    }
}

proof fn lemma_last_mark_bounds(s: Seq<char>, hi: int, m: Mark)
    ensures
        last_mark(s, hi, m) == -1 || (0 <= last_mark(s, hi, m) < hi && mark_at(
            s,
            last_mark(s, hi, m),
            m,
        )),
    decreases hi,
{
    if hi > 0 && !mark_at(s, hi - 1, m) {
        lemma_last_mark_bounds(s, hi - 1, m);
    }
}

fn mark_at_index(line: &str, len: usize, i: usize, m: Mark) -> (r: bool)
    requires
        len == line@.len(),
        i < len,
    ensures
        r == mark_at(line@, i as int, m),
{
    match m {
        Mark::ColonSpace => i + 1 < len && line.get_char(i) == ':' && line.get_char(i + 1) == ' ',
        Mark::SpaceParen => i + 1 < len && line.get_char(i) == ' ' && line.get_char(i + 1) == '(',
        Mark::CloseParen => line.get_char(i) == ')',
        Mark::Slash => line.get_char(i) == '/',
    }
}

fn find_last_mark(line: &str, len: usize, hi: usize, m: Mark) -> (r: Option<usize>)
    requires
        len == line@.len(),
        hi <= len,
    ensures
        match r {
            Some(i) => i as int == last_mark(line@, hi as int, m) && i < hi,
            None => last_mark(line@, hi as int, m) == -1,
        },
{
    let mut k = hi;
    while k > 0
        invariant
            k <= hi <= len,
            len == line@.len(),
            last_mark(line@, hi as int, m) == last_mark(line@, k as int, m),
        decreases k,
    {
        if mark_at_index(line, len, k - 1, m) {
            return Some(k - 1);
        }
        k = k - 1;
    }
    None
}

fn text_at(line: &str, len: usize, i: usize, pat: &str, plen: usize) -> (r: bool)
    requires
        len == line@.len(),
        plen == pat@.len(),
        i <= len,
    ensures
        r == (i + plen <= len && line@.subrange(i as int, i + plen) == pat@),
{
    if plen > len - i {
        return false;
    }
    let mut k: usize = 0;
    while k < plen
        invariant
            k <= plen,
            i + plen <= len,
            len == line@.len(),
            plen == pat@.len(),
            forall|j: int| 0 <= j < k ==> line@[i + j] == pat@[j],
        decreases plen - k,
    {
        if line.get_char(i + k) != pat.get_char(k) {
            assert(line@.subrange(i as int, i + plen)[k as int] != pat@[k as int]);
            return false;
        }
        k = k + 1;
    }
    assert(line@.subrange(i as int, i + plen) =~= pat@);
    true
}

/// Matches a first header line such as `foo: 1.2.0` and returns the version.
pub fn match_latest_version(line: &str) -> (r: Option<String>)
    ensures
        opt_view(r) == latest_version_in(line@),
{
    let len = line.unicode_len();
    match find_last_mark(line, len, len, Mark::ColonSpace) {
        Some(i) => {
            proof {
                lemma_last_mark_bounds(line@, len as int, Mark::ColonSpace);
            }
            Some(String::from_str(line.substring_char(i + 2, len)))
        },
        None => None,
    }
}

/// Matches a third header line such as `/usr/local/Caskroom/foo/1.1.0 (bottle)`
/// and returns the installed path and the installed version.
pub fn match_installed(line: &str) -> (r: Option<(String, String)>)
    ensures
        match r {
            Some((path, version)) => installed_in(line@) == Some((path@, version@)),
            None => installed_in(line@).is_none(),
        },
{
    let len = line.unicode_len();
    let root = "/usr/local/Caskroom/";
    let rlen = root.unicode_len();
    assert(root@ == install_root());
    let close = match find_last_mark(line, len, len, Mark::CloseParen) {
        Some(c) => c,
        None => return None,
    };
    let open_hi = if close == 0 {
        0
    } else {
        close - 1
    };
    assert(last_mark(line@, close - 1, Mark::SpaceParen) == last_mark(
        line@,
        open_hi as int,
        Mark::SpaceParen,
    ));
    let open = match find_last_mark(line, len, open_hi, Mark::SpaceParen) {
        Some(o) => o,
        None => return None,
    };
    let slash = match find_last_mark(line, len, open, Mark::Slash) {
        Some(s) => s,
        None => return None,
    };
    let mut start: usize = 0;
    while start < slash && rlen <= slash - start
        invariant
            start <= slash < open < len,
            len == line@.len(),
            rlen == install_root().len(),
            root@ == install_root(),
            close as int == last_mark(line@, len as int, Mark::CloseParen),
            open as int == last_mark(line@, close - 1, Mark::SpaceParen),
            slash as int == last_mark(line@, open as int, Mark::Slash),
            first_root(line@, 0, slash as int) == first_root(line@, start as int, slash as int),
        decreases slash - start,
    {
        if text_at(line, len, start, root, rlen) {
            proof {
                lemma_last_mark_bounds(line@, len as int, Mark::CloseParen);
                lemma_last_mark_bounds(line@, open_hi as int, Mark::SpaceParen);
                lemma_last_mark_bounds(line@, open as int, Mark::Slash);
            }
            assert(first_root(line@, 0, slash as int) == start);
            let path = String::from_str(line.substring_char(start, open));
            let version = String::from_str(line.substring_char(slash + 1, open));
            return Some((path, version));
        }
        start = start + 1;
    }
    None
}

} // verus!
