use vstd::prelude::*;

verus! {

/// Index of the first line feed of `s` at or after `from`, or the length of `s`.
pub open spec fn line_end(s: Seq<char>, from: int) -> int
    decreases s.len() - from,
{
    if from >= s.len() {
        s.len() as int
    } else if s[from] == '\n' {
        from
    } else {
        line_end(s, from + 1)
    }
}

/// Where line `k` of `s` (counted from 0) begins, when `s` has that many lines.
/// A line feed that ends the text opens no further line.
pub open spec fn line_start(s: Seq<char>, k: nat) -> Option<int>
    decreases k,
{
    if k == 0 {
        if s.len() > 0 {
            Some(0)
        } else {
            None
        }
    } else {
        match line_start(s, (k - 1) as nat) {
            Some(p) => {
                let e = line_end(s, p);
                if e + 1 < s.len() {
                    Some(e + 1)
                } else {
                    None
                }
            },
            None => None,
        }
    }
}

/// Line `k` of `s` without its line ending: a line feed, or a carriage return
/// followed by a line feed.
pub open spec fn line_of(s: Seq<char>, k: nat) -> Option<Seq<char>> {
    match line_start(s, k) {
        Some(p) => {
            let e = line_end(s, p);
            if e < s.len() && e > p && s[e - 1] == '\r' {
                Some(s.subrange(p, e - 1))
            } else {
                Some(s.subrange(p, e))
            }
        },
        None => None,
    }
}

/// The characters of an optional string.
pub open spec fn opt_view(o: Option<String>) -> Option<Seq<char>> {
    match o {
        Some(s) => Some(s@),
        None => None,
    }
}

proof fn lemma_no_line_after(s: Seq<char>, j: nat, k: nat)
    requires
        j <= k,
        line_start(s, j).is_none(),
    ensures
        line_start(s, k).is_none(),
    decreases k - j,
{
    if j < k {
        lemma_no_line_after(s, j, (k - 1) as nat);
    }
}

/// The line starting at `from` ends at `p` when no line feed lies between.
pub proof fn lemma_line_end_at(s: Seq<char>, from: int, p: int)
    requires
        0 <= from <= p <= s.len(),
        forall|i: int| from <= i < p ==> s[i] != '\n',
        p == s.len() || s[p] == '\n',
    ensures
        line_end(s, from) == p,
    decreases p - from,
{
    if from < p {
        lemma_line_end_at(s, from + 1, p);
    }
}

fn find_line_end(text: &str, len: usize, from: usize) -> (e: usize)
    requires
        len == text@.len(),
        from <= len,
    ensures
        e as int == line_end(text@, from as int),
        from <= e <= len,
{
    let mut i = from;
    while i < len
        invariant
            from <= i <= len,
            len == text@.len(),
            line_end(text@, from as int) == line_end(text@, i as int),
        decreases len - i,
    {
        if text.get_char(i) == '\n' {
            return i;
        }
        i = i + 1;
    }
    i
}

/// Line `k` of `text`, counted from 0, as `str::lines` yields it.
pub fn nth_line(text: &str, k: usize) -> (r: Option<String>)
    ensures
        opt_view(r) == line_of(text@, k as nat),
{
    let len = text.unicode_len();
    if len == 0 {
        proof {
            lemma_no_line_after(text@, 0, k as nat);
        }
        return None;
    }
    let mut p: usize = 0;
    let mut j: usize = 0;
    while j < k
        invariant
            j <= k,
            p < len,
            len == text@.len(),
            line_start(text@, j as nat) == Some(p as int),
        decreases k - j,
    {
        let e = find_line_end(text, len, p);
        if e >= len - 1 {
            assert(line_start(text@, (j + 1) as nat).is_none());
            proof {
                lemma_no_line_after(text@, (j + 1) as nat, k as nat);
            }
            return None;
        }
        p = e + 1;
        j = j + 1;
    }
    let e = find_line_end(text, len, p);
    let stop = if e < len && e > p && text.get_char(e - 1) == '\r' {
        e - 1
    } else {
        e
    };
    Some(String::from_str(text.substring_char(p, stop)))
}

/// Every line of `text`, in order, as `str::lines` yields them.
pub fn all_lines(text: &str) -> (r: Vec<String>)
    ensures
        forall|k: int| 0 <= k < r.len() ==> line_of(text@, k as nat) == Some(#[trigger] r@[k]@),
        line_of(text@, r.len() as nat).is_none(),
{
    let len = text.unicode_len();
    let mut out: Vec<String> = Vec::new();
    if len == 0 {
        return out;
    }
    let mut p: usize = 0;
    loop
        invariant
            p < len,
            len == text@.len(),
            line_start(text@, out.len() as nat) == Some(p as int),
            forall|k: int|
                0 <= k < out.len() ==> line_of(text@, k as nat) == Some(#[trigger] out@[k]@),
        ensures
            forall|k: int|
                0 <= k < out.len() ==> line_of(text@, k as nat) == Some(#[trigger] out@[k]@),
            line_of(text@, out.len() as nat).is_none(),
        decreases len - p,
    {
        let e = find_line_end(text, len, p);
        let stop = if e < len && e > p && text.get_char(e - 1) == '\r' {
            e - 1
        } else {
            e
        };
        let line = String::from_str(text.substring_char(p, stop));
        let ghost n = out.len();
        out.push(line);
        proof {
            assert(out@[n as int]@ == line_of(text@, n as nat).unwrap());
            assert(line_start(text@, (n + 1) as nat) == if e + 1 < len {
                Some(e + 1)
            } else {
                None::<int>
            });
        }
        if e >= len - 1 {
            return out;
        }
        p = e + 1;
    }
}

} // verus!
