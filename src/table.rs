use vstd::prelude::*;

use crate::ordering::{PackageRecord, PackageRecordView};

verus! {

/// The first `width` characters of `s` when a width is given, else all of `s`.
pub open spec fn truncated(s: Seq<char>, width: Option<usize>) -> Seq<char> {
    match width {
        Some(w) => if s.len() <= w {
            s
        } else {
            s.take(w as int)
        },
        None => s,
    }
}

/// How a verdict reads in the report.
pub open spec fn verdict_text(updatable: bool) -> Seq<char> {
    if updatable {
        "Yes"@
    } else {
        "No"@
    }
}

/// The report line of a record: name, installed and latest version, and
/// verdict, separated by tabs and ended by a line feed. The versions are cut
/// to `width` characters when a width is given.
pub open spec fn row_text(r: PackageRecordView, width: Option<usize>) -> Seq<char> {
    r.name + "\t"@ + truncated(r.installed, width) + "\t"@ + truncated(r.latest, width) + "\t"@
        + verdict_text(r.updatable) + "\n"@
}

/// The visible fields of one report line.
#[derive(Debug)]
pub struct RowFields {
    pub name: String,
    pub installed: String,
    pub latest: String,
    pub updatable: bool,
}

/// The characters of each field of a [`RowFields`].
pub struct RowFieldsView {
    pub name: Seq<char>,
    pub installed: Seq<char>,
    pub latest: Seq<char>,
    pub updatable: bool,
}

impl View for RowFields {
    type V = RowFieldsView;

    open spec fn view(&self) -> RowFieldsView {
        RowFieldsView {
            name: self.name@,
            installed: self.installed@,
            latest: self.latest@,
            updatable: self.updatable,
        }
    }
}

/// Index of the first tab of `s` at or after `from`, or the length of `s`.
pub open spec fn next_tab(s: Seq<char>, from: int) -> int
    decreases s.len() - from,
{
    if from >= s.len() {
        s.len() as int
    } else if s[from] == '\t' {
        from
    } else {
        next_tab(s, from + 1)
    }
}

/// The fields of a report line: four tab-separated fields before a final line
/// feed, the last of which is a verdict.
pub open spec fn row_fields_of(row: Seq<char>) -> Option<RowFieldsView> {
    if row.len() == 0 || row.last() != '\n' {
        None
    } else {
        let body = row.drop_last();
        let t1 = next_tab(body, 0);
        let t2 = next_tab(body, t1 + 1);
        let t3 = next_tab(body, t2 + 1);
        if t3 >= body.len() || next_tab(body, t3 + 1) < body.len() {
            None
        } else {
            let verdict = body.subrange(t3 + 1, body.len() as int);
            if verdict == "Yes"@ || verdict == "No"@ {
                Some(
                    RowFieldsView {
                        name: body.subrange(0, t1),
                        installed: body.subrange(t1 + 1, t2),
                        latest: body.subrange(t2 + 1, t3),
                        updatable: verdict == "Yes"@,
                    },
                )
            } else {
                None
            }
        }
    }
}

/// Whether `s` holds no tab.
pub open spec fn tab_free(s: Seq<char>) -> bool {
    forall|i: int| 0 <= i < s.len() ==> s[i] != '\t'
}

/// Cuts `s` to its first `width` characters when a width is given.
pub fn truncate(s: &str, width: Option<usize>) -> (r: String)
    ensures
        r@ == truncated(s@, width),
{
    let len = s.unicode_len();
    match width {
        Some(w) => if len <= w {
            String::from_str(s)
        } else {
            String::from_str(s.substring_char(0, w))
        },
        None => String::from_str(s),
    }
}

/// The title line of the report.
pub fn header_row() -> (r: String)
    ensures
        r@ == "Cask\tInstalled\tLatest\tNeeds update\n"@,
{
    String::from_str("Cask\tInstalled\tLatest\tNeeds update\n")
}

/// Renders a record as a report line.
pub fn render_row(r: &PackageRecord, width: Option<usize>) -> (s: String)
    ensures
        s@ == row_text(r@, width),
{
    let mut out = String::from_str(r.name.as_str());
    out.append("\t");
    let installed = truncate(r.installed.as_str(), width);
    out.append(installed.as_str());
    out.append("\t");
    let latest = truncate(r.latest.as_str(), width);
    out.append(latest.as_str());
    out.append("\t");
    if r.updatable {
        out.append("Yes");
    } else {
        out.append("No");
    }
    out.append("\n");
    out
}

fn find_tab(text: &str, len: usize, from: usize) -> (e: usize)
    requires
        len <= text@.len(),
        from <= len,
    ensures
        e as int == next_tab(text@.take(len as int), from as int),
        from <= e <= len,
{
    let ghost body = text@.take(len as int);
    let mut i = from;
    while i < len
        invariant
            from <= i <= len,
            len <= text@.len(),
            body == text@.take(len as int),
            next_tab(body, from as int) == next_tab(body, i as int),
        decreases len - i,
    {
        if text.get_char(i) == '\t' {
            return i;
        }
        i = i + 1;
    }
    i
}

/// Reads the visible fields back from a report line.
pub fn parse_row(row: &str) -> (r: Option<RowFields>)
    ensures
        match r {
            Some(f) => row_fields_of(row@) == Some(f@),
            None => row_fields_of(row@).is_none(),
        },
{
    let len = row.unicode_len();
    if len == 0 || row.get_char(len - 1) != '\n' {
        return None;
    }
    let blen = len - 1;
    let ghost body = row@.drop_last();
    assert(body =~= row@.take(blen as int));
    let t1 = find_tab(row, blen, 0);
    if t1 == blen {
        return None;
    }
    let t2 = find_tab(row, blen, t1 + 1);
    if t2 == blen {
        return None;
    }
    let t3 = find_tab(row, blen, t2 + 1);
    if t3 == blen {
        return None;
    }
    let t4 = find_tab(row, blen, t3 + 1);
    if t4 < blen {
        return None;
    }
    let verdict = String::from_str(row.substring_char(t3 + 1, blen));
    assert(verdict@ =~= body.subrange(t3 + 1, blen as int));
    let yes = verdict == String::from_str("Yes");
    let no = verdict == String::from_str("No");
    if !yes && !no {
        return None;
    }
    let name = String::from_str(row.substring_char(0, t1));
    let installed = String::from_str(row.substring_char(t1 + 1, t2));
    let latest = String::from_str(row.substring_char(t2 + 1, t3));
    assert(name@ =~= body.subrange(0, t1 as int));
    assert(installed@ =~= body.subrange(t1 + 1, t2 as int));
    assert(latest@ =~= body.subrange(t2 + 1, t3 as int));
    Some(RowFields { name, installed, latest, updatable: yes })
}

proof fn lemma_next_tab_at(s: Seq<char>, from: int, p: int)
    requires
        0 <= from <= p <= s.len(),
        forall|i: int| from <= i < p ==> s[i] != '\t',
        p == s.len() || s[p] == '\t',
    ensures
        next_tab(s, from) == p,
    decreases p - from,
{
    if from < p {
        lemma_next_tab_at(s, from + 1, p);
    }
}

/// Reading back a rendered report line gives the record's name and verdict,
/// and its versions as cut to the report's width, provided that none of the
/// three texts holds a tab.
pub proof fn lemma_row_round_trip(r: PackageRecordView, width: Option<usize>)
    requires
        tab_free(r.name),
        tab_free(r.installed),
        tab_free(r.latest),
    ensures
        row_fields_of(row_text(r, width)) == Some(
            RowFieldsView {
                name: r.name,
                installed: truncated(r.installed, width),
                latest: truncated(r.latest, width),
                updatable: r.updatable,
            },
        ),
{
    reveal_strlit("\t");
    reveal_strlit("\n");
    reveal_strlit("Yes");
    reveal_strlit("No");
    let tab = "\t"@;
    let n = r.name;
    let i = truncated(r.installed, width);
    let l = truncated(r.latest, width);
    let v = verdict_text(r.updatable);
    assert(tab_free(i));
    assert(tab_free(l));
    assert(tab_free(v));
    let row = row_text(r, width);
    let body = n + tab + i + tab + l + tab + v;
    assert(row =~= body + "\n"@);
    assert(row.drop_last() =~= body);
    let t1 = n.len() as int;
    let t2 = t1 + 1 + i.len();
    let t3 = t2 + 1 + l.len();
    assert(body.len() == t3 + 1 + v.len());
    assert forall|k: int| 0 <= k < t1 implies body[k] != '\t' && body[k] == n[k] by {}
    assert forall|k: int| t1 + 1 <= k < t2 implies body[k] != '\t' && body[k] == i[k - t1 - 1] by {}
    assert forall|k: int| t2 + 1 <= k < t3 implies body[k] != '\t' && body[k] == l[k - t2 - 1] by {}
    assert forall|k: int| t3 + 1 <= k < body.len() implies body[k] != '\t' && body[k] == v[k - t3 - 1] by {}
    lemma_next_tab_at(body, 0, t1);
    lemma_next_tab_at(body, t1 + 1, t2);
    lemma_next_tab_at(body, t2 + 1, t3);
    lemma_next_tab_at(body, t3 + 1, body.len() as int);
    assert(body.subrange(0, t1) =~= n);
    assert(body.subrange(t1 + 1, t2) =~= i);
    assert(body.subrange(t2 + 1, t3) =~= l);
    assert(body.subrange(t3 + 1, body.len() as int) =~= v);
}

} // verus!
