use vstd::prelude::*;

use core::cmp::Ordering;

use crate::info::PackageInfo;

verus! {

broadcast use vstd::seq_lib::group_to_multiset_ensures;

/// A package together with the verdict on it.
#[derive(Debug)]
pub struct PackageRecord {
    pub name: String,
    pub installed: String,
    pub latest: String,
    pub path: String,
    pub updatable: bool,
}

/// The characters of each field of a [`PackageRecord`].
pub struct PackageRecordView {
    pub name: Seq<char>,
    pub installed: Seq<char>,
    pub latest: Seq<char>,
    pub path: Seq<char>,
    pub updatable: bool,
}

impl View for PackageRecord {
    type V = PackageRecordView;

    open spec fn view(&self) -> PackageRecordView {
        PackageRecordView {
            name: self.name@,
            installed: self.installed@,
            latest: self.latest@,
            path: self.path@,
            updatable: self.updatable,
        }
    }
}

impl PackageRecord {
    /// The record of a package with its verdict.
    pub fn from_info(info: PackageInfo, updatable: bool) -> (r: PackageRecord)
        ensures
            r.name@ == info.name@,
            r.installed@ == info.installed@,
            r.latest@ == info.latest@,
            r.path@ == info.path@,
            r.updatable == updatable,
    {
        PackageRecord {
            name: info.name,
            installed: info.installed,
            latest: info.latest,
            path: info.path,
            updatable,
        }
    }
}

/// The ordering with `Less` and `Greater` swapped.
pub open spec fn flip(o: Ordering) -> Ordering {
    match o {
        Ordering::Less => Ordering::Greater,
        Ordering::Equal => Ordering::Equal,
        Ordering::Greater => Ordering::Less,
    }
}

/// Lexicographic order of two texts by code point, as `str::cmp` orders them.
pub open spec fn text_order(a: Seq<char>, b: Seq<char>) -> Ordering
    decreases a.len(),
{
    if a.len() == 0 {
        if b.len() == 0 {
            Ordering::Equal
        } else {
            Ordering::Less
        }
    } else if b.len() == 0 {
        Ordering::Greater
    } else if (a[0] as int) < (b[0] as int) {
        Ordering::Less
    } else if (a[0] as int) > (b[0] as int) {
        Ordering::Greater
    } else {
        text_order(a.drop_first(), b.drop_first())
    }
}

/// Report order: up-to-date packages before updatable ones, then by name.
pub open spec fn record_order(a: PackageRecordView, b: PackageRecordView) -> Ordering {
    if a.updatable == b.updatable {
        text_order(a.name, b.name)
    } else if !a.updatable {
        Ordering::Less
    } else {
        Ordering::Greater
    }
}

/// Whether `s` is in report order.
pub open spec fn in_report_order(s: Seq<PackageRecord>) -> bool {
    forall|i: int, j: int|
        0 <= i < j < s.len() ==> record_order(#[trigger] s[i]@, #[trigger] s[j]@)
            != Ordering::Greater
}

proof fn lemma_text_order_flip(a: Seq<char>, b: Seq<char>)
    ensures
        text_order(b, a) == flip(text_order(a, b)),
    decreases a.len(),
{
    if a.len() > 0 && b.len() > 0 && (a[0] as int) == (b[0] as int) {
        lemma_text_order_flip(a.drop_first(), b.drop_first());
    }
}

proof fn lemma_text_order_equal(a: Seq<char>, b: Seq<char>)
    ensures
        text_order(a, b) == Ordering::Equal <==> a == b,
    decreases a.len(),
{
    if a.len() > 0 && b.len() > 0 && (a[0] as int) == (b[0] as int) {
        lemma_text_order_equal(a.drop_first(), b.drop_first());
        if a.drop_first() == b.drop_first() {
            assert(a[0] == b[0]);
            assert(a =~= seq![a[0]] + a.drop_first());
            assert(b =~= seq![b[0]] + b.drop_first());
        }
    } else if a.len() == 0 && b.len() == 0 {
        assert(a =~= b);
    }
}

proof fn lemma_text_order_trans(a: Seq<char>, b: Seq<char>, c: Seq<char>)
    requires
        text_order(a, b) != Ordering::Greater,
        text_order(b, c) != Ordering::Greater,
    ensures
        text_order(a, c) != Ordering::Greater,
        text_order(a, b) == Ordering::Less || text_order(b, c) == Ordering::Less ==> text_order(
            a,
            c,
        ) == Ordering::Less,
    decreases a.len(),
{
    if a.len() > 0 && b.len() > 0 && c.len() > 0 && (a[0] as int) == (b[0] as int) && (b[0] as int)
        == (c[0] as int) {
        lemma_text_order_trans(a.drop_first(), b.drop_first(), c.drop_first());
    }
}

/// Report order is a total order: every record is equal to itself, the
/// order of `b` against `a` is that of `a` against `b` turned round, records
/// equal in the order have the same name and verdict, and it is transitive,
/// strictly so when either step is strict.
pub proof fn lemma_record_order_total(a: PackageRecordView, b: PackageRecordView, c: PackageRecordView)
    ensures
        record_order(a, a) == Ordering::Equal,
        record_order(b, a) == flip(record_order(a, b)),
        record_order(a, b) == Ordering::Equal ==> a.name == b.name && a.updatable == b.updatable,
        record_order(a, b) != Ordering::Greater && record_order(b, c) != Ordering::Greater
            ==> record_order(a, c) != Ordering::Greater,
        record_order(a, b) == Ordering::Less && record_order(b, c) != Ordering::Greater
            ==> record_order(a, c) == Ordering::Less,
        record_order(a, b) != Ordering::Greater && record_order(b, c) == Ordering::Less
            ==> record_order(a, c) == Ordering::Less,
{
    lemma_text_order_equal(a.name, a.name);
    lemma_text_order_equal(a.name, b.name);
    lemma_text_order_flip(a.name, b.name);
    if record_order(a, b) != Ordering::Greater && record_order(b, c) != Ordering::Greater
        && a.updatable == b.updatable && b.updatable == c.updatable {
        lemma_text_order_trans(a.name, b.name, c.name);
    }
}

fn compare_names(a: &str, b: &str) -> (r: Ordering)
    ensures
        r == text_order(a@, b@),
{
    let alen = a.unicode_len();
    let blen = b.unicode_len();
    let mut i: usize = 0;
    assert(a@.skip(0) =~= a@);
    assert(b@.skip(0) =~= b@);
    while i < alen && i < blen && a.get_char(i) == b.get_char(i)
        invariant
            i <= alen,
            i <= blen,
            alen == a@.len(),
            blen == b@.len(),
            text_order(a@, b@) == text_order(a@.skip(i as int), b@.skip(i as int)),
        decreases alen - i,
    {
        assert(a@.skip(i as int).drop_first() =~= a@.skip(i + 1));
        assert(b@.skip(i as int).drop_first() =~= b@.skip(i + 1));
        i = i + 1;
    }
    if i == alen {
        if i == blen {
            Ordering::Equal
        } else {
            Ordering::Less
        }
    } else if i == blen {
        Ordering::Greater
    } else {
        let x = a.get_char(i);
        let y = b.get_char(i);
        if x < y {
            Ordering::Less
        } else {
            Ordering::Greater
        }
    }
}

/// Compares two records in report order.
pub fn compare(a: &PackageRecord, b: &PackageRecord) -> (r: Ordering)
    ensures
        r == record_order(a@, b@),
{
    if a.updatable == b.updatable {
        compare_names(a.name.as_str(), b.name.as_str())
    } else if !a.updatable {
        Ordering::Less
    } else {
        Ordering::Greater
    }
}

/// Puts records in report order, keeping each of them.
pub fn sort_records(records: Vec<PackageRecord>) -> (r: Vec<PackageRecord>)
    ensures
        r@.to_multiset() == records@.to_multiset(),
        in_report_order(r@),
{
    let mut rest = records;
    let mut out: Vec<PackageRecord> = Vec::new();
    while rest.len() > 0
        invariant
            out@.to_multiset().add(rest@.to_multiset()) == records@.to_multiset(),
            in_report_order(out@),
        decreases rest.len(),
    {
        let ghost before = rest@;
        let item = rest.pop().unwrap();
        proof {
            assert(before =~= rest@.push(item));
        }
        let mut j: usize = 0;
        while j < out.len()
            invariant
                j <= out.len(),
                forall|k: int| 0 <= k < j ==> record_order(#[trigger] out@[k]@, item@)
                    != Ordering::Greater,
            ensures
                j <= out.len(),
                forall|k: int| 0 <= k < j ==> record_order(#[trigger] out@[k]@, item@)
                    != Ordering::Greater,
                j < out.len() ==> record_order(out@[j as int]@, item@) == Ordering::Greater,
            decreases out.len() - j,
        {
            if let Ordering::Greater = compare(&out[j], &item) {
                break;
            }
            j = j + 1;
        }
        let ghost prev = out@;
        proof {
            assert forall|k: int| j < k < prev.len() implies record_order(
                item@,
                #[trigger] prev[k]@,
            ) == Ordering::Less by {
                lemma_record_order_total(prev[j as int]@, item@, prev[k]@);
                lemma_record_order_total(item@, prev[j as int]@, prev[k]@);
            }
            if j < prev.len() {
                lemma_record_order_total(prev[j as int]@, item@, item@);
            }
            assert forall|k: int| 0 <= k < j implies record_order(
                #[trigger] prev[k]@,
                item@,
            ) != Ordering::Greater by {}
        }
        out.insert(j, item);
        proof {
            assert forall|p: int, q: int| 0 <= p < q < out@.len() implies record_order(
                #[trigger] out@[p]@,
                #[trigger] out@[q]@,
            ) != Ordering::Greater by {
                if q == j {
                    assert(out@[p] == prev[p]);
                } else if p == j {
                    assert(out@[q] == prev[q - 1]);
                } else if q < j {
                    assert(out@[p] == prev[p] && out@[q] == prev[q]);
                } else if p < j {
                    assert(out@[p] == prev[p] && out@[q] == prev[q - 1]);
                } else {
                    assert(out@[p] == prev[p - 1] && out@[q] == prev[q - 1]);
                }
            }
        }
    }
    out
}

} // verus!
