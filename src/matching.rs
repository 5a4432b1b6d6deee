//! Vector matching for binary operators: match signatures, the set operators
//! `and` / `or` / `unless`, one-to-one and grouped pairing, and output labels.
use vstd::prelude::*;
use vstd::string::*;
use crate::labels::{LabelSet, LabelsView, names_view, restrict, lookup, insert_label,
    metric_name_label};
use crate::grouping::label_sets_view;

verus! {

/// The signature of a label set for vector matching: with `on(labels)` the
/// listed labels; with `ignoring(labels)` all labels but the listed ones and
/// `__name__`; with neither, all labels but `__name__`.
pub open spec fn signature(v: LabelsView, match_labels: Seq<Seq<char>>, is_on: bool) -> LabelsView {
    if is_on {
        restrict(v, match_labels, true)
    } else if match_labels.len() > 0 {
        restrict(v, match_labels.push(metric_name_label()), false)
    } else {
        restrict(v, seq![metric_name_label()], false)
    }
}

/// The signatures of a list of label sets.
pub open spec fn signatures(v: Seq<LabelsView>, match_labels: Seq<Seq<char>>, is_on: bool) -> Seq<LabelsView> {
    v.map_values(|l: LabelsView| signature(l, match_labels, is_on))
}

/// A copy of a list of strings.
fn copy_names(names: &Vec<String>) -> (r: Vec<String>)
    ensures
        names_view(r@) == names_view(names@),
{
    let n = names.len();
    let mut r: Vec<String> = Vec::new();
    let mut i: usize = 0;
    while i < n
        invariant
            i <= n,
            n == names@.len(),
            r@.len() == i,
            forall|j: int| 0 <= j < i ==> #[trigger] r@[j]@ == names@[j]@,
        decreases n - i,
    {
        r.push(names[i].clone());
        i += 1;
    }
    assert(names_view(r@) =~= names_view(names@));
    r
}

/// The match signature of a label set under `on` (`is_on`) or `ignoring`
/// (`!is_on`) with the given label list.
pub fn match_signature(labels: &LabelSet, match_labels: &Vec<String>, is_on: bool) -> (r: LabelSet)
    ensures
        r@ == signature(labels@, names_view(match_labels@), is_on),
{
    if is_on {
        labels.restricted(match_labels, true)
    } else {
        let mut excluded = copy_names(match_labels);
        excluded.push(String::from_str("__name__"));
        if match_labels.len() > 0 {
            assert(names_view(excluded@) =~= names_view(match_labels@).push(metric_name_label()));
        } else {
            assert(names_view(excluded@) =~= seq![metric_name_label()]);
        }
        labels.restricted(&excluded, false)
    }
}

/// The match signatures of a list of label sets.
pub fn match_signatures(series: &Vec<LabelSet>, match_labels: &Vec<String>, is_on: bool) -> (r: Vec<LabelSet>)
    ensures
        label_sets_view(r@) == signatures(label_sets_view(series@), names_view(match_labels@), is_on),
{
    let n = series.len();
    let mut r: Vec<LabelSet> = Vec::new();
    let mut i: usize = 0;
    while i < n
        invariant
            i <= n,
            n == series@.len(),
            r@.len() == i,
            forall|j: int| 0 <= j < i ==> #[trigger] r@[j]@ == signature(series@[j]@, names_view(match_labels@), is_on),
        decreases n - i,
    {
        r.push(match_signature(&series[i], match_labels, is_on));
        i += 1;
    }
    assert(label_sets_view(r@) =~= signatures(label_sets_view(series@), names_view(match_labels@), is_on));
    r
}

/// Whether some label set of `sets` equals `s`.
pub fn contains_label_set(sets: &Vec<LabelSet>, s: &LabelSet) -> (r: bool)
    ensures
        r == label_sets_view(sets@).contains(s@),
{
    let n = sets.len();
    let mut i: usize = 0;
    while i < n
        invariant
            i <= n,
            n == sets@.len(),
            forall|j: int| 0 <= j < i ==> #[trigger] sets@[j]@ != s@,
        decreases n - i,
    {
        if sets[i].same_as(s) {
            assert(label_sets_view(sets@)[i as int] == s@);
            return true;
        }
        i += 1;
    }
    assert(!label_sets_view(sets@).contains(s@)) by {
        if label_sets_view(sets@).contains(s@) {
            let j = choose|j: int| 0 <= j < n && label_sets_view(sets@)[j] == s@;
            assert(sets@[j]@ == s@);
        }
    }
    false
}

/// The set operators between vectors.
#[derive(PartialEq, Eq, Structural, Clone, Copy, Debug)]
pub enum SetOp {
    And,
    Or,
    Unless,
}

/// A series of the left or of the right operand, by position.
#[derive(PartialEq, Eq, Structural, Clone, Copy, Debug)]
pub enum Pick {
    Left(usize),
    Right(usize),
}

/// The positions of `sigs` whose signature occurs in `others` (`present`) or
/// does not (`!present`), in order, tagged as left or right series.
pub open spec fn picks(sigs: Seq<LabelsView>, others: Seq<LabelsView>, present: bool, left: bool) -> Seq<Pick>
    decreases sigs.len(),
{
    if sigs.len() == 0 {
        seq![]
    } else {
        let rest = picks(sigs.drop_last(), others, present, left);
        let i = (sigs.len() - 1) as usize;
        if others.contains(sigs.last()) == present {
            rest.push(if left { Pick::Left(i) } else { Pick::Right(i) })
        } else {
            rest
        }
    }
}

/// Every left series, in order.
pub open spec fn all_left(n: nat) -> Seq<Pick> {
    Seq::new(n, |i: int| Pick::Left(i as usize))
}

/// The series that a set operator keeps, given the signatures of both sides:
/// `and` keeps the left series whose signature occurs on the right, `unless`
/// those whose signature does not, and `or` keeps every left series followed
/// by the right series whose signature does not occur on the left.
pub open spec fn set_result(op: SetOp, l: Seq<LabelsView>, r: Seq<LabelsView>) -> Seq<Pick> {
    match op {
        SetOp::And => picks(l, r, true, true),
        SetOp::Unless => picks(l, r, false, true),
        SetOp::Or => all_left(l.len()) + picks(r, l, false, false),
    }
}

fn pick_positions(sigs: &Vec<LabelSet>, others: &Vec<LabelSet>, present: bool, left: bool, out: &mut Vec<Pick>)
    ensures
        final(out)@ == old(out)@ + picks(label_sets_view(sigs@), label_sets_view(others@), present, left),
{
    let n = sigs.len();
    let ghost start = out@;
    let mut i: usize = 0;
    while i < n
        invariant
            i <= n,
            n == sigs@.len(),
            out@ == start + picks(label_sets_view(sigs@).subrange(0, i as int), label_sets_view(others@), present, left),
        decreases n - i,
    {
        assert(label_sets_view(sigs@).subrange(0, i as int + 1).drop_last() =~= label_sets_view(sigs@).subrange(0, i as int));
        let ghost before = out@;
        if contains_label_set(others, &sigs[i]) == present {
            out.push(if left { Pick::Left(i) } else { Pick::Right(i) });
        }
        i += 1;
        assert(out@ =~= start + picks(label_sets_view(sigs@).subrange(0, i as int), label_sets_view(others@), present, left));
    }
    assert(label_sets_view(sigs@).subrange(0, n as int) =~= label_sets_view(sigs@));
}

/// The series that set operator `op` keeps, given both operands' label sets
/// and the `on` / `ignoring` label list.
pub fn set_operation(
    op: SetOp,
    lhs: &Vec<LabelSet>,
    rhs: &Vec<LabelSet>,
    match_labels: &Vec<String>,
    is_on: bool,
) -> (r: Vec<Pick>)
    ensures
        r@ == set_result(
            op,
            signatures(label_sets_view(lhs@), names_view(match_labels@), is_on),
            signatures(label_sets_view(rhs@), names_view(match_labels@), is_on),
        ),
{
    let ls = match_signatures(lhs, match_labels, is_on);
    let rs = match_signatures(rhs, match_labels, is_on);
    let mut out: Vec<Pick> = Vec::new();
    match op {
        SetOp::And => {
            pick_positions(&ls, &rs, true, true, &mut out);
            assert(out@ =~= set_result(op, label_sets_view(ls@), label_sets_view(rs@)));
        },
        SetOp::Unless => {
            pick_positions(&ls, &rs, false, true, &mut out);
            assert(out@ =~= set_result(op, label_sets_view(ls@), label_sets_view(rs@)));
        },
        SetOp::Or => {
            let n = lhs.len();
            let mut i: usize = 0;
            while i < n
                invariant
                    i <= n,
                    out@ == all_left(i as nat),
                decreases n - i,
            {
                out.push(Pick::Left(i));
                i += 1;
                assert(out@ =~= all_left(i as nat));
            }
            pick_positions(&rs, &ls, false, false, &mut out);
        },
    }
    out
}

/// The right positions whose signature equals `s`, each paired with left
/// position `i`, in order.
pub open spec fn partners(i: usize, s: LabelsView, rs: Seq<LabelsView>) -> Seq<(usize, usize)>
    decreases rs.len(),
{
    if rs.len() == 0 {
        seq![]
    } else {
        let rest = partners(i, s, rs.drop_last());
        if rs.last() == s {
            rest.push((i, (rs.len() - 1) as usize))
        } else {
            rest
        }
    }
}

/// All (left, right) pairs of equal signature: left positions in order, and
/// for each its partners in order.
pub open spec fn pairs(ls: Seq<LabelsView>, rs: Seq<LabelsView>) -> Seq<(usize, usize)>
    decreases ls.len(),
{
    if ls.len() == 0 {
        seq![]
    } else {
        pairs(ls.drop_last(), rs) + partners((ls.len() - 1) as usize, ls.last(), rs)
    }
}

/// The pairs of series that a vector-vector arithmetic or comparison operator
/// combines: every left series with every right series of the same signature.
pub fn match_pairs(
    lhs: &Vec<LabelSet>,
    rhs: &Vec<LabelSet>,
    match_labels: &Vec<String>,
    is_on: bool,
) -> (r: Vec<(usize, usize)>)
    ensures
        r@ == pairs(
            signatures(label_sets_view(lhs@), names_view(match_labels@), is_on),
            signatures(label_sets_view(rhs@), names_view(match_labels@), is_on),
        ),
{
    let ls = match_signatures(lhs, match_labels, is_on);
    let rs = match_signatures(rhs, match_labels, is_on);
    let ghost lv = label_sets_view(ls@);
    let ghost rv = label_sets_view(rs@);
    let n = ls.len();
    let m = rs.len();
    let mut out: Vec<(usize, usize)> = Vec::new();
    let mut i: usize = 0;
    while i < n
        invariant
            i <= n,
            n == ls@.len(),
            m == rs@.len(),
            lv == label_sets_view(ls@),
            rv == label_sets_view(rs@),
            out@ == pairs(lv.subrange(0, i as int), rv),
        decreases n - i,
    {
        let ghost before = out@;
        let mut j: usize = 0;
        while j < m
            invariant
                i < n,
                j <= m,
                n == ls@.len(),
                m == rs@.len(),
                lv == label_sets_view(ls@),
                rv == label_sets_view(rs@),
                out@ == before + partners(i, lv[i as int], rv.subrange(0, j as int)),
            decreases m - j,
        {
            assert(rv.subrange(0, j as int + 1).drop_last() =~= rv.subrange(0, j as int));
            if rs[j].same_as(&ls[i]) {
                out.push((i, j));
            }
            j += 1;
            assert(out@ =~= before + partners(i, lv[i as int], rv.subrange(0, j as int)));
        }
        proof {
            lemma_partners_prefix(i, lv[i as int], rv);
        }
        assert(rv.subrange(0, m as int) =~= rv);
        assert(lv.subrange(0, i as int + 1).drop_last() =~= lv.subrange(0, i as int));
        i += 1;
    }
    assert(lv.subrange(0, n as int) =~= lv);
    out
}

proof fn lemma_partners_prefix(i: usize, s: LabelsView, rs: Seq<LabelsView>)
    ensures
        partners(i, s, rs.subrange(0, rs.len() as int)) == partners(i, s, rs),
{
    assert(rs.subrange(0, rs.len() as int) =~= rs);
}

/// How many series of each side may match one of the other side, and which
/// labels a grouped match copies over.
pub enum Cardinality {
    OneToOne,
    /// `group_left(labels)`: labels copied from the right series.
    ManyToOne(Vec<String>),
    /// `group_right(labels)`: labels copied from the left series.
    OneToMany(Vec<String>),
    ManyToMany,
}

/// `base` with each of `names` that `from` has set to its value there.
pub open spec fn copy_labels(base: LabelsView, from: LabelsView, names: Seq<Seq<char>>) -> LabelsView
    decreases names.len(),
{
    if names.len() == 0 {
        base
    } else {
        let prev = copy_labels(base, from, names.drop_last());
        match lookup(from, names.last()) {
            Some(v) => insert_label(prev, names.last(), v),
            None => prev,
        }
    }
}

/// The labels of the series that a matched pair produces.
pub open spec fn output_labels(
    card: Cardinality,
    l: LabelsView,
    r: LabelsView,
    match_labels: Seq<Seq<char>>,
    is_on: bool,
) -> LabelsView {
    match card {
        Cardinality::OneToOne => if is_on {
            restrict(l, match_labels, true)
        } else if match_labels.len() > 0 {
            restrict(l, match_labels, false)
        } else {
            l
        },
        Cardinality::ManyToOne(extra) => copy_labels(l, r, names_view(extra@)),
        Cardinality::OneToMany(extra) => copy_labels(r, l, names_view(extra@)),
        Cardinality::ManyToMany => l,
    }
}

fn copy_listed(base: &LabelSet, from: &LabelSet, names: &Vec<String>) -> (r: LabelSet)
    ensures
        r@ == copy_labels(base@, from@, names_view(names@)),
{
    let mut out = base.duplicate();
    let n = names.len();
    let mut i: usize = 0;
    while i < n
        invariant
            i <= n,
            n == names@.len(),
            out@ == copy_labels(base@, from@, names_view(names@).subrange(0, i as int)),
        decreases n - i,
    {
        assert(names_view(names@).subrange(0, i as int + 1).drop_last() =~= names_view(names@).subrange(0, i as int));
        assert(names_view(names@).subrange(0, i as int + 1).last() == names@[i as int]@);
        match from.get(names[i].as_str()) {
            Some(v) => {
                out.insert(names[i].clone(), v.clone());
            },
            None => {},
        }
        i += 1;
    }
    assert(names_view(names@).subrange(0, n as int) =~= names_view(names@));
    out
}

/// The labels of the result of combining left series `lhs` with right series
/// `rhs` under cardinality `card` and the `on` / `ignoring` label list.
pub fn result_labels(
    card: &Cardinality,
    lhs: &LabelSet,
    rhs: &LabelSet,
    match_labels: &Vec<String>,
    is_on: bool,
) -> (r: LabelSet)
    ensures
        r@ == output_labels(*card, lhs@, rhs@, names_view(match_labels@), is_on),
{
    match card {
        Cardinality::OneToOne => {
            if is_on {
                lhs.restricted(match_labels, true)
            } else if match_labels.len() > 0 {
                lhs.restricted(match_labels, false)
            } else {
                lhs.duplicate()
            }
        },
        Cardinality::ManyToOne(extra) => copy_listed(lhs, rhs, extra),
        Cardinality::OneToMany(extra) => copy_listed(rhs, lhs, extra),
        Cardinality::ManyToMany => lhs.duplicate(),
    }
}

} // verus!
