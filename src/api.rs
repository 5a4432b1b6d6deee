//! Request parameters of the query API and the rows that series discovery
//! reads from the store.
use vstd::prelude::*;
use crate::labels::{LabelSet, row_labels, pairs_view, build_label_set};
use crate::grouping::label_sets_view;
use crate::matching::contains_label_set;

verus! {

/// Parameters of an instant query: the expression and the evaluation time.
pub struct InstantQueryParams {
    pub query: String,
    pub time: Option<String>,
}

/// Parameters of a range query.
pub struct RangeQueryParams {
    pub query: String,
    pub start: String,
    pub end: String,
    pub step: Option<String>,
}

/// Parameters of series discovery: selectors and an optional time range.
pub struct SeriesParams {
    pub match_exprs: Option<Vec<String>>,
    pub start: Option<String>,
    pub end: Option<String>,
}

/// A label name found in the store.
pub struct LabelNameRow {
    pub name: String,
}

/// A label value found in the store.
pub struct LabelValueRow {
    pub value: String,
}

/// A distinct series found in the store.
pub struct SeriesRow {
    pub metric_name: String,
    pub service_name: String,
    pub attributes: Vec<(String, String)>,
}

impl SeriesRow {
    /// The label set of this series.
    pub fn label_set(&self) -> (r: LabelSet)
        ensures
            r@ == row_labels(self.metric_name@, self.service_name@, pairs_view(self.attributes@)),
    {
        build_label_set(self.metric_name.as_str(), self.service_name.as_str(), &self.attributes)
    }
}

/// The first occurrence of each distinct label set, in order.
pub open spec fn distinct_sets(v: Seq<Seq<(Seq<char>, Seq<char>)>>) -> Seq<Seq<(Seq<char>, Seq<char>)>>
    decreases v.len(),
{
    if v.len() == 0 {
        seq![]
    } else {
        let rest = distinct_sets(v.drop_last());
        if rest.contains(v.last()) {
            rest
        } else {
            rest.push(v.last())
        }
    }
}

/// The label sets of `sets` without repeats, first occurrences in order.
pub fn distinct_label_sets(sets: &Vec<LabelSet>) -> (r: Vec<LabelSet>)
    ensures
        label_sets_view(r@) == distinct_sets(label_sets_view(sets@)),
{
    let ghost sv = label_sets_view(sets@);
    let n = sets.len();
    let mut r: Vec<LabelSet> = Vec::new();
    let mut i: usize = 0;
    while i < n
        invariant
            i <= n,
            n == sets@.len(),
            sv == label_sets_view(sets@),
            label_sets_view(r@) == distinct_sets(sv.subrange(0, i as int)),
        decreases n - i,
    {
        assert(sv.subrange(0, i as int + 1).drop_last() =~= sv.subrange(0, i as int));
        if !contains_label_set(&r, &sets[i]) {
            let ghost before = label_sets_view(r@);
            r.push(sets[i].duplicate());
            assert(label_sets_view(r@) =~= before.push(sv[i as int]));
        }
        i += 1;
    }
    assert(sv.subrange(0, n as int) =~= sv);
    r
}

} // verus!
