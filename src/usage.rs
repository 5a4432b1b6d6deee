//! Signal-usage events and the signal names that a span query touches.
use vstd::prelude::*;
use vstd::string::*;
use crate::labels::{LabelsView, pairs_view};
use crate::text::{push_str, str_eq, string_from_chars};

verus! {

/// One use of a signal (a metric, span or log) from some part of the product.
pub struct UsageEvent {
    pub signal_name: String,
    pub signal_type: String,
    pub source: String,
}

/// Whether a span filter on `field` names a signal.
pub open spec fn is_signal_field(field: Seq<char>) -> bool {
    field == "service_name"@ || field == "http_path"@ || field == "http_method"@
}

/// `field=value` for each filter on a signal field, in order.
pub open spec fn signal_names(filters: LabelsView) -> Seq<Seq<char>>
    decreases filters.len(),
{
    if filters.len() == 0 {
        seq![]
    } else {
        let rest = signal_names(filters.drop_last());
        let f = filters.last();
        if is_signal_field(f.0) {
            rest.push(f.0 + "="@ + f.1)
        } else {
            rest
        }
    }
}

/// The signals of a span query: the named ones, or the whole-table signal
/// when the filters name none.
pub open spec fn span_signals(filters: LabelsView) -> Seq<Seq<char>> {
    if signal_names(filters).len() == 0 {
        seq!["wide_events_query"@]
    } else {
        signal_names(filters)
    }
}

/// The signal names that a span query with these (field, value) filters uses.
pub fn extract_span_signals(filters: &Vec<(String, String)>) -> (r: Vec<String>)
    ensures
        r@.map_values(|s: String| s@) == span_signals(pairs_view(filters@)),
{
    let ghost fv = pairs_view(filters@);
    let n = filters.len();
    let mut names: Vec<String> = Vec::new();
    let mut i: usize = 0;
    while i < n
        invariant
            i <= n,
            n == filters@.len(),
            fv == pairs_view(filters@),
            names@.map_values(|s: String| s@) == signal_names(fv.subrange(0, i as int)),
        decreases n - i,
    {
        assert(fv.subrange(0, i as int + 1).drop_last() =~= fv.subrange(0, i as int));
        let (field, value) = &filters[i];
        let f = field.as_str();
        if str_eq(f, "service_name") || str_eq(f, "http_path") || str_eq(f, "http_method") {
            let ghost before = names@.map_values(|s: String| s@);
            let mut out: Vec<char> = Vec::new();
            push_str(&mut out, f);
            push_str(&mut out, "=");
            push_str(&mut out, value.as_str());
            names.push(string_from_chars(&out));
            assert(names@.map_values(|s: String| s@) =~= before.push(field@ + "="@ + value@));
        }
        i += 1;
    }
    assert(fv.subrange(0, n as int) =~= fv);
    if names.len() == 0 {
        names.push(String::from_str("wide_events_query"));
        assert(names@.map_values(|s: String| s@) =~= seq!["wide_events_query"@]);
    }
    names
}

} // verus!
