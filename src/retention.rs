//! The row predicates that retention rules select, and rolling windows.
use vstd::prelude::*;
use vstd::string::*;
use crate::config::{MetricRetentionRule, TraceRetentionRule};
use crate::labels::pairs_view;
use crate::selector::{join, joined};
use crate::text::{push_str, str_eq, string_from_chars};

verus! {

/// A name glob as a `LIKE` pattern: `*` becomes `%` and `?` becomes `_`.
pub open spec fn glob_to_like(s: Seq<char>) -> Seq<char>
    decreases s.len(),
{
    if s.len() == 0 {
        seq![]
    } else {
        glob_to_like(s.drop_last()) + if s.last() == '*' {
            seq!['%']
        } else if s.last() == '?' {
            seq!['_']
        } else {
            seq![s.last()]
        }
    }
}

/// The conditions of a metric retention rule: the name glob, the name
/// pattern, then one per attribute match.
pub open spec fn metric_rule_parts(
    name: Option<Seq<char>>,
    name_regex: Option<Seq<char>>,
    labels: Seq<(Seq<char>, Seq<char>)>,
) -> Seq<Seq<char>> {
    let a = match name {
        Some(n) => seq!["MetricName LIKE '"@ + glob_to_like(n) + "'"@],
        None => seq![],
    };
    let b = match name_regex {
        Some(r) => seq!["match(MetricName, '"@ + r + "')"@],
        None => seq![],
    };
    a + b + labels.map_values(|p: (Seq<char>, Seq<char>)| "Attributes['"@ + p.0 + "'] = '"@ + p.1 + "'"@)
}

fn push_glob_like(out: &mut Vec<char>, s: &str)
    ensures
        final(out)@ == old(out)@ + glob_to_like(s@),
{
    let n = s.unicode_len();
    let ghost start = out@;
    let mut i: usize = 0;
    while i < n
        invariant
            i <= n,
            n == s@.len(),
            out@ == start + glob_to_like(s@.subrange(0, i as int)),
        decreases n - i,
    {
        assert(s@.subrange(0, i as int + 1).drop_last() =~= s@.subrange(0, i as int));
        let c = s.get_char(i);
        if c == '*' {
            out.push('%');
        } else if c == '?' {
            out.push('_');
        } else {
            out.push(c);
        }
        i += 1;
        assert(out@ =~= start + glob_to_like(s@.subrange(0, i as int)));
    }
    assert(s@.subrange(0, n as int) =~= s@);
}

/// The predicate on metric rows that a retention rule selects: its
/// conditions joined by ` AND `.
pub fn build_metric_where(rule: &MetricRetentionRule) -> (r: String)
    ensures
        r@ == joined(
            metric_rule_parts(opt_view_spec(rule.name), opt_view_spec(rule.name_regex), pairs_view(rule.labels@)),
            " AND "@,
        ),
{
    let mut parts: Vec<String> = Vec::new();
    if let Some(name) = &rule.name {
        let mut c: Vec<char> = Vec::new();
        push_str(&mut c, "MetricName LIKE '");
        push_glob_like(&mut c, name.as_str());
        push_str(&mut c, "'");
        parts.push(string_from_chars(&c));
    }
    if let Some(re) = &rule.name_regex {
        let mut c: Vec<char> = Vec::new();
        push_str(&mut c, "match(MetricName, '");
        push_str(&mut c, re.as_str());
        push_str(&mut c, "')");
        parts.push(string_from_chars(&c));
    }
    let ghost head = parts@.map_values(|s: String| s@);
    let ghost lv = pairs_view(rule.labels@).map_values(
        |p: (Seq<char>, Seq<char>)| "Attributes['"@ + p.0 + "'] = '"@ + p.1 + "'"@,
    );
    assert(head =~= metric_rule_parts(opt_view_spec(rule.name), opt_view_spec(rule.name_regex), seq![]));
    let n = rule.labels.len();
    let mut i: usize = 0;
    while i < n
        invariant
            i <= n,
            n == rule.labels@.len(),
            lv == pairs_view(rule.labels@).map_values(
                |p: (Seq<char>, Seq<char>)| "Attributes['"@ + p.0 + "'] = '"@ + p.1 + "'"@,
            ),
            parts@.map_values(|s: String| s@) == head + lv.subrange(0, i as int),
        decreases n - i,
    {
        let (k, v) = &rule.labels[i];
        let mut c: Vec<char> = Vec::new();
        push_str(&mut c, "Attributes['");
        push_str(&mut c, k.as_str());
        push_str(&mut c, "'] = '");
        push_str(&mut c, v.as_str());
        push_str(&mut c, "'");
        let ghost before = parts@.map_values(|s: String| s@);
        parts.push(string_from_chars(&c));
        assert(c@ == lv[i as int]);
        assert(parts@.map_values(|s: String| s@) =~= before.push(lv[i as int]));
        i += 1;
        assert(lv.subrange(0, i as int) =~= lv.subrange(0, i - 1).push(lv[i - 1]));
    }
    assert(lv.subrange(0, n as int) =~= lv);
    assert(parts@.map_values(|s: String| s@) =~= metric_rule_parts(
        opt_view_spec(rule.name),
        opt_view_spec(rule.name_regex),
        pairs_view(rule.labels@),
    ));
    join(&parts, " AND ")
}

/// The view of an optional string.
pub open spec fn opt_view_spec(o: Option<String>) -> Option<Seq<char>> {
    match o {
        Some(s) => Some(s@),
        None => None,
    }
}

/// The conditions of a trace retention rule on the trace tables (`wide`
/// false) or on the event table (`wide` true).
pub open spec fn trace_rule_parts(rule: TraceRetentionRule, wide: bool) -> Seq<Seq<char>> {
    let a = match rule.service_name {
        Some(s) => if wide {
            seq!["service_name = '"@ + s@ + "'"@]
        } else {
            seq!["ServiceName = '"@ + s@ + "'"@]
        },
        None => seq![],
    };
    let b = match rule.attribute {
        Some(m) => if !wide {
            seq!["ResourceAttributes['"@ + m.key@ + "'] = '"@ + m.value@ + "'"@]
        } else if m.key@ == "deployment.environment"@ {
            seq!["environment = '"@ + m.value@ + "'"@]
        } else {
            seq!["JSONExtractString(attributes, '"@ + m.key@ + "') = '"@ + m.value@ + "'"@]
        },
        None => seq![],
    };
    a + b
}

fn trace_where(rule: &TraceRetentionRule, wide: bool) -> (r: Option<String>)
    ensures
        trace_rule_parts(*rule, wide).len() == 0 ==> r is None,
        trace_rule_parts(*rule, wide).len() > 0 ==> (r matches Some(s) && s@ == joined(trace_rule_parts(*rule, wide), " AND "@)),
{
    let mut parts: Vec<String> = Vec::new();
    if let Some(svc) = &rule.service_name {
        let mut c: Vec<char> = Vec::new();
        if wide {
            push_str(&mut c, "service_name = '");
        } else {
            push_str(&mut c, "ServiceName = '");
        }
        push_str(&mut c, svc.as_str());
        push_str(&mut c, "'");
        parts.push(string_from_chars(&c));
    }
    if let Some(m) = &rule.attribute {
        let mut c: Vec<char> = Vec::new();
        if !wide {
            push_str(&mut c, "ResourceAttributes['");
            push_str(&mut c, m.key.as_str());
            push_str(&mut c, "'] = '");
        } else if str_eq(m.key.as_str(), "deployment.environment") {
            push_str(&mut c, "environment = '");
        } else {
            push_str(&mut c, "JSONExtractString(attributes, '");
            push_str(&mut c, m.key.as_str());
            push_str(&mut c, "') = '");
        }
        push_str(&mut c, m.value.as_str());
        push_str(&mut c, "'");
        parts.push(string_from_chars(&c));
    }
    assert(parts@.map_values(|s: String| s@) =~= trace_rule_parts(*rule, wide));
    if parts.len() == 0 {
        None
    } else {
        Some(join(&parts, " AND "))
    }
}

/// The predicate on trace-table rows that a trace retention rule selects,
/// or `None` when the rule names neither a service nor an attribute.
pub fn build_trace_where_otel(rule: &TraceRetentionRule) -> (r: Option<String>)
    ensures
        trace_rule_parts(*rule, false).len() == 0 ==> r is None,
        trace_rule_parts(*rule, false).len() > 0 ==> (r matches Some(s) && s@ == joined(trace_rule_parts(*rule, false), " AND "@)),
{
    trace_where(rule, false)
}

/// The predicate on event-table rows that a trace retention rule selects,
/// or `None` when the rule names neither a service nor an attribute.
pub fn build_trace_where_wide(rule: &TraceRetentionRule) -> (r: Option<String>)
    ensures
        trace_rule_parts(*rule, true).len() == 0 ==> r is None,
        trace_rule_parts(*rule, true).len() > 0 ==> (r matches Some(s) && s@ == joined(trace_rule_parts(*rule, true), " AND "@)),
{
    trace_where(rule, true)
}

/// The length in minutes of a rolling objective window; unknown kinds count
/// as one hour.
pub open spec fn window_minutes_of(window_type: Seq<char>) -> i64 {
    if window_type == "rolling_1h"@ {
        60
    } else if window_type == "rolling_24h"@ {
        1440
    } else if window_type == "rolling_7d"@ {
        10080
    } else if window_type == "rolling_30d"@ {
        43200
    } else {
        60
    }
}

/// The length in minutes of a rolling objective window.
pub fn window_minutes(window_type: &str) -> (r: i64)
    ensures
        r == window_minutes_of(window_type@),
{
    if str_eq(window_type, "rolling_1h") {
        60
    } else if str_eq(window_type, "rolling_24h") {
        1440
    } else if str_eq(window_type, "rolling_7d") {
        10080
    } else if str_eq(window_type, "rolling_30d") {
        43200
    } else {
        60
    }
}

} // verus!
