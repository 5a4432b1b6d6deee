//! Metric selectors and the store predicate they select.
use vstd::prelude::*;
use vstd::string::*;
use crate::text::{push_str, push_decimal, decimal_of, string_from_chars, str_eq, chars_of};

verus! {

/// How a label matcher compares a label with its value.
#[derive(PartialEq, Eq, Structural, Clone, Copy, Debug)]
pub enum MatchOp {
    Equal,
    NotEqual,
    RegexMatch,
    RegexNotMatch,
}

/// A condition on one label: `name op "value"`.
pub struct LabelMatcher {
    pub name: String,
    pub op: MatchOp,
    pub value: String,
}

/// A metric name (empty for any metric) and the label matchers it carries.
pub struct MetricSelector {
    pub name: String,
    pub matchers: Vec<LabelMatcher>,
}

/// `s` with every single quote escaped by a backslash.
pub open spec fn escape_quotes(s: Seq<char>) -> Seq<char>
    decreases s.len(),
{
    if s.len() == 0 {
        seq![]
    } else {
        escape_quotes(s.drop_last()) + if s.last() == '\'' {
            seq!['\\', '\'']
        } else {
            seq![s.last()]
        }
    }
}

/// The store column that holds label `name`.
pub open spec fn column_for(name: Seq<char>) -> Seq<char> {
    if name == "__name__"@ {
        "MetricName"@
    } else if name == "service_name"@ || name == "job"@ {
        "ServiceName"@
    } else {
        "Attributes['"@ + escape_quotes(name) + "']"@
    }
}

/// The store condition for one matcher.
pub open spec fn matcher_condition(name: Seq<char>, op: MatchOp, value: Seq<char>) -> Seq<char> {
    let col = column_for(name);
    let v = escape_quotes(value);
    match op {
        MatchOp::Equal => col + " = '"@ + v + "'"@,
        MatchOp::NotEqual => col + " != '"@ + v + "'"@,
        MatchOp::RegexMatch => "match("@ + col + ", '"@ + v + "')"@,
        MatchOp::RegexNotMatch => "NOT match("@ + col + ", '"@ + v + "')"@,
    }
}

/// Appends `s` with its single quotes escaped.
pub fn push_escaped_chars(out: &mut Vec<char>, s: &Vec<char>)
    ensures
        final(out)@ == old(out)@ + escape_quotes(s@),
{
    let n = s.len();
    let ghost start = out@;
    let mut i: usize = 0;
    while i < n
        invariant
            i <= n,
            n == s@.len(),
            out@ == start + escape_quotes(s@.subrange(0, i as int)),
        decreases n - i,
    {
        assert(s@.subrange(0, i as int + 1).drop_last() =~= s@.subrange(0, i as int));
        let c = s[i];
        if c == '\'' {
            out.push('\\');
            out.push('\'');
        } else {
            out.push(c);
        }
        i += 1;
        assert(out@ =~= start + escape_quotes(s@.subrange(0, i as int)));
    }
    assert(s@.subrange(0, n as int) =~= s@);
}

/// Appends `s` with its single quotes escaped.
pub fn push_escaped(out: &mut Vec<char>, s: &str)
    ensures
        final(out)@ == old(out)@ + escape_quotes(s@),
{
    let cs = chars_of(s);
    push_escaped_chars(out, &cs);
}

fn push_column(out: &mut Vec<char>, name: &str)
    ensures
        final(out)@ == old(out)@ + column_for(name@),
{
    let ghost start = out@;
    if str_eq(name, "__name__") {
        push_str(out, "MetricName");
    } else if str_eq(name, "service_name") || str_eq(name, "job") {
        push_str(out, "ServiceName");
    } else {
        push_str(out, "Attributes['");
        push_escaped(out, name);
        push_str(out, "']");
        assert(out@ =~= start + column_for(name@));
    }
}

/// The store condition for one label matcher.
pub fn matcher_to_sql(m: &LabelMatcher) -> (r: String)
    ensures
        r@ == matcher_condition(m.name@, m.op, m.value@),
{
    let mut out: Vec<char> = Vec::new();
    match m.op {
        MatchOp::Equal => {
            push_column(&mut out, m.name.as_str());
            push_str(&mut out, " = '");
            push_escaped(&mut out, m.value.as_str());
            push_str(&mut out, "'");
        },
        MatchOp::NotEqual => {
            push_column(&mut out, m.name.as_str());
            push_str(&mut out, " != '");
            push_escaped(&mut out, m.value.as_str());
            push_str(&mut out, "'");
        },
        MatchOp::RegexMatch => {
            push_str(&mut out, "match(");
            push_column(&mut out, m.name.as_str());
            push_str(&mut out, ", '");
            push_escaped(&mut out, m.value.as_str());
            push_str(&mut out, "')");
        },
        MatchOp::RegexNotMatch => {
            push_str(&mut out, "NOT match(");
            push_column(&mut out, m.name.as_str());
            push_str(&mut out, ", '");
            push_escaped(&mut out, m.value.as_str());
            push_str(&mut out, "')");
        },
    }
    assert(out@ =~= matcher_condition(m.name@, m.op, m.value@));
    string_from_chars(&out)
}

/// The store conditions of a list of matchers, one per matcher, in order.
pub fn matchers_to_sql(matchers: &Vec<LabelMatcher>) -> (r: Vec<String>)
    ensures
        r@.len() == matchers@.len(),
        forall|i: int| 0 <= i < r@.len() ==> #[trigger] r@[i]@ == matcher_condition(
            matchers@[i].name@,
            matchers@[i].op,
            matchers@[i].value@,
        ),
{
    let n = matchers.len();
    let mut r: Vec<String> = Vec::new();
    let mut i: usize = 0;
    while i < n
        invariant
            i <= n,
            n == matchers@.len(),
            r@.len() == i,
            forall|j: int| 0 <= j < i ==> #[trigger] r@[j]@ == matcher_condition(
                matchers@[j].name@,
                matchers@[j].op,
                matchers@[j].value@,
            ),
        decreases n - i,
    {
        r.push(matcher_to_sql(&matchers[i]));
        i += 1;
    }
    r
}

/// The conditions that select a metric's samples over `[start, end]`
/// (seconds): the two time bounds, the metric name when it is not empty,
/// then one condition per matcher.
pub open spec fn selector_conditions(
    name: Seq<char>,
    matchers: Seq<LabelMatcher>,
    start: int,
    end: int,
) -> Seq<Seq<char>> {
    let bounds = seq![
        "TimeUnix >= toDateTime64("@ + decimal_of(start) + ", 9)"@,
        "TimeUnix <= toDateTime64("@ + decimal_of(end) + ", 9)"@,
    ];
    let with_name = if name.len() == 0 {
        bounds
    } else {
        bounds.push("MetricName = '"@ + escape_quotes(name) + "'"@)
    };
    with_name + matchers.map_values(|m: LabelMatcher| matcher_condition(m.name@, m.op, m.value@))
}

/// `parts` joined with `sep` between each two.
pub open spec fn joined(parts: Seq<Seq<char>>, sep: Seq<char>) -> Seq<char>
    decreases parts.len(),
{
    if parts.len() == 0 {
        seq![]
    } else if parts.len() == 1 {
        parts[0]
    } else {
        joined(parts.drop_last(), sep) + sep + parts.last()
    }
}

/// The strings `parts`, joined by `sep`.
pub fn join(parts: &Vec<String>, sep: &str) -> (r: String)
    ensures
        r@ == joined(parts@.map_values(|s: String| s@), sep@),
{
    let ghost pv = parts@.map_values(|s: String| s@);
    let n = parts.len();
    let mut out: Vec<char> = Vec::new();
    let mut i: usize = 0;
    while i < n
        invariant
            i <= n,
            n == parts@.len(),
            pv == parts@.map_values(|s: String| s@),
            out@ == joined(pv.subrange(0, i as int), sep@),
        decreases n - i,
    {
        assert(pv.subrange(0, i as int + 1).drop_last() =~= pv.subrange(0, i as int));
        if i > 0 {
            push_str(&mut out, sep);
        }
        push_str(&mut out, parts[i].as_str());
        i += 1;
        if i == 1 {
            assert(out@ =~= joined(pv.subrange(0, 1), sep@));
        }
    }
    assert(pv.subrange(0, n as int) =~= pv);
    string_from_chars(&out)
}

impl MetricSelector {
    /// The store conditions for this selector's samples over
    /// `[start_secs, end_secs]`.
    pub fn conditions(&self, start_secs: i64, end_secs: i64) -> (r: Vec<String>)
        ensures
            r@.map_values(|s: String| s@) == selector_conditions(
                self.name@,
                self.matchers@,
                start_secs as int,
                end_secs as int,
            ),
    {
        let mut r: Vec<String> = Vec::new();
        let mut lo: Vec<char> = Vec::new();
        push_str(&mut lo, "TimeUnix >= toDateTime64(");
        push_decimal(&mut lo, start_secs);
        push_str(&mut lo, ", 9)");
        r.push(string_from_chars(&lo));
        let mut hi: Vec<char> = Vec::new();
        push_str(&mut hi, "TimeUnix <= toDateTime64(");
        push_decimal(&mut hi, end_secs);
        push_str(&mut hi, ", 9)");
        r.push(string_from_chars(&hi));
        if self.name.as_str().unicode_len() != 0 {
            let mut nm: Vec<char> = Vec::new();
            push_str(&mut nm, "MetricName = '");
            push_escaped(&mut nm, self.name.as_str());
            push_str(&mut nm, "'");
            r.push(string_from_chars(&nm));
        }
        let ghost head = r@.map_values(|s: String| s@);
        let ghost mv = self.matchers@.map_values(|m: LabelMatcher| matcher_condition(m.name@, m.op, m.value@));
        let conds = matchers_to_sql(&self.matchers);
        let n = conds.len();
        let mut i: usize = 0;
        while i < n
            invariant
                i <= n,
                n == conds@.len(),
                n == self.matchers@.len(),
                mv == self.matchers@.map_values(|m: LabelMatcher| matcher_condition(m.name@, m.op, m.value@)),
                forall|j: int| 0 <= j < n ==> #[trigger] conds@[j]@ == mv[j],
                r@.map_values(|s: String| s@) == head + mv.subrange(0, i as int),
            decreases n - i,
        {
            let ghost before = r@.map_values(|s: String| s@);
            let c = conds[i].clone();
            assert(c@ == mv[i as int]);
            r.push(c);
            assert(r@.map_values(|s: String| s@) =~= before.push(mv[i as int]));
            i += 1;
            assert(mv.subrange(0, i as int) =~= mv.subrange(0, i - 1).push(mv[i - 1]));
            assert(r@.map_values(|s: String| s@) =~= head + mv.subrange(0, i as int));
        }
        assert(mv.subrange(0, n as int) =~= mv);
        assert(r@.map_values(|s: String| s@) =~= selector_conditions(
            self.name@,
            self.matchers@,
            start_secs as int,
            end_secs as int,
        ));
        r
    }
}

/// The query that fetches the rows of `table` matching `where_clause`, in
/// time order.
pub open spec fn fetch_query_text(table: Seq<char>, where_clause: Seq<char>) -> Seq<char> {
    "SELECT MetricName, ServiceName, Attributes, toInt64(toUnixTimestamp64Milli(TimeUnix)) AS ts_ms, Value FROM "@
        + table + " WHERE "@ + where_clause + " ORDER BY TimeUnix"@
}

/// The query that fetches the sample rows of `table` matching `where_clause`.
pub fn fetch_query(table: &str, where_clause: &str) -> (r: String)
    ensures
        r@ == fetch_query_text(table@, where_clause@),
{
    let mut out: Vec<char> = Vec::new();
    push_str(&mut out, "SELECT MetricName, ServiceName, Attributes, toInt64(toUnixTimestamp64Milli(TimeUnix)) AS ts_ms, Value FROM ");
    push_str(&mut out, table);
    push_str(&mut out, " WHERE ");
    push_str(&mut out, where_clause);
    push_str(&mut out, " ORDER BY TimeUnix");
    assert(out@ =~= fetch_query_text(table@, where_clause@));
    string_from_chars(&out)
}

} // verus!
