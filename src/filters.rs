//! Structured filters of event, metric, log and browser-event queries, and
//! the `WHERE` clauses they become.
use vstd::prelude::*;
use vstd::string::*;
use crate::search::{resolve_field, resolved_field, FilterOp, operator_text, build_span_search_sql,
    search_condition, span_columns};
use crate::selector::{escape_quotes, join, joined, push_escaped};
use crate::text::{chars_of, push_str, str_eq, string_from_chars};

verus! {

/// A single filter value as a request gives it.
pub enum FilterItem {
    Text(String),
    /// A number, in the decimal form the request wrote.
    Number(String),
    Bool(bool),
    /// Anything else (null, an object, a nested list).
    Other,
}

/// A filter's value: one item, or a list of items.
pub enum FilterValue {
    Item(FilterItem),
    List(Vec<FilterItem>),
}

/// A condition on one field.
pub struct Filter {
    pub field: String,
    pub op: FilterOp,
    pub value: FilterValue,
}

/// An item as an SQL literal: quoted and escaped text, a number as written,
/// a boolean as `1` / `0`, anything else as the empty string.
pub open spec fn item_text(v: FilterItem) -> Seq<char> {
    match v {
        FilterItem::Text(s) => "'"@ + escape_quotes(s@) + "'"@,
        FilterItem::Number(n) => n@,
        FilterItem::Bool(b) => if b { "1"@ } else { "0"@ },
        FilterItem::Other => "''"@,
    }
}

/// A value as an SQL literal (a list is not a single literal).
pub open spec fn value_text(v: FilterValue) -> Seq<char> {
    match v {
        FilterValue::Item(i) => item_text(i),
        FilterValue::List(_) => "''"@,
    }
}

/// A value as a parenthesised SQL list.
pub open spec fn list_text(v: FilterValue) -> Seq<char> {
    match v {
        FilterValue::Item(i) => "("@ + item_text(i) + ")"@,
        FilterValue::List(items) => "("@ + joined(items@.map_values(|i: FilterItem| item_text(i)), ", "@) + ")"@,
    }
}

fn push_item(out: &mut Vec<char>, v: &FilterItem)
    ensures
        final(out)@ == old(out)@ + item_text(*v),
{
    let ghost start = out@;
    match v {
        FilterItem::Text(s) => {
            push_str(out, "'");
            push_escaped(out, s.as_str());
            push_str(out, "'");
        },
        FilterItem::Number(n) => push_str(out, n.as_str()),
        FilterItem::Bool(b) => if *b {
            push_str(out, "1")
        } else {
            push_str(out, "0")
        },
        FilterItem::Other => push_str(out, "''"),
    }
    assert(out@ =~= start + item_text(*v));
}

/// The SQL literal of a filter value.
pub fn format_value(v: &FilterValue) -> (r: String)
    ensures
        r@ == value_text(*v),
{
    let mut out: Vec<char> = Vec::new();
    match v {
        FilterValue::Item(i) => push_item(&mut out, i),
        FilterValue::List(_) => push_str(&mut out, "''"),
    }
    assert(out@ =~= value_text(*v));
    string_from_chars(&out)
}

/// The parenthesised SQL list of a filter value.
pub fn format_array_value(v: &FilterValue) -> (r: String)
    ensures
        r@ == list_text(*v),
{
    let mut out: Vec<char> = Vec::new();
    push_str(&mut out, "(");
    match v {
        FilterValue::Item(i) => push_item(&mut out, i),
        FilterValue::List(items) => {
            let ghost iv = items@.map_values(|i: FilterItem| item_text(i));
            let ghost start = out@;
            let n = items.len();
            let mut k: usize = 0;
            while k < n
                invariant
                    k <= n,
                    n == items@.len(),
                    iv == items@.map_values(|i: FilterItem| item_text(i)),
                    out@ == start + joined(iv.subrange(0, k as int), ", "@),
                decreases n - k,
            {
                assert(iv.subrange(0, k as int + 1).drop_last() =~= iv.subrange(0, k as int));
                let ghost before = out@;
                if k > 0 {
                    push_str(&mut out, ", ");
                }
                push_item(&mut out, &items[k]);
                k += 1;
                if k == 1 {
                    assert(joined(iv.subrange(0, 1), ", "@) == iv[0]);
                    assert(out@ =~= start + joined(iv.subrange(0, k as int), ", "@));
                } else {
                    assert(out@ =~= start + joined(iv.subrange(0, k as int), ", "@));
                }
            }
            assert(iv.subrange(0, n as int) =~= iv);
        },
    }
    push_str(&mut out, ")");
    assert(out@ =~= list_text(*v));
    string_from_chars(&out)
}

/// The kinds of table a filter applies to, each with its own field names.
#[derive(PartialEq, Eq, Structural, Clone, Copy, Debug)]
pub enum FieldSet {
    Events,
    Metrics,
    Logs,
    Rum,
}

/// The column for the first alias equal to `f`, if any.
pub open spec fn alias_of(table: Seq<(Seq<char>, Seq<char>)>, f: Seq<char>) -> Option<Seq<char>>
    decreases table.len(),
{
    if table.len() == 0 {
        None
    } else if table[0].0 == f {
        Some(table[0].1)
    } else {
        alias_of(table.drop_first(), f)
    }
}

fn lookup_alias<'a>(table: &Vec<(&'a str, &'a str)>, f: &str) -> (r: Option<&'a str>)
    ensures
        match alias_of(table@.map_values(|p: (&str, &str)| (p.0@, p.1@)), f@) {
            Some(c) => r matches Some(s) && s@ == c,
            None => r is None,
        },
{
    let ghost tv = table@.map_values(|p: (&str, &str)| (p.0@, p.1@));
    let n = table.len();
    let mut i: usize = 0;
    assert(tv.skip(0) =~= tv);
    while i < n
        invariant
            i <= n,
            n == table@.len(),
            tv == table@.map_values(|p: (&str, &str)| (p.0@, p.1@)),
            alias_of(tv, f@) == alias_of(tv.skip(i as int), f@),
        decreases n - i,
    {
        assert(tv.skip(i as int).drop_first() =~= tv.skip(i as int + 1));
        let (alias, col) = table[i];
        if str_eq(alias, f) {
            return Some(col);
        }
        i += 1;
    }
    None
}

/// Field names that metric filters accept for their columns.
pub open spec fn metric_aliases() -> Seq<(Seq<char>, Seq<char>)> {
    seq![
        ("metric_name"@, "MetricName"@), ("MetricName"@, "MetricName"@),
        ("service_name"@, "ServiceName"@), ("ServiceName"@, "ServiceName"@),
    ]
}

/// Field names that log filters accept for their columns.
pub open spec fn log_aliases() -> Seq<(Seq<char>, Seq<char>)> {
    seq![
        ("service_name"@, "ServiceName"@), ("ServiceName"@, "ServiceName"@),
        ("severity"@, "SeverityText"@), ("SeverityText"@, "SeverityText"@),
        ("body"@, "Body"@), ("Body"@, "Body"@),
    ]
}

/// `f` after `prefix`, when it starts with it.
pub open spec fn after_prefix(f: Seq<char>, prefix: Seq<char>) -> Option<Seq<char>> {
    if f.len() >= prefix.len() && f.subrange(0, prefix.len() as int) == prefix {
        Some(f.subrange(prefix.len() as int, f.len() as int))
    } else {
        None
    }
}

/// The column expression for a metric or log filter field: attribute and
/// resource keys index their map columns, aliases name columns, and any
/// other name is a column.
pub open spec fn map_or_alias(f: Seq<char>, attr_map: Seq<char>, aliases: Seq<(Seq<char>, Seq<char>)>) -> Seq<char> {
    match after_prefix(f, "attributes."@) {
        Some(k) => attr_map + "['"@ + k + "']"@,
        None => match after_prefix(f, "resource."@) {
            Some(k) => "ResourceAttributes['"@ + k + "']"@,
            None => match alias_of(aliases, f) {
                Some(c) => c,
                None => f,
            },
        },
    }
}

fn strip_prefix(f: &Vec<char>, prefix: &str) -> (r: Option<Vec<char>>)
    ensures
        match after_prefix(f@, prefix@) {
            Some(k) => r matches Some(v) && v@ == k,
            None => r is None,
        },
{
    let p = chars_of(prefix);
    if f.len() < p.len() {
        return None;
    }
    let mut i: usize = 0;
    while i < p.len()
        invariant
            i <= p@.len(),
            p@ == prefix@,
            f@.len() >= p@.len(),
            f@.subrange(0, i as int) == p@.subrange(0, i as int),
        decreases p@.len() - i,
    {
        if f[i] != p[i] {
            assert(f@.subrange(0, p@.len() as int)[i as int] != p@[i as int]);
            return None;
        }
        i += 1;
        assert(f@.subrange(0, i as int) =~= f@.subrange(0, i - 1).push(f@[i - 1]));
        assert(p@.subrange(0, i as int) =~= p@.subrange(0, i - 1).push(p@[i - 1]));
    }
    assert(p@.subrange(0, p@.len() as int) =~= p@);
    let mut rest: Vec<char> = Vec::new();
    let mut j: usize = p.len();
    while j < f.len()
        invariant
            p@.len() <= j <= f@.len(),
            rest@ == f@.subrange(p@.len() as int, j as int),
        decreases f@.len() - j,
    {
        rest.push(f[j]);
        j += 1;
        assert(rest@ =~= f@.subrange(p@.len() as int, j as int));
    }
    Some(rest)
}

fn resolve_map_or_alias(field: &str, attr_map: &str, aliases: &Vec<(&str, &str)>) -> (r: String)
    ensures
        r@ == map_or_alias(field@, attr_map@, aliases@.map_values(|p: (&str, &str)| (p.0@, p.1@))),
{
    let f = chars_of(field);
    match strip_prefix(&f, "attributes.") {
        Some(k) => {
            let mut out: Vec<char> = Vec::new();
            push_str(&mut out, attr_map);
            push_str(&mut out, "['");
            let ks = string_from_chars(&k);
            push_str(&mut out, ks.as_str());
            push_str(&mut out, "']");
            return string_from_chars(&out);
        },
        None => {},
    }
    match strip_prefix(&f, "resource.") {
        Some(k) => {
            let mut out: Vec<char> = Vec::new();
            push_str(&mut out, "ResourceAttributes['");
            let ks = string_from_chars(&k);
            push_str(&mut out, ks.as_str());
            push_str(&mut out, "']");
            return string_from_chars(&out);
        },
        None => {},
    }
    match lookup_alias(aliases, field) {
        Some(c) => String::from_str(c),
        None => String::from_str(field),
    }
}

/// The column expression for a metric filter field.
pub fn resolve_metric_field(field: &str) -> (r: String)
    ensures
        r@ == map_or_alias(field@, "Attributes"@, metric_aliases()),
{
    let aliases: Vec<(&str, &str)> = vec![
        ("metric_name", "MetricName"), ("MetricName", "MetricName"),
        ("service_name", "ServiceName"), ("ServiceName", "ServiceName"),
    ];
    assert(aliases@.map_values(|p: (&str, &str)| (p.0@, p.1@)) =~= metric_aliases());
    resolve_map_or_alias(field, "Attributes", &aliases)
}

/// The column expression for a log filter field.
pub fn resolve_log_field(field: &str) -> (r: String)
    ensures
        r@ == map_or_alias(field@, "LogAttributes"@, log_aliases()),
{
    let aliases: Vec<(&str, &str)> = vec![
        ("service_name", "ServiceName"), ("ServiceName", "ServiceName"),
        ("severity", "SeverityText"), ("SeverityText", "SeverityText"),
        ("body", "Body"), ("Body", "Body"),
    ];
    assert(aliases@.map_values(|p: (&str, &str)| (p.0@, p.1@)) =~= log_aliases());
    resolve_map_or_alias(field, "LogAttributes", &aliases)
}

/// The browser-event columns, each under its snake-case and its own name.
pub open spec fn rum_aliases() -> Seq<(Seq<char>, Seq<char>)> {
    seq![
        ("app_name"@, "AppName"@), ("AppName"@, "AppName"@),
        ("app_version"@, "AppVersion"@), ("AppVersion"@, "AppVersion"@),
        ("environment"@, "Environment"@), ("Environment"@, "Environment"@),
        ("session_id"@, "SessionId"@), ("SessionId"@, "SessionId"@),
        ("user_id"@, "UserId"@), ("UserId"@, "UserId"@),
        ("page_url"@, "PageUrl"@), ("PageUrl"@, "PageUrl"@),
        ("page_path"@, "PagePath"@), ("PagePath"@, "PagePath"@),
        ("view_name"@, "ViewName"@), ("ViewName"@, "ViewName"@),
        ("referrer"@, "Referrer"@), ("Referrer"@, "Referrer"@),
        ("browser_name"@, "BrowserName"@), ("BrowserName"@, "BrowserName"@),
        ("browser_version"@, "BrowserVersion"@), ("BrowserVersion"@, "BrowserVersion"@),
        ("os_name"@, "OsName"@), ("OsName"@, "OsName"@),
        ("os_version"@, "OsVersion"@), ("OsVersion"@, "OsVersion"@),
        ("device_type"@, "DeviceType"@), ("DeviceType"@, "DeviceType"@),
        ("event_type"@, "EventType"@), ("EventType"@, "EventType"@),
        ("event_name"@, "EventName"@), ("EventName"@, "EventName"@),
        ("vital_name"@, "VitalName"@), ("VitalName"@, "VitalName"@),
        ("vital_rating"@, "VitalRating"@), ("VitalRating"@, "VitalRating"@),
        ("error_message"@, "ErrorMessage"@), ("ErrorMessage"@, "ErrorMessage"@),
        ("error_type"@, "ErrorType"@), ("ErrorType"@, "ErrorType"@),
        ("interaction_type"@, "InteractionType"@), ("InteractionType"@, "InteractionType"@),
        ("trace_id"@, "TraceId"@), ("TraceId"@, "TraceId"@),
    ]
}

/// The column for a browser-event filter field; an unknown field becomes a
/// quoted string literal.
pub open spec fn rum_column(f: Seq<char>) -> Seq<char> {
    match alias_of(rum_aliases(), f) {
        Some(c) => c,
        None => "'"@ + escape_quotes(f) + "'"@,
    }
}

/// The column expression for a browser-event filter field.
pub fn resolve_rum_field(field: &str) -> (r: String)
    ensures
        r@ == rum_column(field@),
{
    let aliases: Vec<(&str, &str)> = vec![
        ("app_name", "AppName"), ("AppName", "AppName"),
        ("app_version", "AppVersion"), ("AppVersion", "AppVersion"),
        ("environment", "Environment"), ("Environment", "Environment"),
        ("session_id", "SessionId"), ("SessionId", "SessionId"),
        ("user_id", "UserId"), ("UserId", "UserId"),
        ("page_url", "PageUrl"), ("PageUrl", "PageUrl"),
        ("page_path", "PagePath"), ("PagePath", "PagePath"),
        ("view_name", "ViewName"), ("ViewName", "ViewName"),
        ("referrer", "Referrer"), ("Referrer", "Referrer"),
        ("browser_name", "BrowserName"), ("BrowserName", "BrowserName"),
        ("browser_version", "BrowserVersion"), ("BrowserVersion", "BrowserVersion"),
        ("os_name", "OsName"), ("OsName", "OsName"),
        ("os_version", "OsVersion"), ("OsVersion", "OsVersion"),
        ("device_type", "DeviceType"), ("DeviceType", "DeviceType"),
        ("event_type", "EventType"), ("EventType", "EventType"),
        ("event_name", "EventName"), ("EventName", "EventName"),
        ("vital_name", "VitalName"), ("VitalName", "VitalName"),
        ("vital_rating", "VitalRating"), ("VitalRating", "VitalRating"),
        ("error_message", "ErrorMessage"), ("ErrorMessage", "ErrorMessage"),
        ("error_type", "ErrorType"), ("ErrorType", "ErrorType"),
        ("interaction_type", "InteractionType"), ("InteractionType", "InteractionType"),
        ("trace_id", "TraceId"), ("TraceId", "TraceId"),
    ];
    assert(aliases@.map_values(|p: (&str, &str)| (p.0@, p.1@)) =~= rum_aliases());
    match lookup_alias(&aliases, field) {
        Some(c) => String::from_str(c),
        None => {
            let mut out: Vec<char> = Vec::new();
            push_str(&mut out, "'");
            push_escaped(&mut out, field);
            push_str(&mut out, "'");
            assert(out@ =~= rum_column(field@));
            string_from_chars(&out)
        },
    }
}

/// The condition of one filter on column `col`: `col op literal`, with a
/// list literal for `IN` / `NOT IN`.
pub open spec fn filter_condition(col: Seq<char>, op: FilterOp, v: FilterValue) -> Seq<char> {
    col + " "@ + operator_text(op) + " "@ + if op == FilterOp::In || op == FilterOp::NotIn {
        list_text(v)
    } else {
        value_text(v)
    }
}

/// The column expression of a filter field for a kind of table.
pub open spec fn column_in(set: FieldSet, f: Seq<char>) -> Seq<char> {
    match set {
        FieldSet::Events => resolved_field(f),
        FieldSet::Metrics => map_or_alias(f, "Attributes"@, metric_aliases()),
        FieldSet::Logs => map_or_alias(f, "LogAttributes"@, log_aliases()),
        FieldSet::Rum => rum_column(f),
    }
}

/// The time column of a kind of table.
pub open spec fn time_column(set: FieldSet) -> Seq<char> {
    match set {
        FieldSet::Events => "timestamp"@,
        FieldSet::Metrics => "toDateTime(TimeUnix)"@,
        FieldSet::Logs | FieldSet::Rum => "Timestamp"@,
    }
}

/// The conditions of a filtered query over `[from, to]`: the two time
/// bounds, then one per filter.
pub open spec fn where_parts(set: FieldSet, filters: Seq<Filter>, from: Seq<char>, to: Seq<char>) -> Seq<Seq<char>> {
    seq![
        time_column(set) + " >= parseDateTimeBestEffort('"@ + from + "')"@,
        time_column(set) + " <= parseDateTimeBestEffort('"@ + to + "')"@,
    ] + filters.map_values(|f: Filter| filter_condition(column_in(set, f.field@), f.op, f.value))
}

fn resolve_in(set: FieldSet, field: &str) -> (r: String)
    ensures
        r@ == column_in(set, field@),
{
    match set {
        FieldSet::Events => resolve_field(field),
        FieldSet::Metrics => resolve_metric_field(field),
        FieldSet::Logs => resolve_log_field(field),
        FieldSet::Rum => resolve_rum_field(field),
    }
}

fn push_time(out: &mut Vec<char>, set: FieldSet)
    ensures
        final(out)@ == old(out)@ + time_column(set),
{
    match set {
        FieldSet::Events => push_str(out, "timestamp"),
        FieldSet::Metrics => push_str(out, "toDateTime(TimeUnix)"),
        FieldSet::Logs | FieldSet::Rum => push_str(out, "Timestamp"),
    }
}

fn filter_parts(set: FieldSet, filters: &Vec<Filter>, from: &str, to: &str) -> (r: Vec<String>)
    ensures
        r@.map_values(|s: String| s@) == where_parts(set, filters@, from@, to@),
{
    let mut parts: Vec<String> = Vec::new();
    let mut lo: Vec<char> = Vec::new();
    push_time(&mut lo, set);
    push_str(&mut lo, " >= parseDateTimeBestEffort('");
    push_str(&mut lo, from);
    push_str(&mut lo, "')");
    parts.push(string_from_chars(&lo));
    let mut hi: Vec<char> = Vec::new();
    push_time(&mut hi, set);
    push_str(&mut hi, " <= parseDateTimeBestEffort('");
    push_str(&mut hi, to);
    push_str(&mut hi, "')");
    parts.push(string_from_chars(&hi));
    let ghost head = parts@.map_values(|s: String| s@);
    let ghost fv = filters@.map_values(|f: Filter| filter_condition(column_in(set, f.field@), f.op, f.value));
    let n = filters.len();
    let mut i: usize = 0;
    while i < n
        invariant
            i <= n,
            n == filters@.len(),
            fv == filters@.map_values(|f: Filter| filter_condition(column_in(set, f.field@), f.op, f.value)),
            parts@.map_values(|s: String| s@) == head + fv.subrange(0, i as int),
        decreases n - i,
    {
        let f = &filters[i];
        let col = resolve_in(set, f.field.as_str());
        let mut c: Vec<char> = Vec::new();
        push_str(&mut c, col.as_str());
        push_str(&mut c, " ");
        push_str(&mut c, f.op.operator());
        push_str(&mut c, " ");
        let lit = if f.op == FilterOp::In || f.op == FilterOp::NotIn {
            format_array_value(&f.value)
        } else {
            format_value(&f.value)
        };
        push_str(&mut c, lit.as_str());
        let ghost before = parts@.map_values(|s: String| s@);
        parts.push(string_from_chars(&c));
        assert(c@ == fv[i as int]);
        assert(parts@.map_values(|s: String| s@) =~= before.push(fv[i as int]));
        i += 1;
        assert(fv.subrange(0, i as int) =~= fv.subrange(0, i - 1).push(fv[i - 1]));
    }
    assert(fv.subrange(0, n as int) =~= fv);
    assert(parts@.map_values(|s: String| s@) =~= where_parts(set, filters@, from@, to@));
    parts
}

/// The `WHERE` clause of an event query over `[from, to]` with filters and
/// an optional free-text search (kept only when it holds a term).
pub open spec fn event_where(filters: Seq<Filter>, from: Seq<char>, to: Seq<char>, search: Option<Seq<char>>) -> Seq<char> {
    let parts = where_parts(FieldSet::Events, filters, from, to);
    let all = match search {
        Some(t) => match search_condition(t, span_columns()) {
            Some(c) => parts.push(c),
            None => parts,
        },
        None => parts,
    };
    joined(all, " AND "@)
}

/// The `WHERE` clause of an event query with filters and optional search.
pub fn build_where_clause_with_search(filters: &Vec<Filter>, from: &str, to: &str, search: Option<&str>) -> (r: String)
    ensures
        r@ == event_where(filters@, from@, to@, match search {
            Some(t) => Some(t@),
            None => None,
        }),
{
    let mut parts = filter_parts(FieldSet::Events, filters, from, to);
    let ghost pv = parts@.map_values(|s: String| s@);
    if let Some(term) = search {
        if let Some(sql) = build_span_search_sql(term) {
            let ghost c = sql@;
            parts.push(sql);
            assert(parts@.map_values(|s: String| s@) =~= pv.push(c));
        }
    }
    join(&parts, " AND ")
}

/// The `WHERE` clause of an event query with filters.
pub fn build_where_clause(filters: &Vec<Filter>, from: &str, to: &str) -> (r: String)
    ensures
        r@ == event_where(filters@, from@, to@, None),
{
    build_where_clause_with_search(filters, from, to, None)
}

/// The `WHERE` clause of a metric query with filters.
pub fn build_metrics_where_clause(filters: &Vec<Filter>, from: &str, to: &str) -> (r: String)
    ensures
        r@ == joined(where_parts(FieldSet::Metrics, filters@, from@, to@), " AND "@),
{
    let parts = filter_parts(FieldSet::Metrics, filters, from, to);
    join(&parts, " AND ")
}

/// The `WHERE` clause of a log query with filters.
pub fn build_logs_where_clause(filters: &Vec<Filter>, from: &str, to: &str) -> (r: String)
    ensures
        r@ == joined(where_parts(FieldSet::Logs, filters@, from@, to@), " AND "@),
{
    let parts = filter_parts(FieldSet::Logs, filters, from, to);
    join(&parts, " AND ")
}

/// The `WHERE` clause of a browser-event query with filters.
pub fn build_rum_where(filters: &Vec<Filter>, from: &str, to: &str) -> (r: String)
    ensures
        r@ == joined(where_parts(FieldSet::Rum, filters@, from@, to@), " AND "@),
{
    let parts = filter_parts(FieldSet::Rum, filters, from, to);
    join(&parts, " AND ")
}

} // verus!
