use wide_query_api::selector::{fetch_query, join, matchers_to_sql, LabelMatcher, MatchOp, MetricSelector};

fn matcher(name: &str, op: MatchOp, value: &str) -> LabelMatcher {
    LabelMatcher { name: name.to_string(), op, value: value.to_string() }
}

#[test]
fn matchers_map_to_columns_and_operators() {
    let ms = vec![
        matcher("__name__", MatchOp::Equal, "up"),
        matcher("job", MatchOp::NotEqual, "api"),
        matcher("route", MatchOp::RegexMatch, "/v1/.*"),
        matcher("o'k", MatchOp::RegexNotMatch, "it's"),
    ];
    let sql = matchers_to_sql(&ms);
    assert_eq!(
        sql,
        vec![
            "MetricName = 'up'".to_string(),
            "ServiceName != 'api'".to_string(),
            "match(Attributes['route'], '/v1/.*')".to_string(),
            "NOT match(Attributes['o\\'k'], 'it\\'s')".to_string(),
        ]
    );
}

#[test]
fn selector_conditions_and_query() {
    let sel = MetricSelector {
        name: "http_requests_total".to_string(),
        matchers: vec![matcher("service_name", MatchOp::Equal, "gateway")],
    };
    let parts = sel.conditions(1700000000, 1700000300);
    assert_eq!(
        parts,
        vec![
            "TimeUnix >= toDateTime64(1700000000, 9)".to_string(),
            "TimeUnix <= toDateTime64(1700000300, 9)".to_string(),
            "MetricName = 'http_requests_total'".to_string(),
            "ServiceName = 'gateway'".to_string(),
        ]
    );
    let clause = join(&parts, " AND ");
    assert!(clause.starts_with("TimeUnix >= toDateTime64(1700000000, 9) AND TimeUnix <="));
    assert_eq!(
        fetch_query("otel_metrics_sum", "x = 1"),
        "SELECT MetricName, ServiceName, Attributes, toInt64(toUnixTimestamp64Milli(TimeUnix)) AS ts_ms, Value FROM otel_metrics_sum WHERE x = 1 ORDER BY TimeUnix"
    );
}

#[test]
fn selector_without_name_and_negative_bound() {
    let sel = MetricSelector { name: String::new(), matchers: Vec::new() };
    assert_eq!(
        sel.conditions(-5, 0),
        vec!["TimeUnix >= toDateTime64(-5, 9)".to_string(), "TimeUnix <= toDateTime64(0, 9)".to_string()]
    );
}

#[test]
fn join_of_none_and_one() {
    assert_eq!(join(&Vec::new(), ", "), "");
    assert_eq!(join(&vec!["a".to_string()], ", "), "a");
    assert_eq!(join(&vec!["a".to_string(), "b".to_string(), "c".to_string()], ", "), "a, b, c");
}
