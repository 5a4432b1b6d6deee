use wide_query_api::filters::{
    build_logs_where_clause, build_metrics_where_clause, build_rum_where, build_where_clause,
    build_where_clause_with_search, format_array_value, format_value, resolve_log_field, resolve_metric_field,
    resolve_rum_field, Filter, FilterItem, FilterValue,
};
use wide_query_api::search::FilterOp;

fn text(s: &str) -> FilterValue {
    FilterValue::Item(FilterItem::Text(s.to_string()))
}

#[test]
fn literals() {
    assert_eq!(format_value(&text("it's")), "'it\\'s'");
    assert_eq!(format_value(&FilterValue::Item(FilterItem::Number("42".to_string()))), "42");
    assert_eq!(format_value(&FilterValue::Item(FilterItem::Bool(true))), "1");
    assert_eq!(format_value(&FilterValue::Item(FilterItem::Bool(false))), "0");
    assert_eq!(format_value(&FilterValue::Item(FilterItem::Other)), "''");
    assert_eq!(format_value(&FilterValue::List(Vec::new())), "''");
    let list = FilterValue::List(vec![
        FilterItem::Text("a".to_string()),
        FilterItem::Number("2.5".to_string()),
        FilterItem::Other,
    ]);
    assert_eq!(format_array_value(&list), "('a', 2.5, '')");
    assert_eq!(format_array_value(&FilterValue::List(Vec::new())), "()");
    assert_eq!(format_array_value(&text("x")), "('x')");
}

#[test]
fn field_resolvers() {
    assert_eq!(resolve_metric_field("attributes.http.route"), "Attributes['http.route']");
    assert_eq!(resolve_metric_field("resource.host"), "ResourceAttributes['host']");
    assert_eq!(resolve_metric_field("metric_name"), "MetricName");
    assert_eq!(resolve_metric_field("Value"), "Value");
    assert_eq!(resolve_log_field("attributes.user"), "LogAttributes['user']");
    assert_eq!(resolve_log_field("severity"), "SeverityText");
    assert_eq!(resolve_log_field("body"), "Body");
    assert_eq!(resolve_rum_field("page_path"), "PagePath");
    assert_eq!(resolve_rum_field("TraceId"), "TraceId");
    assert_eq!(resolve_rum_field("x'y"), "'x\\'y'");
}

#[test]
fn where_clauses() {
    let filters = vec![
        Filter { field: "service_name".to_string(), op: FilterOp::Eq, value: text("api") },
        Filter {
            field: "status".to_string(),
            op: FilterOp::In,
            value: FilterValue::List(vec![FilterItem::Number("500".to_string()), FilterItem::Number("503".to_string())]),
        },
    ];
    assert_eq!(
        build_where_clause(&filters, "2024-01-01", "2024-01-02"),
        "timestamp >= parseDateTimeBestEffort('2024-01-01') AND timestamp <= parseDateTimeBestEffort('2024-01-02') AND service_name = 'api' AND status IN (500, 503)"
    );
    assert_eq!(
        build_where_clause_with_search(&Vec::new(), "a", "b", Some("boom")),
        "timestamp >= parseDateTimeBestEffort('a') AND timestamp <= parseDateTimeBestEffort('b') AND (positionCaseInsensitive(http_path, 'boom') > 0 OR positionCaseInsensitive(attributes, 'boom') > 0 OR arrayExists(x -> positionCaseInsensitive(x, 'boom') > 0, event_names) OR arrayExists(x -> positionCaseInsensitive(x, 'boom') > 0, event_attributes))"
    );
    assert_eq!(
        build_where_clause_with_search(&Vec::new(), "a", "b", Some("  ")),
        "timestamp >= parseDateTimeBestEffort('a') AND timestamp <= parseDateTimeBestEffort('b')"
    );
    let gt = vec![Filter { field: "attributes.k".to_string(), op: FilterOp::Gt, value: FilterValue::Item(FilterItem::Number("1".to_string())) }];
    assert_eq!(
        build_metrics_where_clause(&gt, "a", "b"),
        "toDateTime(TimeUnix) >= parseDateTimeBestEffort('a') AND toDateTime(TimeUnix) <= parseDateTimeBestEffort('b') AND Attributes['k'] > 1"
    );
    let like = vec![Filter { field: "body".to_string(), op: FilterOp::NotLike, value: text("%x%") }];
    assert_eq!(
        build_logs_where_clause(&like, "a", "b"),
        "Timestamp >= parseDateTimeBestEffort('a') AND Timestamp <= parseDateTimeBestEffort('b') AND Body NOT LIKE '%x%'"
    );
    let rum = vec![Filter { field: "browser_name".to_string(), op: FilterOp::Ne, value: text("Safari") }];
    assert_eq!(
        build_rum_where(&rum, "a", "b"),
        "Timestamp >= parseDateTimeBestEffort('a') AND Timestamp <= parseDateTimeBestEffort('b') AND BrowserName != 'Safari'"
    );
}
