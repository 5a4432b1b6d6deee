use wide_query_api::config::{AttributeMatch, MetricRetentionRule, TraceRetentionRule};
use wide_query_api::retention::{build_metric_where, build_trace_where_otel, build_trace_where_wide, window_minutes};

#[test]
fn metric_rule_predicate() {
    let rule = MetricRetentionRule {
        name: Some("http_*_total?".to_string()),
        name_regex: Some("^rpc_".to_string()),
        labels: vec![("env".to_string(), "prod".to_string())],
        retain_days: 7,
    };
    assert_eq!(
        build_metric_where(&rule),
        "MetricName LIKE 'http_%_total_' AND match(MetricName, '^rpc_') AND Attributes['env'] = 'prod'"
    );
    let empty = MetricRetentionRule { name: None, name_regex: None, labels: Vec::new(), retain_days: 1 };
    assert_eq!(build_metric_where(&empty), "");
}

#[test]
fn trace_rule_predicates() {
    let rule = TraceRetentionRule {
        service_name: Some("api".to_string()),
        attribute: Some(AttributeMatch { key: "deployment.environment".to_string(), value: "dev".to_string() }),
        retain_days: 3,
    };
    assert_eq!(
        build_trace_where_otel(&rule).unwrap(),
        "ServiceName = 'api' AND ResourceAttributes['deployment.environment'] = 'dev'"
    );
    assert_eq!(build_trace_where_wide(&rule).unwrap(), "service_name = 'api' AND environment = 'dev'");
    let attr_only = TraceRetentionRule {
        service_name: None,
        attribute: Some(AttributeMatch { key: "team".to_string(), value: "core".to_string() }),
        retain_days: 3,
    };
    assert_eq!(build_trace_where_wide(&attr_only).unwrap(), "JSONExtractString(attributes, 'team') = 'core'");
    let none = TraceRetentionRule { service_name: None, attribute: None, retain_days: 3 };
    assert_eq!(build_trace_where_otel(&none), None);
    assert_eq!(build_trace_where_wide(&none), None);
}

#[test]
fn rolling_windows() {
    assert_eq!(window_minutes("rolling_1h"), 60);
    assert_eq!(window_minutes("rolling_24h"), 1440);
    assert_eq!(window_minutes("rolling_7d"), 10080);
    assert_eq!(window_minutes("rolling_30d"), 43200);
    assert_eq!(window_minutes("calendar_month"), 60);
}
