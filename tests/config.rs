use wide_query_api::config::{default_region, MetricRetentionRule, TraceRetentionRule, WideConfig};
use wide_query_api::usage::extract_span_signals;

fn metric_rule(days: u32) -> MetricRetentionRule {
    MetricRetentionRule { name: None, name_regex: None, labels: Vec::new(), retain_days: days }
}

#[test]
fn defaults() {
    let c = WideConfig::default();
    assert!(c.storage.s3.is_none());
    assert_eq!(c.storage.tiering.metrics_move_after_days, 3);
    assert_eq!(c.retention.defaults.logs_days, 30);
    assert!(c.retention.enforcer.enabled);
    assert_eq!(c.retention.enforcer.interval_secs, 3600);
    assert_eq!(default_region(), "us-east-1");
}

#[test]
fn table_ttl_is_the_longest_retention() {
    let mut c = WideConfig::default();
    assert_eq!(c.effective_metrics_ttl_days(), 30);
    c.retention.metrics = vec![metric_rule(7), metric_rule(90), metric_rule(45)];
    assert_eq!(c.effective_metrics_ttl_days(), 90);
    c.retention.traces = vec![TraceRetentionRule { service_name: None, attribute: None, retain_days: 10 }];
    assert_eq!(c.effective_traces_ttl_days(), 30);
    c.retention.defaults.logs_days = 14;
    assert_eq!(c.effective_logs_ttl_days(), 14);
}

#[test]
fn span_signals_from_filters() {
    let f = vec![
        ("service_name".to_string(), "api".to_string()),
        ("duration".to_string(), "5".to_string()),
        ("http_path".to_string(), "/x".to_string()),
    ];
    assert_eq!(extract_span_signals(&f), vec!["service_name=api".to_string(), "http_path=/x".to_string()]);
    assert_eq!(extract_span_signals(&Vec::new()), vec!["wide_events_query".to_string()]);
}
