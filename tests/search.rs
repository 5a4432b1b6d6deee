use wide_query_api::search::{build_log_search_sql, build_span_search_sql, parse_search_expr, resolve_field, tokenize_search, FilterOp};

#[test]
fn fields_resolve_to_columns() {
    assert_eq!(resolve_field("duration_ms"), "duration_ms");
    assert_eq!(resolve_field("attributes.user"), "JSONExtractString(attributes, 'user')");
    assert_eq!(
        resolve_field("attributes.gateway.route"),
        "if(JSONExtractString(attributes, 'gateway.route') != '', JSONExtractString(attributes, 'gateway.route'), JSONExtractString(attributes, 'gateway', 'route'))"
    );
}

#[test]
fn tokens_keep_quoted_phrases() {
    assert_eq!(
        tokenize_search("  \"slack message posted\" OR error\t\"\" x\"y"),
        vec!["slack message posted", "OR", "error", "x", "y"]
    );
    assert_eq!(tokenize_search("\"open"), vec!["open"]);
    assert!(tokenize_search("   ").is_empty());
}

#[test]
fn search_groups_split_on_or() {
    let g = parse_search_expr("error or warn gateway AND x OR");
    assert_eq!(g, vec![vec!["error".to_string()], vec!["warn".to_string(), "gateway".to_string(), "x".to_string()]]);
    assert!(parse_search_expr("OR and").is_empty());
}

#[test]
fn log_search_single_term() {
    assert_eq!(
        build_log_search_sql("timeout").unwrap(),
        "(positionCaseInsensitive(Body, 'timeout') > 0 OR positionCaseInsensitive(toString(LogAttributes), 'timeout') > 0)"
    );
    assert_eq!(build_log_search_sql("   "), None);
}

#[test]
fn log_search_wildcards_and_groups() {
    assert_eq!(
        build_log_search_sql("a*b_c OR d e").unwrap(),
        "((Body ILIKE '%a%b\\_c%' OR toString(LogAttributes) ILIKE '%a%b\\_c%') OR ((positionCaseInsensitive(Body, 'd') > 0 OR positionCaseInsensitive(toString(LogAttributes), 'd') > 0) AND (positionCaseInsensitive(Body, 'e') > 0 OR positionCaseInsensitive(toString(LogAttributes), 'e') > 0)))"
    );
}

#[test]
fn span_search_uses_array_columns() {
    assert_eq!(
        build_span_search_sql("it's").unwrap(),
        "(positionCaseInsensitive(http_path, 'it\\'s') > 0 OR positionCaseInsensitive(attributes, 'it\\'s') > 0 OR arrayExists(x -> positionCaseInsensitive(x, 'it\\'s') > 0, event_names) OR arrayExists(x -> positionCaseInsensitive(x, 'it\\'s') > 0, event_attributes))"
    );
}

#[test]
fn filter_operators() {
    assert_eq!(FilterOp::Eq.operator(), "=");
    assert_eq!(FilterOp::NotLike.operator(), "NOT LIKE");
    assert_eq!(FilterOp::NotIn.operator(), "NOT IN");
}
