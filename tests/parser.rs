use wide_query_api::parser::{find_matching_paren, parse_matchers, parse_paren_list, parse_selector, strip_outer_parens};
use wide_query_api::selector::MatchOp;

fn chars(s: &str) -> Vec<char> {
    s.chars().collect()
}

#[test]
fn selector_with_name_only() {
    let s = parse_selector("  http_requests_total ").unwrap();
    assert_eq!(s.name, "http_requests_total");
    assert!(s.matchers.is_empty());
}

#[test]
fn selector_with_two_matchers() {
    let s = parse_selector(r#"http_requests_total{service_name="gateway", method="POST"}"#).unwrap();
    assert_eq!(s.name, "http_requests_total");
    assert_eq!(s.matchers.len(), 2);
    assert_eq!(s.matchers[0].name, "service_name");
    assert_eq!(s.matchers[0].op, MatchOp::Equal);
    assert_eq!(s.matchers[0].value, "gateway");
    assert_eq!(s.matchers[1].name, "method");
    assert_eq!(s.matchers[1].value, "POST");
}

#[test]
fn selector_errors() {
    assert_eq!(parse_selector("up{job=\"a\"").err().unwrap(), "unclosed { in selector");
    assert_eq!(parse_selector("up}{").err().unwrap(), "unclosed { in selector");
    assert!(parse_selector("{}").unwrap().name.is_empty());
}

#[test]
fn matcher_operators_quotes_and_escapes() {
    let ms = parse_matchers(&chars(r#"a=~"x.*", b!="y" ,c!~'z', d = "q\"uote""#)).unwrap();
    let got: Vec<(String, MatchOp, String)> = ms.into_iter().map(|m| (m.name, m.op, m.value)).collect();
    assert_eq!(
        got,
        vec![
            ("a".to_string(), MatchOp::RegexMatch, "x.*".to_string()),
            ("b".to_string(), MatchOp::NotEqual, "y".to_string()),
            ("c".to_string(), MatchOp::RegexNotMatch, "z".to_string()),
            ("d".to_string(), MatchOp::Equal, "q\"uote".to_string()),
        ]
    );
}

#[test]
fn matcher_errors() {
    assert_eq!(parse_matchers(&chars("job>\"a\"")).err().unwrap(), "expected operator after label 'job'");
    assert_eq!(parse_matchers(&chars("job=")).err().unwrap(), "expected quoted value");
    assert_eq!(parse_matchers(&chars("job=a")).err().unwrap(), "expected quoted value, got 'a'");
    assert_eq!(parse_matchers(&chars("job=\"a")).err().unwrap(), "unterminated string in matcher");
    assert!(parse_matchers(&chars(" , ")).unwrap().is_empty());
}

#[test]
fn paren_helpers() {
    assert_eq!(find_matching_paren(&chars("(a(b)c)d"), 0), Ok(6));
    assert_eq!(find_matching_paren(&chars("(a(b)c)d"), 2), Ok(4));
    assert!(find_matching_paren(&chars("((a)"), 0).is_err());
    assert_eq!(strip_outer_parens("  (rate(x[5m])) ").unwrap(), "rate(x[5m])");
    assert_eq!(strip_outer_parens("x").err().unwrap(), "expected '(' wrapping expression");
}

#[test]
fn label_lists() {
    let (labels, rest) = parse_paren_list(" (service_name, , job ) (rate(x[5m]))").unwrap();
    assert_eq!(labels, vec!["service_name".to_string(), "job".to_string()]);
    assert_eq!(rest, " (rate(x[5m]))");
    assert_eq!(parse_paren_list("(a").err().unwrap(), "unclosed '(' in label list");
    assert_eq!(parse_paren_list("a)").err().unwrap(), "expected '(' for label list");
}

#[test]
fn matcher_names_take_unicode_letters_and_stop_elsewhere() {
    let ms = parse_matchers(&chars("größe=\"1\", x.y_z=\"2\"")).unwrap();
    assert_eq!(ms.len(), 2);
    assert_eq!(ms[0].name, "größe");
    assert_eq!(ms[1].name, "x.y_z");
    assert!(parse_matchers(&chars("-x=\"1\"")).unwrap().is_empty());
}
