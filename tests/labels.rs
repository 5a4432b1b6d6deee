use wide_query_api::grouping::build_group_key;
use wide_query_api::labels::{build_label_set, LabelSet};
use wide_query_api::matching::match_signature;

fn set(pairs: &[(&str, &str)]) -> LabelSet {
    let mut l = LabelSet::new();
    for (k, v) in pairs {
        l.insert(k.to_string(), v.to_string());
    }
    l
}

fn pairs(l: &LabelSet) -> Vec<(String, String)> {
    (0..l.len()).map(|i| (l.label(i).name.clone(), l.label(i).value.clone())).collect()
}

fn names(v: &[&str]) -> Vec<String> {
    v.iter().map(|s| s.to_string()).collect()
}

fn owned(v: &[(&str, &str)]) -> Vec<(String, String)> {
    v.iter().map(|(a, b)| (a.to_string(), b.to_string())).collect()
}

#[test]
fn label_set_keeps_names_sorted_and_unique() {
    let l = set(&[("job", "api"), ("instance", "a"), ("job", "web"), ("__name__", "up")]);
    assert_eq!(pairs(&l), owned(&[("__name__", "up"), ("instance", "a"), ("job", "web")]));
    assert_eq!(l.get("job").map(|s| s.as_str()), Some("web"));
    assert_eq!(l.get("zone"), None);
}

#[test]
fn build_label_set_merges_row_fields() {
    let attrs = owned(&[("method", "GET"), ("code", ""), ("route", "/a")]);
    let l = build_label_set("http_requests_total", "gateway", &attrs);
    assert_eq!(
        pairs(&l),
        owned(&[
            ("__name__", "http_requests_total"),
            ("method", "GET"),
            ("route", "/a"),
            ("service_name", "gateway"),
        ])
    );
}

#[test]
fn build_label_set_skips_empty_service() {
    let l = build_label_set("up", "", &Vec::new());
    assert_eq!(pairs(&l), owned(&[("__name__", "up")]));
}

#[test]
fn group_key_by_without_and_none() {
    let l = set(&[("__name__", "m"), ("instance", "a"), ("job", "api")]);
    let by = build_group_key(&l, &names(&["job", "zone"]), false);
    assert_eq!(pairs(&by), owned(&[("job", "api")]));
    let without = build_group_key(&l, &names(&["job"]), true);
    assert_eq!(pairs(&without), owned(&[("__name__", "m"), ("instance", "a")]));
    let all = build_group_key(&l, &Vec::new(), false);
    assert!(all.is_empty());
}

#[test]
fn signatures_on_ignoring_and_default() {
    let l = set(&[("__name__", "m"), ("instance", "a"), ("job", "api")]);
    let on = match_signature(&l, &names(&["instance"]), true);
    assert_eq!(pairs(&on), owned(&[("instance", "a")]));
    let ignoring = match_signature(&l, &names(&["job"]), false);
    assert_eq!(pairs(&ignoring), owned(&[("instance", "a")]));
    let default = match_signature(&l, &Vec::new(), false);
    assert_eq!(pairs(&default), owned(&[("instance", "a"), ("job", "api")]));
}

#[test]
fn same_as_compares_contents() {
    let a = set(&[("x", "1"), ("y", "2")]);
    let b = set(&[("y", "2"), ("x", "1")]);
    let c = set(&[("x", "1"), ("y", "3")]);
    assert!(a.same_as(&b));
    assert!(!a.same_as(&c));
    assert!(a.duplicate().same_as(&a));
}
