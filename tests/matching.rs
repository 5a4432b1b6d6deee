use wide_query_api::functions::{binary_shape, to_binary_op, BinaryOp, BinaryShape, comparison_outcome, ComparisonOutcome};
use wide_query_api::labels::LabelSet;
use wide_query_api::matching::{match_pairs, result_labels, set_operation, Cardinality, Pick, SetOp};

fn set(pairs: &[(&str, &str)]) -> LabelSet {
    let mut l = LabelSet::new();
    for (k, v) in pairs {
        l.insert(k.to_string(), v.to_string());
    }
    l
}

fn pairs(l: &LabelSet) -> Vec<(String, String)> {
    (0..l.len()).map(|i| (l.label(i).name.clone(), l.label(i).value.clone())).collect()
}

fn names(v: &[&str]) -> Vec<String> {
    v.iter().map(|s| s.to_string()).collect()
}

fn sides() -> (Vec<LabelSet>, Vec<LabelSet>) {
    let lhs = vec![
        set(&[("__name__", "req"), ("instance", "a")]),
        set(&[("__name__", "req"), ("instance", "b")]),
    ];
    let rhs = vec![
        set(&[("__name__", "up"), ("instance", "b")]),
        set(&[("__name__", "up"), ("instance", "c")]),
    ];
    (lhs, rhs)
}

#[test]
fn and_keeps_left_series_with_a_match() {
    let (lhs, rhs) = sides();
    assert_eq!(set_operation(SetOp::And, &lhs, &rhs, &Vec::new(), false), vec![Pick::Left(1)]);
}

#[test]
fn unless_keeps_left_series_without_a_match() {
    let (lhs, rhs) = sides();
    assert_eq!(set_operation(SetOp::Unless, &lhs, &rhs, &Vec::new(), false), vec![Pick::Left(0)]);
}

#[test]
fn or_adds_unmatched_right_series() {
    let (lhs, rhs) = sides();
    assert_eq!(
        set_operation(SetOp::Or, &lhs, &rhs, &Vec::new(), false),
        vec![Pick::Left(0), Pick::Left(1), Pick::Right(1)]
    );
}

#[test]
fn on_matching_restricts_the_signature() {
    let lhs = vec![set(&[("instance", "a"), ("job", "x")])];
    let rhs = vec![set(&[("instance", "a"), ("job", "y")])];
    assert_eq!(match_pairs(&lhs, &rhs, &names(&["instance"]), true), vec![(0, 0)]);
    assert!(match_pairs(&lhs, &rhs, &Vec::new(), false).is_empty());
}

#[test]
fn pairs_follow_left_then_right_order() {
    let lhs = vec![set(&[("k", "1")]), set(&[("k", "2")])];
    let rhs = vec![set(&[("k", "2")]), set(&[("k", "1")]), set(&[("k", "1")])];
    assert_eq!(match_pairs(&lhs, &rhs, &Vec::new(), false), vec![(0, 1), (0, 2), (1, 0)]);
}

#[test]
fn group_left_copies_named_labels_from_the_right() {
    let l = set(&[("__name__", "req"), ("instance", "a")]);
    let r = set(&[("__name__", "info"), ("instance", "a"), ("version", "v2")]);
    let out = result_labels(&Cardinality::ManyToOne(names(&["version", "missing"])), &l, &r, &names(&["instance"]), true);
    assert_eq!(
        pairs(&out),
        vec![
            ("__name__".to_string(), "req".to_string()),
            ("instance".to_string(), "a".to_string()),
            ("version".to_string(), "v2".to_string()),
        ]
    );
}

#[test]
fn one_to_one_keeps_on_labels_or_drops_ignored_ones() {
    let l = set(&[("__name__", "req"), ("instance", "a"), ("job", "x")]);
    let r = set(&[("instance", "a")]);
    let on = result_labels(&Cardinality::OneToOne, &l, &r, &names(&["instance"]), true);
    assert_eq!(pairs(&on), vec![("instance".to_string(), "a".to_string())]);
    let ignoring = result_labels(&Cardinality::OneToOne, &l, &r, &names(&["job"]), false);
    assert_eq!(
        pairs(&ignoring),
        vec![("__name__".to_string(), "req".to_string()), ("instance".to_string(), "a".to_string())]
    );
    let plain = result_labels(&Cardinality::OneToOne, &l, &r, &Vec::new(), false);
    assert_eq!(plain.len(), 3);
}

#[test]
fn binary_shapes() {
    let scalar = vec![LabelSet::new()];
    let vector = vec![set(&[("a", "1")])];
    let add = to_binary_op("+").unwrap();
    assert_eq!(binary_shape(add, &scalar, &scalar), BinaryShape::ScalarScalar);
    assert_eq!(binary_shape(add, &vector, &scalar), BinaryShape::VectorScalar { scalar_on_lhs: false });
    assert_eq!(binary_shape(add, &scalar, &vector), BinaryShape::VectorScalar { scalar_on_lhs: true });
    assert_eq!(binary_shape(add, &vector, &vector), BinaryShape::VectorVector);
    assert_eq!(binary_shape(BinaryOp::Unless, &scalar, &scalar), BinaryShape::SetOperation(SetOp::Unless));
    assert_eq!(to_binary_op(">="), Some(BinaryOp::Gte));
    assert_eq!(to_binary_op("atan2"), None);
}

#[test]
fn comparison_filters_or_returns_bool() {
    assert_eq!(comparison_outcome(true, false), ComparisonOutcome::KeepLeft);
    assert_eq!(comparison_outcome(false, false), ComparisonOutcome::Drop);
    assert_eq!(comparison_outcome(true, true), ComparisonOutcome::One);
    assert_eq!(comparison_outcome(false, true), ComparisonOutcome::Zero);
}
