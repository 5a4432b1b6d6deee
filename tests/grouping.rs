use wide_query_api::grouping::{group_series, select_k};
use wide_query_api::labels::LabelSet;

fn set(pairs: &[(&str, &str)]) -> LabelSet {
    let mut l = LabelSet::new();
    for (k, v) in pairs {
        l.insert(k.to_string(), v.to_string());
    }
    l
}

#[test]
fn groups_by_equal_key_in_first_appearance_order() {
    let keys = vec![set(&[("job", "a")]), set(&[("job", "b")]), set(&[("job", "a")])];
    let g = group_series(&keys);
    assert_eq!(g.keys.len(), 2);
    assert_eq!(g.group_of, vec![0, 1, 0]);
    assert_eq!(g.members(0), vec![0, 2]);
    assert_eq!(g.members(1), vec![1]);
}

#[test]
fn two_series_with_equal_labels_form_one_group() {
    let keys = vec![set(&[("__name__", "m")]), set(&[("__name__", "m")])];
    let g = group_series(&keys);
    assert_eq!(g.keys.len(), 1);
    assert_eq!(g.members(0), vec![0, 1]);
}

#[test]
fn topk_picks_the_two_highest() {
    // series a, b, c with latest values 100, 300, 200
    let r = select_k(&vec![100, 300, 200], 2, true);
    assert_eq!(r, vec![1, 2]);
}

#[test]
fn bottomk_picks_the_two_lowest() {
    let r = select_k(&vec![100, 300, 200], 2, false);
    assert_eq!(r, vec![0, 2]);
}

#[test]
fn select_k_zero_and_more_than_available() {
    assert!(select_k(&vec![1, 2, 3], 0, true).is_empty());
    assert_eq!(select_k(&vec![5, 9, 7], 10, true), vec![1, 2, 0]);
    assert!(select_k(&Vec::new(), 3, false).is_empty());
}

#[test]
fn select_k_breaks_ties_by_input_order() {
    assert_eq!(select_k(&vec![4, 7, 7, 4], 3, true), vec![1, 2, 0]);
    assert_eq!(select_k(&vec![4, 7, 7, 4], 3, false), vec![0, 3, 1]);
}
