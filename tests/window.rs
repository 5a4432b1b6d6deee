use wide_query_api::functions::{RangeFunc, WindowValue};
use wide_query_api::window::{align_to_steps, alignment_tolerance, generate_steps, last_within, lookback_ms, window_positions};

#[test]
fn step_grid_covers_the_range() {
    assert_eq!(generate_steps(0, 60000, 15000), vec![0, 15000, 30000, 45000, 60000]);
    assert_eq!(generate_steps(10, 35, 10), vec![10, 20, 30]);
    assert!(generate_steps(50, 10, 5).is_empty());
}

#[test]
fn tolerance_is_half_a_step_or_the_fallback() {
    assert_eq!(alignment_tolerance(&vec![10000, 20000], 5000), 5000);
    assert_eq!(alignment_tolerance(&vec![0, 15001, 30002], 5000), 7500);
    assert_eq!(alignment_tolerance(&vec![42], 300000), 300000);
}

#[test]
fn last_sample_within_bounds() {
    let ts = vec![1000, 2000, 3000, 4000];
    assert_eq!(last_within(&ts, 1500, 3500), Some(2));
    assert_eq!(last_within(&ts, 4500, 9000), None);
}

#[test]
fn alignment_of_two_series_at_two_steps() {
    // both series have samples at 10 s and 20 s; steps at 10 s and 20 s
    let ts = vec![10000, 20000];
    let steps = vec![10000, 20000];
    let tol = alignment_tolerance(&steps, 5000);
    assert_eq!(align_to_steps(&ts, &steps, tol), vec![Some(0), Some(1)]);
    let sparse = vec![26000];
    assert_eq!(align_to_steps(&sparse, &steps, tol), vec![None, None]);
}

#[test]
fn range_window_is_closed_on_both_ends() {
    let ts = vec![5000, 15000, 24000, 36000, 49000, 60000];
    assert_eq!(window_positions(&ts, 36000, 12000), vec![2, 3]);
    assert_eq!(window_positions(&ts, 36000, 21000), vec![1, 2, 3]);
    assert!(window_positions(&ts, 100, 50).is_empty());
}

#[test]
fn lookback_is_the_longest_range_or_five_minutes() {
    assert_eq!(lookback_ms(&Vec::new()), 300000);
    assert_eq!(lookback_ms(&vec![60000, 3600000, 300000]), 3600000);
}

#[test]
fn empty_window_yields_no_point_except_absent() {
    let all = [
        RangeFunc::Rate, RangeFunc::Irate, RangeFunc::Increase, RangeFunc::SumOverTime,
        RangeFunc::AvgOverTime, RangeFunc::MinOverTime, RangeFunc::MaxOverTime,
        RangeFunc::CountOverTime, RangeFunc::StddevOverTime, RangeFunc::StdvarOverTime,
        RangeFunc::QuantileOverTime, RangeFunc::LastOverTime, RangeFunc::FirstOverTime,
        RangeFunc::Delta, RangeFunc::Idelta, RangeFunc::Deriv, RangeFunc::PredictLinear,
        RangeFunc::Changes, RangeFunc::Resets, RangeFunc::PresentOverTime,
    ];
    for f in all {
        assert_eq!(f.window_value(0), WindowValue::NoPoint);
    }
    assert_eq!(RangeFunc::AbsentOverTime.window_value(0), WindowValue::Count(1));
}

#[test]
fn window_sizes_for_counting_and_rate_functions() {
    assert_eq!(RangeFunc::CountOverTime.window_value(12), WindowValue::Count(12));
    assert_eq!(RangeFunc::PresentOverTime.window_value(3), WindowValue::Count(1));
    assert_eq!(RangeFunc::AbsentOverTime.window_value(3), WindowValue::NoPoint);
    assert_eq!(RangeFunc::Rate.window_value(1), WindowValue::NoPoint);
    assert_eq!(RangeFunc::Rate.window_value(2), WindowValue::Compute);
    assert_eq!(RangeFunc::Changes.window_value(1), WindowValue::Compute);
}
