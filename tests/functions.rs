use wide_query_api::functions::{to_agg_op, to_range_func, to_scalar_func, AggOp, RangeFunc, ScalarFunc};

#[test]
fn range_function_names() {
    assert_eq!(to_range_func("rate"), Some(RangeFunc::Rate));
    assert_eq!(to_range_func("quantile_over_time"), Some(RangeFunc::QuantileOverTime));
    assert_eq!(to_range_func("first_over_time"), Some(RangeFunc::FirstOverTime));
    assert_eq!(to_range_func("present_over_time"), Some(RangeFunc::PresentOverTime));
    assert_eq!(to_range_func("abs"), None);
    assert_eq!(to_range_func("Rate"), None);
}

#[test]
fn scalar_function_names() {
    assert_eq!(to_scalar_func("abs"), Some(ScalarFunc::Abs));
    assert_eq!(to_scalar_func("histogram_quantile"), Some(ScalarFunc::HistogramQuantile));
    assert_eq!(to_scalar_func("timestamp"), Some(ScalarFunc::Timestamp));
    assert_eq!(to_scalar_func("rate"), None);
}

#[test]
fn aggregation_names() {
    assert_eq!(to_agg_op("sum"), Some(AggOp::Sum));
    assert_eq!(to_agg_op("count_values"), Some(AggOp::CountValues));
    assert_eq!(to_agg_op("bottomk"), Some(AggOp::Bottomk));
    assert_eq!(to_agg_op("median"), None);
}

#[test]
fn argument_positions_of_parameterised_functions() {
    assert_eq!(RangeFunc::QuantileOverTime.argument_positions(), (1, Some(0)));
    assert_eq!(RangeFunc::PredictLinear.argument_positions(), (0, Some(1)));
    assert_eq!(RangeFunc::Rate.argument_positions(), (0, None));
}

#[test]
fn scalar_call_layouts() {
    let h = ScalarFunc::HistogramQuantile.argument_layout(2).unwrap();
    assert_eq!((h.inner, h.params), (1, vec![0]));
    assert!(ScalarFunc::HistogramQuantile.argument_layout(1).is_none());
    let c = ScalarFunc::Clamp.argument_layout(3).unwrap();
    assert_eq!((c.inner, c.params), (0, vec![1, 2]));
    assert!(ScalarFunc::Clamp.argument_layout(2).is_none());
    assert_eq!(ScalarFunc::Round.argument_layout(1).unwrap().params, Vec::<usize>::new());
    assert_eq!(ScalarFunc::Round.argument_layout(2).unwrap().params, vec![1]);
    assert!(ScalarFunc::Round.argument_layout(3).is_none());
    assert!(ScalarFunc::Abs.argument_layout(0).is_none());
    assert_eq!(ScalarFunc::ClampMin.argument_layout(2).unwrap().params, vec![1]);
}
