use market_analysis::deltas::{
    combine, measure_against, paired_delta, paired_measure, paired_percentage_delta, present,
    trailing_delta, trailing_measure, trailing_percentage_delta, Measure, PERCENT_SCALE,
};
use market_analysis::errors::AggregationError;
use market_analysis::inputs::DeltaFunction;

fn percent(value: Option<i64>) -> f64 {
    match value {
        Some(units) => units as f64 / PERCENT_SCALE as f64,
        None => f64::NAN,
    }
}

#[test]
fn trailing_delta_of_three() {
    assert_eq!(trailing_delta(&vec![10, 12, 9]), vec![None, Some(2), Some(-3)]);
}

#[test]
fn trailing_percentage_delta_of_three() {
    let deltas = trailing_percentage_delta(&vec![10, 12, 9]);
    assert_eq!(deltas, vec![None, Some(200_000), Some(-250_000)]);
    assert!(percent(deltas[0]).is_nan());
    assert_eq!(percent(deltas[1]), 20.0);
    assert_eq!(percent(deltas[2]), -25.0);
}

#[test]
fn trailing_deltas_of_short_series() {
    let none: Vec<i64> = vec![];
    assert_eq!(trailing_delta(&none), vec![]);
    assert_eq!(trailing_percentage_delta(&none), vec![]);
    assert_eq!(trailing_delta(&vec![7]), vec![None]);
    assert_eq!(trailing_percentage_delta(&vec![7]), vec![None]);
}

#[test]
fn paired_deltas() {
    let a = vec![10, 12, 9];
    let b = vec![4, 12, 10];
    assert_eq!(paired_delta(&a, &b), Ok(vec![Some(6), Some(0), Some(-1)]));
    assert_eq!(
        paired_percentage_delta(&a, &b),
        Ok(vec![Some(1_500_000), Some(0), Some(-100_000)])
    );
    let none: Vec<i64> = vec![];
    assert_eq!(paired_delta(&none, &none), Ok(vec![]));
}

#[test]
fn percentages_round_toward_zero() {
    assert_eq!(measure_against(Measure::PercentageRise, 4, 3), Some(333_333));
    assert_eq!(measure_against(Measure::PercentageRise, 2, 3), Some(-333_333));
    assert_eq!(measure_against(Measure::PercentageRise, -4, -3), Some(333_333));
    assert_eq!(measure_against(Measure::PercentageRise, -2, -3), Some(-333_333));
    assert_eq!(measure_against(Measure::PercentageFall, 2, 3), Some(333_333));
    assert_eq!(measure_against(Measure::PercentageFall, 4, 3), Some(-333_333));
    assert_eq!(measure_against(Measure::PercentageRise, 5, 1), Some(4_000_000));
}

#[test]
fn a_percentage_of_zero_is_missing() {
    assert_eq!(measure_against(Measure::PercentageRise, 5, 0), None);
    assert_eq!(measure_against(Measure::PercentageFall, 0, 0), None);
    assert_eq!(trailing_percentage_delta(&vec![0, 5, 0, 0]), vec![None, None, Some(-1_000_000), None]);
}

#[test]
fn a_delta_outside_the_range_is_missing() {
    assert_eq!(measure_against(Measure::Rise, i64::MAX, -1), None);
    assert_eq!(measure_against(Measure::Rise, i64::MAX, 0), Some(i64::MAX));
    assert_eq!(measure_against(Measure::Rise, i64::MIN, 1), None);
    assert_eq!(measure_against(Measure::Rise, i64::MIN, 0), Some(i64::MIN));
    assert_eq!(measure_against(Measure::Fall, 0, i64::MIN), Some(i64::MIN));
    assert_eq!(measure_against(Measure::Fall, 1, i64::MIN), None);
    assert_eq!(measure_against(Measure::Fall, i64::MIN, 0), None);
    assert_eq!(measure_against(Measure::PercentageRise, i64::MAX, 1), None);
    assert_eq!(measure_against(Measure::PercentageRise, i64::MAX, i64::MIN), Some(-1_999_999));
    assert_eq!(measure_against(Measure::PercentageRise, i64::MIN, i64::MAX), Some(-2_000_000));
    assert_eq!(
        measure_against(Measure::PercentageRise, 9_223_372_036_855, 1),
        Some(9_223_372_036_854_000_000)
    );
    assert_eq!(measure_against(Measure::PercentageRise, 9_223_372_036_856, 1), None);
}

#[test]
fn measures_between_two_series() {
    let high = vec![12, 15, 11];
    let close = vec![10, 14, 10];
    assert_eq!(trailing_measure(Measure::Rise, &high, &close), Ok(vec![None, Some(5), Some(-3)]));
    assert_eq!(trailing_measure(Measure::Fall, &high, &close), Ok(vec![None, Some(-5), Some(3)]));
    assert_eq!(
        trailing_measure(Measure::PercentageRise, &high, &close),
        Ok(vec![None, Some(500_000), Some(-214_285)])
    );
    assert_eq!(
        trailing_measure(Measure::PercentageFall, &high, &close),
        Ok(vec![None, Some(-500_000), Some(214_285)])
    );
    assert_eq!(paired_measure(Measure::Fall, &high, &close), Ok(vec![Some(-2), Some(-1), Some(-1)]));
}

#[test]
fn series_of_different_length_are_refused() {
    let a = vec![1, 2, 3];
    let b = vec![1, 2];
    let refused = Err(AggregationError::InconsistentLengthError(3, 2));
    assert_eq!(paired_delta(&a, &b), refused);
    assert_eq!(paired_percentage_delta(&a, &b), refused);
    assert_eq!(paired_measure(Measure::Fall, &a, &b), refused);
    assert_eq!(trailing_measure(Measure::Rise, &a, &b), refused);
    assert_eq!(combine(DeltaFunction::TrailingPriceDelta, &a, &b), refused);
    assert_eq!(
        paired_delta(&b, &a),
        Err(AggregationError::InconsistentLengthError(2, 3))
    );
}

#[test]
fn delta_functions() {
    let first = vec![10, 12, 9];
    let second = vec![8, 10, 12];
    assert_eq!(
        combine(DeltaFunction::PriceDelta, &first, &second),
        Ok(vec![Some(2), Some(2), Some(-3)])
    );
    assert_eq!(
        combine(DeltaFunction::PriceDeltaPercentage, &first, &second),
        Ok(vec![Some(250_000), Some(200_000), Some(-250_000)])
    );
    assert_eq!(
        combine(DeltaFunction::TrailingPriceDelta, &first, &second),
        Ok(vec![None, Some(4), Some(-1)])
    );
    assert_eq!(
        combine(DeltaFunction::TrailingPriceDeltaPercentage, &first, &second),
        Ok(vec![None, Some(500_000), Some(-100_000)])
    );
}

#[test]
fn present_lifts_every_value() {
    assert_eq!(present(&vec![3, -1, 0]), vec![Some(3), Some(-1), Some(0)]);
    assert_eq!(present(&vec![]), vec![]);
}
