//! Differences and percentage differences between observations.
//!
//! A delta is missing (`None`) where it cannot be computed: at the first
//! observation of a trailing delta, which has no predecessor; where a
//! percentage would divide by 0; and where the result is outside the 64-bit
//! range. Percentages are integers in units of `1 / PERCENT_SCALE` percent,
//! rounded toward zero.
use vstd::prelude::*;
use crate::errors::AggregationError;
use crate::inputs::DeltaFunction;
use crate::numeric::{div_toward_zero, divide, fits_i64, narrow};

verus! {

/// The number of units that make up one percent in a percentage delta.
pub const PERCENT_SCALE: i64 = 10_000;

/// How an observation `a` is measured against a reference `b`.
#[derive(Debug, Clone, Copy, PartialEq, Eq, Structural)]
pub enum Measure {
    /// `a - b`
    Rise,
    /// `b - a`
    Fall,
    /// `(a - b) / b * 100`
    PercentageRise,
    /// `(b - a) / b * 100`
    PercentageFall,
}

/// `a - b`, missing if it is no 64-bit value.
pub open spec fn difference(a: int, b: int) -> Option<i64> {
    if fits_i64(a - b) {
        Some((a - b) as i64)
    } else {
        None
    }
}

/// `amount / base * 100` in units of `1 / PERCENT_SCALE` percent, rounded
/// toward zero; missing if `base` is 0 or the result is no 64-bit value.
pub open spec fn percent_of(amount: int, base: int) -> Option<i64> {
    if base == 0 {
        None
    } else if fits_i64(div_toward_zero(amount * 100 * PERCENT_SCALE, base)) {
        Some(div_toward_zero(amount * 100 * PERCENT_SCALE, base) as i64)
    } else {
        None
    }
}

/// The rise from `b` to `a` as a percentage of `b`: `(a - b) / b * 100`.
pub open spec fn percentage(a: int, b: int) -> Option<i64> {
    percent_of(a - b, b)
}

/// The observation `a` measured against the reference `b`.
pub open spec fn measured(measure: Measure, a: int, b: int) -> Option<i64> {
    match measure {
        Measure::Rise => difference(a, b),
        Measure::Fall => difference(b, a),
        Measure::PercentageRise => percent_of(a - b, b),
        Measure::PercentageFall => percent_of(b - a, b),
    }
}

/// Each observation of `a` measured against the observation of `b` at the
/// same index.
pub open spec fn paired(measure: Measure, a: Seq<i64>, b: Seq<i64>) -> Seq<Option<i64>> {
    Seq::new(a.len(), |i: int| measured(measure, a[i] as int, b[i] as int))
}

/// Each observation of `a` measured against the observation of `b` before
/// it; the first, which has none before it, is missing.
pub open spec fn trailing(measure: Measure, a: Seq<i64>, b: Seq<i64>) -> Seq<Option<i64>> {
    Seq::new(
        a.len(),
        |i: int|
            if i == 0 {
                None
            } else {
                measured(measure, a[i] as int, b[i - 1] as int)
            },
    )
}

/// The values of `values`, none of them missing.
pub open spec fn all_given(values: Seq<i64>) -> Seq<Option<i64>> {
    values.map_values(|v: i64| Some(v))
}

/// The error for two series of different length, if they are.
pub open spec fn length_error(a: Seq<i64>, b: Seq<i64>) -> Option<AggregationError> {
    if a.len() != b.len() {
        Some(AggregationError::InconsistentLengthError(a.len() as usize, b.len() as usize))
    } else {
        None
    }
}

/// `amount` as a percentage of `base`.
fn percent(amount: i128, base: i64) -> (d: Option<i64>)
    requires
        -0x1_0000_0000_0000_0000 <= amount <= 0x1_0000_0000_0000_0000,
    ensures
        d == percent_of(amount as int, base as int),
{
    if base == 0 {
        None
    } else {
        let scaled: i128 = amount * (100 * PERCENT_SCALE as i128);
        assert(amount * 100 * PERCENT_SCALE == scaled) by (nonlinear_arith)
            requires
                scaled == amount * (100 * PERCENT_SCALE),
        ;
        narrow(divide(scaled, base as i128))
    }
}

/// Measures `a` against `b`.
pub fn measure_against(measure: Measure, a: i64, b: i64) -> (d: Option<i64>)
    ensures
        d == measured(measure, a as int, b as int),
{
    match measure {
        Measure::Rise => narrow(a as i128 - b as i128),
        Measure::Fall => narrow(b as i128 - a as i128),
        Measure::PercentageRise => percent(a as i128 - b as i128, b),
        Measure::PercentageFall => percent(b as i128 - a as i128, b),
    }
}

/// A series as a series of values that may be missing, none of which is.
pub fn present(values: &Vec<i64>) -> (lifted: Vec<Option<i64>>)
    ensures
        lifted@ == all_given(values@),
{
    let mut lifted: Vec<Option<i64>> = Vec::with_capacity(values.len());
    let mut i: usize = 0;
    while i < values.len()
        invariant
            i <= values@.len(),
            lifted@.len() == i,
            forall|j: int| 0 <= j < i ==> lifted@[j] == Some(values@[j]),
        decreases values@.len() - i,
    {
        lifted.push(Some(values[i]));
        i += 1;
    }
    assert(lifted@ =~= all_given(values@));
    lifted
}

/// Measures two series of one length index by index.
fn measure_paired(measure: Measure, a: &Vec<i64>, b: &Vec<i64>) -> (deltas: Vec<Option<i64>>)
    requires
        a@.len() == b@.len(),
    ensures
        deltas@ == paired(measure, a@, b@),
{
    let mut deltas: Vec<Option<i64>> = Vec::with_capacity(a.len());
    let mut i: usize = 0;
    while i < a.len()
        invariant
            a@.len() == b@.len(),
            i <= a@.len(),
            deltas@.len() == i,
            forall|j: int| 0 <= j < i ==> deltas@[j] == paired(measure, a@, b@)[j],
        decreases a@.len() - i,
    {
        deltas.push(measure_against(measure, a[i], b[i]));
        i += 1;
    }
    assert(deltas@ =~= paired(measure, a@, b@));
    deltas
}

/// Measures each observation of `a` against the observation of `b` at the
/// same index.
///
/// Fails with `InconsistentLengthError` if the series differ in length.
pub fn paired_measure(measure: Measure, a: &Vec<i64>, b: &Vec<i64>) -> (result: Result<
    Vec<Option<i64>>,
    AggregationError,
>)
    ensures
        match result {
            Ok(deltas) => length_error(a@, b@) is None && deltas@ == paired(measure, a@, b@),
            Err(e) => length_error(a@, b@) == Some(e),
        },
{
    if a.len() != b.len() {
        Err(AggregationError::InconsistentLengthError(a.len(), b.len()))
    } else {
        Ok(measure_paired(measure, a, b))
    }
}

/// Measures two series of one length, each index against the one before.
pub(crate) fn measure_trailing(measure: Measure, a: &Vec<i64>, b: &Vec<i64>) -> (deltas: Vec<Option<i64>>)
    requires
        a@.len() == b@.len(),
    ensures
        deltas@ == trailing(measure, a@, b@),
{
    let mut deltas: Vec<Option<i64>> = Vec::with_capacity(a.len());
    let mut i: usize = 0;
    while i < a.len()
        invariant
            a@.len() == b@.len(),
            i <= a@.len(),
            deltas@.len() == i,
            forall|j: int| 0 <= j < i ==> deltas@[j] == trailing(measure, a@, b@)[j],
        decreases a@.len() - i,
    {
        if i == 0 {
            deltas.push(None);
        } else {
            deltas.push(measure_against(measure, a[i], b[i - 1]));
        }
        i += 1;
    }
    assert(deltas@ =~= trailing(measure, a@, b@));
    deltas
}

/// Measures each observation of `a` against the observation of `b` before
/// it; the first entry is missing.
///
/// Fails with `InconsistentLengthError` if the series differ in length.
pub fn trailing_measure(measure: Measure, a: &Vec<i64>, b: &Vec<i64>) -> (result: Result<
    Vec<Option<i64>>,
    AggregationError,
>)
    ensures
        match result {
            Ok(deltas) => length_error(a@, b@) is None && deltas@ == trailing(measure, a@, b@),
            Err(e) => length_error(a@, b@) == Some(e),
        },
{
    if a.len() != b.len() {
        Err(AggregationError::InconsistentLengthError(a.len(), b.len()))
    } else {
        Ok(measure_trailing(measure, a, b))
    }
}

/// The delta of two aligned series: entry `i` is `a[i] - b[i]`.
///
/// Fails with `InconsistentLengthError` if the series differ in length.
pub fn paired_delta(a: &Vec<i64>, b: &Vec<i64>) -> (result: Result<
    Vec<Option<i64>>,
    AggregationError,
>)
    ensures
        match result {
            Ok(deltas) => {
                &&& length_error(a@, b@) is None
                &&& deltas@.len() == a@.len()
                &&& forall|i: int|
                    0 <= i < deltas@.len() ==> #[trigger] deltas@[i] == difference(
                        a@[i] as int,
                        b@[i] as int,
                    )
            },
            Err(e) => length_error(a@, b@) == Some(e),
        },
{
    paired_measure(Measure::Rise, a, b)
}

/// The percentage delta of two aligned series: entry `i` is
/// `(a[i] - b[i]) / b[i] * 100`.
///
/// Fails with `InconsistentLengthError` if the series differ in length.
pub fn paired_percentage_delta(a: &Vec<i64>, b: &Vec<i64>) -> (result: Result<
    Vec<Option<i64>>,
    AggregationError,
>)
    ensures
        match result {
            Ok(deltas) => {
                &&& length_error(a@, b@) is None
                &&& deltas@.len() == a@.len()
                &&& forall|i: int|
                    0 <= i < deltas@.len() ==> #[trigger] deltas@[i] == percentage(
                        a@[i] as int,
                        b@[i] as int,
                    )
            },
            Err(e) => length_error(a@, b@) == Some(e),
        },
{
    paired_measure(Measure::PercentageRise, a, b)
}

/// The delta of each observation against the one before it: entry 0 is
/// missing, entry `i >= 1` is `values[i] - values[i - 1]`.
pub fn trailing_delta(values: &Vec<i64>) -> (deltas: Vec<Option<i64>>)
    ensures
        deltas@.len() == values@.len(),
        deltas@.len() > 0 ==> deltas@[0] is None,
        forall|i: int|
            1 <= i < deltas@.len() ==> #[trigger] deltas@[i] == difference(
                values@[i] as int,
                values@[i - 1] as int,
            ),
{
    measure_trailing(Measure::Rise, values, values)
}

/// The percentage delta of each observation against the one before it:
/// entry 0 is missing, entry `i >= 1` is
/// `(values[i] - values[i - 1]) / values[i - 1] * 100`.
pub fn trailing_percentage_delta(values: &Vec<i64>) -> (deltas: Vec<Option<i64>>)
    ensures
        deltas@.len() == values@.len(),
        deltas@.len() > 0 ==> deltas@[0] is None,
        forall|i: int|
            1 <= i < deltas@.len() ==> #[trigger] deltas@[i] == percentage(
                values@[i] as int,
                values@[i - 1] as int,
            ),
{
    measure_trailing(Measure::PercentageRise, values, values)
}

/// The series that a delta function makes of two series.
pub open spec fn combined(function: DeltaFunction, a: Seq<i64>, b: Seq<i64>) -> Seq<Option<i64>> {
    match function {
        DeltaFunction::PriceDelta => paired(Measure::Rise, a, b),
        DeltaFunction::PriceDeltaPercentage => paired(Measure::PercentageRise, a, b),
        DeltaFunction::TrailingPriceDelta => trailing(Measure::Rise, a, b),
        DeltaFunction::TrailingPriceDeltaPercentage => trailing(Measure::PercentageRise, a, b),
    }
}

/// Combines two series by the delta function chosen.
///
/// Fails with `InconsistentLengthError` if the series differ in length.
pub fn combine(function: DeltaFunction, a: &Vec<i64>, b: &Vec<i64>) -> (result: Result<
    Vec<Option<i64>>,
    AggregationError,
>)
    ensures
        match result {
            Ok(deltas) => length_error(a@, b@) is None && deltas@ == combined(function, a@, b@),
            Err(e) => length_error(a@, b@) == Some(e),
        },
{
    match function {
        DeltaFunction::PriceDelta => paired_measure(Measure::Rise, a, b),
        DeltaFunction::PriceDeltaPercentage => paired_measure(Measure::PercentageRise, a, b),
        DeltaFunction::TrailingPriceDelta => trailing_measure(Measure::Rise, a, b),
        DeltaFunction::TrailingPriceDeltaPercentage => trailing_measure(
            Measure::PercentageRise,
            a,
            b,
        ),
    }
}

} // verus!
