//! Partitioning a series into calendar-aligned buckets.
//!
//! A grouping starts at the beginning of the calendar period that holds the
//! first observation. The observations are then walked in order: one that
//! reaches the next boundary closes the current bucket and opens the
//! following one, whose label is exactly one period later. A period without
//! observations therefore gets no bucket of its own, and the labels after
//! such a gap trail the observations they hold.
use vstd::prelude::*;
use crate::errors::{AggregationError, WidthMismatch};
use crate::inputs::AggregationPeriod;

verus! {

/// Seconds in one week.
pub const WEEK_SECONDS: i64 = 604_800;

/// 0001-01-01T00:00:00Z, the earliest first observation that can be aligned.
pub const MIN_TIMESTAMP: i64 = -62_135_596_800;

/// 9999-12-31T23:59:59Z, the latest first observation that can be aligned.
pub const MAX_TIMESTAMP: i64 = 253_402_300_799;

/// Monday 00:00:00 UTC of the ISO week that contains the instant `t`.
///
/// The Unix epoch fell on a Thursday, three days into its week.
pub open spec fn week_start(t: int) -> int {
    t - ((t + 259_200) % 604_800)
}

/// The width of a period in seconds.
pub open spec fn period_seconds(period: AggregationPeriod) -> int {
    match period {
        AggregationPeriod::Weekly => 604_800,
    }
}

/// The beginning of the period that contains the instant `t`.
pub open spec fn period_start(period: AggregationPeriod, t: int) -> int {
    match period {
        AggregationPeriod::Weekly => week_start(t),
    }
}

/// A contiguous half-open index range `[start, end)` over a series, labelled
/// with the aligned timestamp at which the bucket begins.
#[derive(Clone, Copy, Debug, PartialEq, Eq, Structural)]
pub struct Bucket {
    pub start_timestamp: i64,
    pub start: usize,
    pub end: usize,
}

/// The number of the bucket that observation `i` falls into when the walk
/// starts at `origin`: observation 0 opens bucket 0, and every later
/// observation that has reached the boundary after its predecessor's bucket
/// opens the next one.
pub open spec fn bucket_of(timestamps: Seq<i64>, origin: int, width: int, i: int) -> int
    decreases i,
{
    if i <= 0 {
        0
    } else {
        let before = bucket_of(timestamps, origin, width, i - 1);
        if timestamps[i] >= origin + (before + 1) * width {
            before + 1
        } else {
            before
        }
    }
}

/// The ranges are non-empty, start at 0, follow one another without gap or
/// overlap, and end at `n`.
pub open spec fn is_partition(buckets: Seq<Bucket>, n: int) -> bool {
    &&& buckets.len() > 0
    &&& buckets[0].start == 0
    &&& buckets[buckets.len() - 1].end == n
    &&& forall|k: int|
        0 <= k < buckets.len() ==> (#[trigger] buckets[k]).start < buckets[k].end <= n
    &&& forall|k: int|
        0 <= k < buckets.len() - 1 ==> (#[trigger] buckets[k]).end == buckets[k + 1].start
}

/// Bucket `k` is labelled `origin + k * width`.
pub open spec fn labels_step(buckets: Seq<Bucket>, origin: int, width: int) -> bool {
    forall|k: int|
        0 <= k < buckets.len() ==> (#[trigger] buckets[k]).start_timestamp == origin + k * width
}

/// `buckets` is the grouping of `timestamps` that the walk from `origin`
/// produces: a partition of the indices, labelled in steps of `width`, in
/// which every observation lies in the bucket that `bucket_of` assigns.
pub open spec fn is_grouping(
    buckets: Seq<Bucket>,
    timestamps: Seq<i64>,
    origin: int,
    width: int,
) -> bool {
    &&& is_partition(buckets, timestamps.len() as int)
    &&& labels_step(buckets, origin, width)
    &&& forall|k: int, i: int|
        0 <= k < buckets.len() && (#[trigger] buckets[k]).start <= i < buckets[k].end
            ==> #[trigger] bucket_of(timestamps, origin, width, i) == k
}

/// The indices that the buckets hold, bucket after bucket.
pub open spec fn indices_of(buckets: Seq<Bucket>) -> Seq<int>
    decreases buckets.len(),
{
    if buckets.len() == 0 {
        Seq::empty()
    } else {
        let last = buckets.last();
        indices_of(buckets.drop_last()) + Seq::new(
            (last.end - last.start) as nat,
            |j: int| last.start + j,
        )
    }
}

/// The first `m` ranges of a partition hold the indices below the end of
/// range `m - 1`, in order.
proof fn lemma_prefix_indices(buckets: Seq<Bucket>, n: int, m: int)
    requires
        is_partition(buckets, n),
        1 <= m <= buckets.len(),
    ensures
        indices_of(buckets.take(m)) =~= Seq::new(buckets[m - 1].end as nat, |i: int| i),
    decreases m,
{
    let prefix = buckets.take(m);
    assert(prefix.last() == buckets[m - 1]);
    assert(prefix.drop_last() =~= buckets.take(m - 1));
    if m == 1 {
        assert(indices_of(buckets.take(0)) =~= Seq::<int>::empty());
    } else {
        lemma_prefix_indices(buckets, n, m - 1);
        assert(buckets[m - 2].end == buckets[m - 1].start);
    }
}

/// In a partition of `0..n` the ranges, concatenated in order, are exactly
/// the indices `0, 1, .., n - 1`: none is missing and none occurs twice.
pub proof fn lemma_partition_covers(buckets: Seq<Bucket>, n: int)
    requires
        is_partition(buckets, n),
    ensures
        indices_of(buckets) =~= Seq::new(n as nat, |i: int| i),
{
    lemma_prefix_indices(buckets, n, buckets.len() as int);
    assert(buckets.take(buckets.len() as int) =~= buckets);
}

/// In a grouping the ranges reproduce the index sequence of the series, and
/// each label lies exactly one period after the label before it.
pub proof fn lemma_grouping_covers_and_steps(
    buckets: Seq<Bucket>,
    timestamps: Seq<i64>,
    origin: int,
    width: int,
)
    requires
        is_grouping(buckets, timestamps, origin, width),
        width > 0,
    ensures
        indices_of(buckets) =~= Seq::new(timestamps.len(), |i: int| i),
        forall|k: int|
            0 <= k < buckets.len() - 1 ==> (#[trigger] buckets[k + 1]).start_timestamp
                == buckets[k].start_timestamp + width,
        forall|k: int|
            0 <= k < buckets.len() - 1 ==> buckets[k].start_timestamp
                < (#[trigger] buckets[k + 1]).start_timestamp,
{
    lemma_partition_covers(buckets, timestamps.len() as int);
    assert forall|k: int| 0 <= k < buckets.len() - 1 implies (#[trigger] buckets[k
        + 1]).start_timestamp == buckets[k].start_timestamp + width by {
        assert(buckets[k].start_timestamp == origin + k * width);
        assert((k + 1) * width == k * width + width) by (nonlinear_arith);
    }
}

/// The first check that a request for grouping fails, if any.
///
/// Checked in this order: the two arrays have the same length; the series is
/// not empty (an empty series spans nothing); its first timestamp lies in the
/// years 1 to 9999; the period is not wider than the span from the aligned
/// start to the last observation; the period is not narrower than the
/// interval between the first two observations.
pub open spec fn grouping_error(
    timestamps: Seq<i64>,
    n_values: nat,
    period: AggregationPeriod,
) -> Option<AggregationError> {
    if timestamps.len() != n_values {
        Some(
            AggregationError::InconsistentLengthError(
                timestamps.len() as usize,
                n_values as usize,
            ),
        )
    } else if timestamps.len() == 0 {
        Some(AggregationError::BucketWidthError(WidthMismatch::ExceedsSpan))
    } else if !(MIN_TIMESTAMP <= timestamps[0] <= MAX_TIMESTAMP) {
        Some(AggregationError::NumericConversionError)
    } else if period_seconds(period) > timestamps.last() - period_start(period, timestamps[0] as int) {
        Some(AggregationError::BucketWidthError(WidthMismatch::ExceedsSpan))
    } else if period_seconds(period) < timestamps[1] - timestamps[0] {
        Some(AggregationError::BucketWidthError(WidthMismatch::Upsampling))
    } else {
        None
    }
}

/// Every bucket is a range of indices below `n`.
pub open spec fn buckets_within(buckets: Seq<Bucket>, n: int) -> bool {
    forall|k: int| 0 <= k < buckets.len() ==> (#[trigger] buckets[k]).start <= buckets[k].end <= n
}

/// A series together with its buckets.
pub struct GroupedBy<'a, U> {
    pub buckets: Vec<Bucket>,
    pub values: &'a Vec<U>,
}

impl<'a, U> GroupedBy<'a, U> {
    /// Every bucket is a range of indices into the values.
    pub open spec fn well_formed(&self) -> bool {
        buckets_within(self.buckets@, self.values@.len() as int)
    }
}

/// Calls `chrono::DateTime::from_timestamp`, `Datelike::iso_week` and
/// `chrono::NaiveDate::from_isoywd_opt` to find the Monday of the ISO week
/// of an instant, and `DateTime::timestamp` to turn it back into seconds.
///
/// Trusted: for an instant in the years 1 to 9999 none of these calls fails,
/// and the Monday they name is the one that `week_start` computes.
#[verifier::external_body]
fn iso_week_monday(secs: i64) -> (monday: i64)
    requires
        MIN_TIMESTAMP <= secs <= MAX_TIMESTAMP,
    ensures
        monday == week_start(secs as int),
{
    let instant = chrono::DateTime::from_timestamp(secs, 0).unwrap();
    let week = chrono::Datelike::iso_week(&instant);
    let day = chrono::NaiveDate::from_isoywd_opt(week.year(), week.week(), chrono::Weekday::Mon);
    day.unwrap().and_hms_opt(0, 0, 0).unwrap().and_utc().timestamp()
}

/// The width of a period in seconds.
pub fn period_width(period: AggregationPeriod) -> (width: i64)
    ensures
        width == period_seconds(period),
{
    match period {
        AggregationPeriod::Weekly => WEEK_SECONDS,
    }
}

/// The beginning of the period that contains `secs`.
fn align(period: AggregationPeriod, secs: i64) -> (origin: i64)
    requires
        MIN_TIMESTAMP <= secs <= MAX_TIMESTAMP,
    ensures
        origin == period_start(period, secs as int),
{
    match period {
        AggregationPeriod::Weekly => iso_week_monday(secs),
    }
}

/// Walks the series from `origin` and returns its buckets.
fn walk(timestamps: &Vec<i64>, origin: i64, width: i64) -> (buckets: Vec<Bucket>)
    requires
        timestamps@.len() > 0,
        width > 0,
        origin <= timestamps@[0],
    ensures
        is_grouping(buckets@, timestamps@, origin as int, width as int),
{
    let n = timestamps.len();
    let mut buckets: Vec<Bucket> = Vec::new();
    let mut label: i64 = origin;
    let mut first: usize = 0;
    let mut i: usize = 1;
    assert(0 * width == 0) by (nonlinear_arith);
    while i < n
        invariant
            n == timestamps@.len(),
            width > 0,
            1 <= i <= n,
            first < i,
            label == origin + buckets@.len() * width,
            label <= timestamps@[first as int],
            first == (if buckets@.len() == 0 { 0 } else { buckets@[buckets@.len() - 1].end }),
            buckets@.len() > 0 ==> buckets@[0].start == 0,
            labels_step(buckets@, origin as int, width as int),
            forall|k: int|
                0 <= k < buckets@.len() ==> (#[trigger] buckets@[k]).start < buckets@[k].end <= first,
            forall|k: int|
                0 <= k < buckets@.len() - 1 ==> (#[trigger] buckets@[k]).end == buckets@[k + 1].start,
            forall|k: int, j: int|
                0 <= k < buckets@.len() && (#[trigger] buckets@[k]).start <= j < buckets@[k].end
                    ==> #[trigger] bucket_of(timestamps@, origin as int, width as int, j) == k,
            forall|j: int|
                first <= j < i ==> #[trigger] bucket_of(timestamps@, origin as int, width as int, j)
                    == buckets@.len(),
        decreases n - i,
    {
        let boundary: i128 = label as i128 + width as i128;
        let ghost count = buckets@.len() as int;
        assert(bucket_of(timestamps@, origin as int, width as int, i - 1) == count);
        assert((count + 1) * width == count * width + width) by (nonlinear_arith);
        if timestamps[i] as i128 >= boundary {
            buckets.push(Bucket { start_timestamp: label, start: first, end: i });
            label = boundary as i64;
            first = i;
        }
        i += 1;
    }
    buckets.push(Bucket { start_timestamp: label, start: first, end: n });
    buckets
}

/// Groups a series into buckets of one `period` each.
///
/// The first bucket starts at the beginning of the period that contains the
/// first timestamp. The request is checked before any bucket is formed, and
/// the first failing check decides the error.
pub fn group_by_period<'a, U>(
    timestamps: &Vec<i64>,
    values: &'a Vec<U>,
    period: AggregationPeriod,
) -> (result: Result<GroupedBy<'a, U>, AggregationError>)
    ensures
        match result {
            Ok(grouped) => {
                &&& grouping_error(timestamps@, values@.len(), period) is None
                &&& grouped.values@ == values@
                &&& grouped.well_formed()
                &&& is_grouping(
                    grouped.buckets@,
                    timestamps@,
                    period_start(period, timestamps@[0] as int),
                    period_seconds(period),
                )
            },
            Err(e) => grouping_error(timestamps@, values@.len(), period) == Some(e),
        },
{
    let n = timestamps.len();
    if n != values.len() {
        return Err(AggregationError::InconsistentLengthError(n, values.len()));
    }
    if n == 0 {
        return Err(AggregationError::BucketWidthError(WidthMismatch::ExceedsSpan));
    }
    let first = timestamps[0];
    if first < MIN_TIMESTAMP || first > MAX_TIMESTAMP {
        return Err(AggregationError::NumericConversionError);
    }
    let width = period_width(period);
    let origin = align(period, first);
    let span: i128 = timestamps[n - 1] as i128 - origin as i128;
    if width as i128 > span {
        return Err(AggregationError::BucketWidthError(WidthMismatch::ExceedsSpan));
    }
    assert(n >= 2);
    let interval: i128 = timestamps[1] as i128 - first as i128;
    if (width as i128) < interval {
        return Err(AggregationError::BucketWidthError(WidthMismatch::Upsampling));
    }
    let buckets = walk(timestamps, origin, width);
    Ok(GroupedBy { buckets, values })
}

/// Groups a series into buckets of one ISO week each, Monday to Sunday.
pub fn groupby_weekly<'a, U>(timestamps: &Vec<i64>, values: &'a Vec<U>) -> (result: Result<
    GroupedBy<'a, U>,
    AggregationError,
>)
    ensures
        match result {
            Ok(grouped) => {
                &&& grouping_error(timestamps@, values@.len(), AggregationPeriod::Weekly) is None
                &&& grouped.values@ == values@
                &&& grouped.well_formed()
                &&& is_grouping(
                    grouped.buckets@,
                    timestamps@,
                    week_start(timestamps@[0] as int),
                    604_800,
                )
            },
            Err(e) => grouping_error(timestamps@, values@.len(), AggregationPeriod::Weekly) == Some(e),
        },
{
    group_by_period(timestamps, values, AggregationPeriod::Weekly)
}

} // verus!
