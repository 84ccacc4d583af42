//! Reducing each bucket of a grouped series to one scalar.
//!
//! A value is an integer or missing (`None`). A missing value stands for a
//! result that could not be computed, such as the delta of the first
//! observation, and ranks below every integer.
use vstd::prelude::*;
use crate::errors::AggregationError;
use crate::grouping::{buckets_within, Bucket, GroupedBy};
use crate::numeric::{div_toward_zero, divide, fits_i64, narrow};

verus! {

/// The summary of one bucket: the bucket's label and the scalar computed
/// from its observations.
#[derive(Clone, Copy, Debug, PartialEq, Eq)]
pub struct AggregationEntry {
    pub timestamp: i64,
    pub value: Option<i64>,
}

/// The place of a value in the order that reducers compare by: integers in
/// their own order, and a missing value below them all.
pub open spec fn rank(v: Option<i64>) -> int {
    match v {
        Some(x) => x as int,
        None => i64::MIN - 1,
    }
}

/// `m` occurs in `s` and nothing in `s` ranks above it.
pub open spec fn is_maximum(s: Seq<Option<i64>>, m: Option<i64>) -> bool {
    &&& s.contains(m)
    &&& forall|i: int| 0 <= i < s.len() ==> rank(#[trigger] s[i]) <= rank(m)
}

/// The maximum of a bucket's values: 0 for a bucket without observations.
pub open spec fn is_max_summary(s: Seq<Option<i64>>, m: Option<i64>) -> bool {
    if s.len() == 0 {
        m == Some(0i64)
    } else {
        is_maximum(s, m)
    }
}

/// No value is missing.
pub open spec fn all_present(s: Seq<Option<i64>>) -> bool {
    forall|i: int| 0 <= i < s.len() ==> (#[trigger] s[i]) is Some
}

/// The sum of the values that are present.
pub open spec fn total(s: Seq<Option<i64>>) -> int
    decreases s.len(),
{
    if s.len() == 0 {
        0
    } else {
        total(s.drop_last()) + (match s.last() {
            Some(x) => x as int,
            None => 0,
        })
    }
}

/// The mean of a non-empty bucket, rounded toward zero; missing as soon as
/// one value is missing.
pub open spec fn average_of(s: Seq<Option<i64>>) -> Option<i64> {
    if all_present(s) {
        Some(div_toward_zero(total(s), s.len() as int) as i64)
    } else {
        None
    }
}

/// The values of bucket `b`.
pub open spec fn slice_of<U>(values: Seq<U>, b: Bucket) -> Seq<U> {
    values.subrange(b.start as int, b.end as int)
}

/// Some bucket holds no observation.
pub open spec fn has_empty_bucket(buckets: Seq<Bucket>) -> bool {
    exists|k: int| 0 <= k < buckets.len() && (#[trigger] buckets[k]).start == buckets[k].end
}

/// `i` is the first index at which `keys` is smallest.
pub open spec fn is_first_minimum(keys: Seq<i64>, i: int) -> bool {
    &&& 0 <= i < keys.len()
    &&& forall|j: int| 0 <= j < keys.len() ==> keys[i] <= #[trigger] keys[j]
    &&& forall|j: int| 0 <= j < i ==> keys[i] < #[trigger] keys[j]
}

/// `i` is the last index at which `keys` is largest.
pub open spec fn is_last_maximum(keys: Seq<i64>, i: int) -> bool {
    &&& 0 <= i < keys.len()
    &&& forall|j: int| 0 <= j < keys.len() ==> #[trigger] keys[j] <= keys[i]
    &&& forall|j: int| i < j < keys.len() ==> #[trigger] keys[j] < keys[i]
}

/// The first fields of a sequence of pairs.
pub open spec fn first_fields(pairs: Seq<(i64, i64)>) -> Seq<i64> {
    pairs.map_values(|p: (i64, i64)| p.0)
}

/// The spread of a bucket of pairs: the second field of its ending record
/// less the first field of its starting record, where the starting record is
/// the first one with the smallest first field and the ending record the
/// last one with the largest first field. The spread of a bucket without
/// observations is 0, and a spread outside the 64-bit range is missing.
pub open spec fn is_spread(s: Seq<(i64, i64)>, v: Option<i64>) -> bool {
    if s.len() == 0 {
        v == Some(0i64)
    } else {
        exists|lo: int, hi: int|
            {
                &&& is_first_minimum(first_fields(s), lo)
                &&& is_last_maximum(first_fields(s), hi)
                &&& v == (if fits_i64(s[hi].1 - s[lo].0) {
                    Some((s[hi].1 - s[lo].0) as i64)
                } else {
                    None
                })
            }
    }
}

/// Where the smallest and the largest key of a range stand.
enum Extremes {
    /// The range is empty.
    NoElements,
    /// The range has one entry, at the offset given.
    OneElement(usize),
    /// The offsets of the smallest and of the largest key.
    MinMax(usize, usize),
}

/// Calls `itertools::Itertools::minmax_by_key` on the pairs `start..end`,
/// keyed by their first field, and returns the offsets from `start` of the
/// two records that it picks.
///
/// Trusted, as the method documents: an empty range gives `NoElements`, a
/// range of one `OneElement`; otherwise the minimum is the first record with
/// the smallest key and the maximum the last record with the largest key.
#[verifier::external_body]
fn minmax_by_first(pairs: &Vec<(i64, i64)>, start: usize, end: usize) -> (found: Extremes)
    requires
        start <= end <= pairs@.len(),
    ensures
        match found {
            Extremes::NoElements => end == start,
            Extremes::OneElement(only) => end == start + 1 && only == 0,
            Extremes::MinMax(lo, hi) => {
                &&& end >= start + 2
                &&& is_first_minimum(
                    first_fields(pairs@.subrange(start as int, end as int)),
                    lo as int,
                )
                &&& is_last_maximum(
                    first_fields(pairs@.subrange(start as int, end as int)),
                    hi as int,
                )
            },
        },
{
    let records = pairs[start..end].iter().enumerate();
    match itertools::Itertools::minmax_by_key(records, |record| record.1.0) {
        itertools::MinMaxResult::NoElements => Extremes::NoElements,
        itertools::MinMaxResult::OneElement(only) => Extremes::OneElement(only.0),
        itertools::MinMaxResult::MinMax(lo, hi) => Extremes::MinMax(lo.0, hi.0),
    }
}

/// The maximum of the values `start..end`.
fn max_between(values: &Vec<Option<i64>>, start: usize, end: usize) -> (m: Option<i64>)
    requires
        start <= end <= values@.len(),
    ensures
        is_max_summary(values@.subrange(start as int, end as int), m),
{
    let ghost s = values@.subrange(start as int, end as int);
    if start == end {
        return Some(0);
    }
    let mut best: Option<i64> = values[start];
    let mut i: usize = start + 1;
    assert(s[0] == best);
    while i < end
        invariant
            start < i <= end <= values@.len(),
            s == values@.subrange(start as int, end as int),
            exists|j: int| 0 <= j < i - start && s[j] == best,
            forall|j: int| 0 <= j < i - start ==> rank(#[trigger] s[j]) <= rank(best),
        decreases end - i,
    {
        let candidate = values[i];
        assert(s[i - start] == candidate);
        let better = match (candidate, best) {
            (Some(c), Some(b)) => c >= b,
            (Some(_), None) => true,
            (None, _) => false,
        };
        if better {
            best = candidate;
        }
        i += 1;
    }
    best
}

/// Entry `k` carries the label of bucket `k` and the maximum of its values.
pub open spec fn is_max_of_buckets(
    entries: Seq<AggregationEntry>,
    buckets: Seq<Bucket>,
    values: Seq<Option<i64>>,
) -> bool {
    &&& entries.len() == buckets.len()
    &&& forall|k: int|
        0 <= k < buckets.len() ==> {
            &&& (#[trigger] entries[k]).timestamp == buckets[k].start_timestamp
            &&& is_max_summary(slice_of(values, buckets[k]), entries[k].value)
        }
}

/// Entry `k` carries the label of bucket `k` and the mean of its values.
pub open spec fn is_average_of_buckets(
    entries: Seq<AggregationEntry>,
    buckets: Seq<Bucket>,
    values: Seq<Option<i64>>,
) -> bool {
    &&& entries.len() == buckets.len()
    &&& forall|k: int|
        0 <= k < buckets.len() ==> {
            &&& (#[trigger] entries[k]).timestamp == buckets[k].start_timestamp
            &&& entries[k].value == average_of(slice_of(values, buckets[k]))
        }
}

/// The maximum of each bucket.
pub(crate) fn max_per_bucket(buckets: &Vec<Bucket>, values: &Vec<Option<i64>>) -> (entries: Vec<
    AggregationEntry,
>)
    requires
        buckets_within(buckets@, values@.len() as int),
    ensures
        is_max_of_buckets(entries@, buckets@, values@),
{
    let mut entries: Vec<AggregationEntry> = Vec::with_capacity(buckets.len());
    let mut k: usize = 0;
    while k < buckets.len()
        invariant
            buckets_within(buckets@, values@.len() as int),
            k <= buckets@.len(),
            entries@.len() == k,
            forall|j: int|
                0 <= j < k ==> {
                    &&& (#[trigger] entries@[j]).timestamp == buckets@[j].start_timestamp
                    &&& is_max_summary(slice_of(values@, buckets@[j]), entries@[j].value)
                },
        decreases buckets@.len() - k,
    {
        let bucket = buckets[k];
        let value = max_between(values, bucket.start, bucket.end);
        entries.push(AggregationEntry { timestamp: bucket.start_timestamp, value });
        k += 1;
    }
    entries
}

/// The largest value of each bucket, a missing value ranking below every
/// integer: the maximum of a bucket is missing only if all its values are.
/// A bucket without observations has the maximum 0.
pub fn max(groupby: GroupedBy<Option<i64>>) -> (result: Result<
    Vec<AggregationEntry>,
    AggregationError,
>)
    requires
        groupby.well_formed(),
    ensures
        result is Ok,
        is_max_of_buckets(result.unwrap()@, groupby.buckets@, groupby.values@),
{
    Ok(max_per_bucket(&groupby.buckets, groupby.values))
}

/// The mean of integers is no smaller than the smallest and no larger than
/// the largest of them, so the mean of 64-bit values is a 64-bit value.
pub proof fn lemma_mean_fits(s: Seq<Option<i64>>)
    requires
        s.len() > 0,
    ensures
        fits_i64(div_toward_zero(total(s), s.len() as int)),
{
    lemma_total_bounds(s);
    let n = s.len() as int;
    let t = total(s);
    assert(t >= 0 ==> t / n <= 0x7fff_ffff_ffff_ffff) by (nonlinear_arith)
        requires
            n > 0,
            t <= n * 0x7fff_ffff_ffff_ffff,
    ;
    assert(t >= 0 ==> t / n >= 0) by (nonlinear_arith)
        requires
            n > 0,
    ;
    assert(t < 0 ==> 0 <= (-t) / n <= 0x8000_0000_0000_0000) by (nonlinear_arith)
        requires
            n > 0,
            -t <= n * 0x8000_0000_0000_0000,
    ;
}

/// The sum of `n` 64-bit values lies between `n` times the least and `n`
/// times the greatest 64-bit value.
proof fn lemma_total_bounds(s: Seq<Option<i64>>)
    ensures
        -(s.len() * 0x8000_0000_0000_0000) <= total(s) <= s.len() * 0x7fff_ffff_ffff_ffff,
    decreases s.len(),
{
    if s.len() > 0 {
        lemma_total_bounds(s.drop_last());
        let m = s.len() as int;
        assert((m - 1) * 0x8000_0000_0000_0000 + 0x8000_0000_0000_0000 == m
            * 0x8000_0000_0000_0000) by (nonlinear_arith);
        assert((m - 1) * 0x7fff_ffff_ffff_ffff + 0x7fff_ffff_ffff_ffff == m
            * 0x7fff_ffff_ffff_ffff) by (nonlinear_arith);
    }
}

/// The mean of the values `start..end`.
fn average_between(values: &Vec<Option<i64>>, start: usize, end: usize) -> (mean: Option<i64>)
    requires
        start < end <= values@.len(),
    ensures
        mean == average_of(values@.subrange(start as int, end as int)),
{
    let ghost s = values@.subrange(start as int, end as int);
    let mut sum: i128 = 0;
    let mut complete = true;
    let mut i: usize = start;
    assert(s.take(0) =~= Seq::<Option<i64>>::empty());
    while i < end
        invariant
            start <= i <= end <= values@.len(),
            s == values@.subrange(start as int, end as int),
            sum == total(s.take(i - start)),
            complete == all_present(s.take(i - start)),
        decreases end - i,
    {
        let ghost done = s.take(i - start);
        let ghost next = s.take(i - start + 1);
        proof {
            assert(next.drop_last() =~= done);
            assert(next.last() == values@[i as int]);
            lemma_total_bounds(done);
            lemma_total_bounds(next);
            assert(next.len() * 0x8000_0000_0000_0000 <= 0xffff_ffff_ffff_ffff
                * 0x8000_0000_0000_0000) by (nonlinear_arith)
                requires
                    next.len() <= 0xffff_ffff_ffff_ffff,
            ;
            assert(next.len() * 0x7fff_ffff_ffff_ffff <= 0xffff_ffff_ffff_ffff
                * 0x7fff_ffff_ffff_ffff) by (nonlinear_arith)
                requires
                    next.len() <= 0xffff_ffff_ffff_ffff,
            ;
        }
        match values[i] {
            Some(x) => {
                sum = sum + x as i128;
                assert(all_present(next) == all_present(done)) by {
                    if all_present(done) {
                        assert forall|j: int| 0 <= j < next.len() implies (#[trigger] next[j]) is Some by {
                            if j < done.len() {
                                assert(done[j] is Some);
                            }
                        }
                    } else {
                        let j = choose|j: int| 0 <= j < done.len() && !((#[trigger] done[j]) is Some);
                        assert(next[j] == done[j]);
                    }
                }
            },
            None => {
                complete = false;
                assert(!(next[i - start] is Some));
            },
        }
        i += 1;
    }
    assert(s.take(end - start) =~= s);
    if complete {
        proof {
            lemma_mean_fits(s);
            lemma_total_bounds(s);
        }
        Some(divide(sum, (end - start) as i128) as i64)
    } else {
        None
    }
}

/// The mean of each bucket, or the error for an empty bucket.
pub(crate) fn average_per_bucket(buckets: &Vec<Bucket>, values: &Vec<Option<i64>>) -> (result:
    Result<Vec<AggregationEntry>, AggregationError>)
    requires
        buckets_within(buckets@, values@.len() as int),
    ensures
        match result {
            Ok(entries) => {
                &&& !has_empty_bucket(buckets@)
                &&& is_average_of_buckets(entries@, buckets@, values@)
            },
            Err(e) => e == AggregationError::EmptyBucketError && has_empty_bucket(buckets@),
        },
{
    let mut k: usize = 0;
    while k < buckets.len()
        invariant
            k <= buckets@.len(),
            forall|j: int| 0 <= j < k ==> (#[trigger] buckets@[j]).start != buckets@[j].end,
        decreases buckets@.len() - k,
    {
        if buckets[k].start == buckets[k].end {
            return Err(AggregationError::EmptyBucketError);
        }
        k += 1;
    }
    let mut entries: Vec<AggregationEntry> = Vec::with_capacity(buckets.len());
    let mut k: usize = 0;
    while k < buckets.len()
        invariant
            buckets_within(buckets@, values@.len() as int),
            !has_empty_bucket(buckets@),
            k <= buckets@.len(),
            entries@.len() == k,
            forall|j: int|
                0 <= j < k ==> {
                    &&& (#[trigger] entries@[j]).timestamp == buckets@[j].start_timestamp
                    &&& entries@[j].value == average_of(slice_of(values@, buckets@[j]))
                },
        decreases buckets@.len() - k,
    {
        let bucket = buckets[k];
        let value = average_between(values, bucket.start, bucket.end);
        entries.push(AggregationEntry { timestamp: bucket.start_timestamp, value });
        k += 1;
    }
    Ok(entries)
}

/// The mean of each bucket, rounded toward zero; the mean of a bucket in
/// which a value is missing is missing.
///
/// Fails with `EmptyBucketError` where a bucket holds no observation, and
/// then computes nothing.
pub fn average(groupby: GroupedBy<Option<i64>>) -> (result: Result<
    Vec<AggregationEntry>,
    AggregationError,
>)
    requires
        groupby.well_formed(),
    ensures
        match result {
            Ok(entries) => {
                &&& !has_empty_bucket(groupby.buckets@)
                &&& is_average_of_buckets(entries@, groupby.buckets@, groupby.values@)
            },
            Err(e) => e == AggregationError::EmptyBucketError && has_empty_bucket(
                groupby.buckets@,
            ),
        },
{
    average_per_bucket(&groupby.buckets, groupby.values)
}

/// Entry `k` carries the label of bucket `k` and the spread of its pairs.
pub open spec fn is_spread_of_buckets(
    entries: Seq<AggregationEntry>,
    buckets: Seq<Bucket>,
    values: Seq<(i64, i64)>,
) -> bool {
    &&& entries.len() == buckets.len()
    &&& forall|k: int|
        0 <= k < buckets.len() ==> {
            &&& (#[trigger] entries[k]).timestamp == buckets[k].start_timestamp
            &&& is_spread(slice_of(values, buckets[k]), entries[k].value)
        }
}

/// The spread of the pairs `start..end`.
fn spread_between(pairs: &Vec<(i64, i64)>, start: usize, end: usize) -> (spread: Option<i64>)
    requires
        start <= end <= pairs@.len(),
    ensures
        is_spread(pairs@.subrange(start as int, end as int), spread),
{
    let ghost s = pairs@.subrange(start as int, end as int);
    match minmax_by_first(pairs, start, end) {
        Extremes::NoElements => Some(0),
        Extremes::OneElement(_) => {
            let only = pairs[start];
            assert(s[0] == only);
            assert(is_first_minimum(first_fields(s), 0));
            assert(is_last_maximum(first_fields(s), 0));
            narrow(only.1 as i128 - only.0 as i128)
        },
        Extremes::MinMax(lo, hi) => {
            let starting = pairs[start + lo];
            let ending = pairs[start + hi];
            assert(s[lo as int] == starting);
            assert(s[hi as int] == ending);
            narrow(ending.1 as i128 - starting.0 as i128)
        },
    }
}

/// The spread of each bucket of pairs: the second field of the bucket's
/// ending record less the first field of its starting record.
///
/// The starting record is the first one whose first field is smallest in
/// the bucket, the ending record the last one whose first field is largest;
/// they need not be the earliest and the latest record. A bucket of one
/// record has the spread of that record, one without observations the
/// spread 0.
pub fn openclose_delta(groupby: GroupedBy<(i64, i64)>) -> (result: Result<
    Vec<AggregationEntry>,
    AggregationError,
>)
    requires
        groupby.well_formed(),
    ensures
        result is Ok,
        is_spread_of_buckets(result.unwrap()@, groupby.buckets@, groupby.values@),
{
    let mut entries: Vec<AggregationEntry> = Vec::with_capacity(groupby.buckets.len());
    let mut k: usize = 0;
    while k < groupby.buckets.len()
        invariant
            groupby.well_formed(),
            k <= groupby.buckets@.len(),
            entries@.len() == k,
            forall|j: int|
                0 <= j < k ==> {
                    &&& (#[trigger] entries@[j]).timestamp == groupby.buckets@[j].start_timestamp
                    &&& is_spread(
                        slice_of(groupby.values@, groupby.buckets@[j]),
                        entries@[j].value,
                    )
                },
        decreases groupby.buckets@.len() - k,
    {
        let bucket = groupby.buckets[k];
        let value = spread_between(groupby.values, bucket.start, bucket.end);
        entries.push(AggregationEntry { timestamp: bucket.start_timestamp, value });
        k += 1;
    }
    Ok(entries)
}

} // verus!
