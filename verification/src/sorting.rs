//! Order statistics: in-place comparison sorts and percentiles by linear
//! interpolation. The binary heap and the heap sort are in `heap`.
use vstd::prelude::*;
use vstd::relations::{sorted_by, total_ordering};
use vstd::seq_lib::{
    lemma_multiset_commutative,
    lemma_sorted_unique,
    to_multiset_build,
    to_multiset_contains,
    to_multiset_update,
};
use crate::errors::AggregationError;
use crate::numeric::{div_toward_zero, divide};

verus! {

/// No element is greater than a later one.
pub open spec fn sorted(s: Seq<i64>) -> bool {
    forall|i: int, j: int| 0 <= i <= j < s.len() ==> s[i] <= s[j]
}

/// `b` holds the elements of `a`, each as often as `a` does.
pub open spec fn permutation(a: Seq<i64>, b: Seq<i64>) -> bool {
    a.to_multiset() == b.to_multiset()
}

/// `s` with the entries at `i` and `j` exchanged.
pub open spec fn swapped(s: Seq<i64>, i: int, j: int) -> Seq<i64> {
    s.update(i, s[j]).update(j, s[i])
}

/// The entries at `low..high` are rearranged among themselves and every
/// other entry is where it was.
pub open spec fn rearranged_within(before: Seq<i64>, after: Seq<i64>, low: int, high: int) -> bool {
    &&& after.len() == before.len()
    &&& permutation(before.subrange(low, high), after.subrange(low, high))
    &&& forall|i: int| 0 <= i < before.len() && !(low <= i < high) ==> after[i] == before[i]
}

/// Exchanging two entries of a range leaves the range a rearrangement of
/// itself.
proof fn lemma_swap_rearranges(s: Seq<i64>, low: int, high: int, i: int, j: int)
    requires
        0 <= low <= i < high <= s.len(),
        low <= j < high,
    ensures
        rearranged_within(s, swapped(s, i, j), low, high),
{
    let r = s.subrange(low, high);
    let t = swapped(s, i, j).subrange(low, high);
    assert(t =~= swapped(r, i - low, j - low));
    to_multiset_update(r, i - low, r[j - low]);
    to_multiset_update(r.update(i - low, r[j - low]), j - low, r[i - low]);
    to_multiset_contains(r, r[i - low]);
    to_multiset_contains(r, r[j - low]);
    assert(r.contains(r[i - low]));
    assert(r.contains(r[j - low]));
    assert(t.to_multiset() =~= r.to_multiset());
}

/// A rearrangement within an inner range is one within any range around it.
proof fn lemma_rearranged_widens(
    a: Seq<i64>,
    b: Seq<i64>,
    low: int,
    high: int,
    inner_low: int,
    inner_high: int,
)
    requires
        0 <= low <= inner_low <= inner_high <= high <= a.len(),
        rearranged_within(a, b, inner_low, inner_high),
    ensures
        rearranged_within(a, b, low, high),
{
    let a1 = a.subrange(low, inner_low);
    let a2 = a.subrange(inner_low, inner_high);
    let a3 = a.subrange(inner_high, high);
    let b1 = b.subrange(low, inner_low);
    let b2 = b.subrange(inner_low, inner_high);
    let b3 = b.subrange(inner_high, high);
    assert(a.subrange(low, high) =~= (a1 + a2) + a3);
    assert(b.subrange(low, high) =~= (b1 + b2) + b3);
    assert(a1 =~= b1);
    assert(a3 =~= b3);
    lemma_multiset_commutative(a1, a2);
    lemma_multiset_commutative(a1 + a2, a3);
    lemma_multiset_commutative(b1, b2);
    lemma_multiset_commutative(b1 + b2, b3);
}

/// Rearranging twice is rearranging.
proof fn lemma_rearranged_chains(a: Seq<i64>, b: Seq<i64>, c: Seq<i64>, low: int, high: int)
    requires
        rearranged_within(a, b, low, high),
        rearranged_within(b, c, low, high),
    ensures
        rearranged_within(a, c, low, high),
{
}

/// What holds of every element of a sequence holds of every element of a
/// permutation of it.
proof fn lemma_permutation_keeps(a: Seq<i64>, b: Seq<i64>, holds: spec_fn(i64) -> bool)
    requires
        permutation(a, b),
        forall|i: int| 0 <= i < a.len() ==> holds(#[trigger] a[i]),
    ensures
        forall|i: int| 0 <= i < b.len() ==> holds(#[trigger] b[i]),
{
    assert forall|i: int| 0 <= i < b.len() implies holds(#[trigger] b[i]) by {
        to_multiset_contains(b, b[i]);
        to_multiset_contains(a, b[i]);
        assert(b.contains(b[i]));
        assert(a.contains(b[i]));
        let j = choose|j: int| 0 <= j < a.len() && a[j] == b[i];
        assert(holds(a[j]));
    }
}

/// Exchanges the entries at `i` and `j`.
pub(crate) fn swap(v: &mut Vec<i64>, i: usize, j: usize)
    requires
        i < old(v)@.len(),
        j < old(v)@.len(),
    ensures
        final(v)@ == swapped(old(v)@, i as int, j as int),
{
    let a = v[i];
    let b = v[j];
    v.set(i, b);
    v.set(j, a);
}

/// Moves the last entry of `low..=high` to the place it has in sorted order,
/// the smaller entries before it and the others after it, and returns that
/// place.
fn partition(arr: &mut Vec<i64>, low: usize, high: usize) -> (pivot: usize)
    requires
        low < high < old(arr)@.len(),
    ensures
        low <= pivot <= high,
        rearranged_within(old(arr)@, final(arr)@, low as int, high + 1),
        forall|k: int| low <= k < pivot ==> final(arr)@[k] < final(arr)@[pivot as int],
        forall|k: int| pivot < k <= high ==> final(arr)@[k] >= final(arr)@[pivot as int],
{
    let ghost before = arr@;
    let bound = arr[high];
    let mut index_ptr = low;
    let mut i = low;
    assert(before.subrange(low as int, high + 1) =~= before.subrange(low as int, high + 1));
    while i < high
        invariant
            low <= index_ptr <= i <= high < arr@.len(),
            arr@[high as int] == bound,
            rearranged_within(before, arr@, low as int, high + 1),
            forall|k: int| low <= k < index_ptr ==> arr@[k] < bound,
            forall|k: int| index_ptr <= k < i ==> arr@[k] >= bound,
        decreases high - i,
    {
        if arr[i] < bound {
            proof {
                lemma_swap_rearranges(arr@, low as int, high + 1, i as int, index_ptr as int);
                lemma_rearranged_chains(
                    before,
                    arr@,
                    swapped(arr@, i as int, index_ptr as int),
                    low as int,
                    high + 1,
                );
            }
            swap(arr, i, index_ptr);
            index_ptr += 1;
        }
        i += 1;
    }
    proof {
        lemma_swap_rearranges(arr@, low as int, high + 1, high as int, index_ptr as int);
        lemma_rearranged_chains(
            before,
            arr@,
            swapped(arr@, high as int, index_ptr as int),
            low as int,
            high + 1,
        );
    }
    swap(arr, high, index_ptr);
    index_ptr
}

/// Sorts the entries `low..=high` of `v` in ascending order, in place.
///
/// The pivot of a range is its last entry. With `low >= high` there is
/// nothing to sort and `v` is left as it is, whatever its length.
pub fn quicksort(v: &mut Vec<i64>, low: usize, high: usize)
    requires
        low < high ==> high < old(v)@.len(),
    ensures
        low < high ==> rearranged_within(old(v)@, final(v)@, low as int, high + 1),
        low < high ==> sorted(final(v)@.subrange(low as int, high + 1)),
        low >= high ==> final(v)@ == old(v)@,
    decreases high - low,
{
    if low < high {
        let ghost before = v@;
        let pivot = partition(v, low, high);
        let ghost parted = v@;
        let bound = v[pivot];
        if pivot > low {
            quicksort(v, low, pivot - 1);
        }
        let ghost left_done = v@;
        proof {
            if pivot > low + 1 {
                lemma_rearranged_widens(
                    parted,
                    left_done,
                    low as int,
                    high + 1,
                    low as int,
                    pivot as int,
                );
                lemma_permutation_keeps(
                    parted.subrange(low as int, pivot as int),
                    left_done.subrange(low as int, pivot as int),
                    |x: i64| x < bound,
                );
            } else {
                assert(left_done =~= parted);
            }
            assert forall|k: int| low <= k < pivot implies left_done[k] < bound by {
                if pivot > low + 1 {
                    assert(left_done[k] == left_done.subrange(low as int, pivot as int)[k - low]);
                }
            }
            lemma_rearranged_chains(before, parted, left_done, low as int, high + 1);
        }
        if pivot < high {
            quicksort(v, pivot + 1, high);
        }
        proof {
            let done = v@;
            if pivot + 1 < high {
                lemma_rearranged_widens(
                    left_done,
                    done,
                    low as int,
                    high + 1,
                    pivot + 1,
                    high + 1,
                );
                lemma_permutation_keeps(
                    left_done.subrange(pivot + 1, high + 1),
                    done.subrange(pivot + 1, high + 1),
                    |x: i64| x >= bound,
                );
            } else {
                assert(done =~= left_done);
            }
            assert forall|k: int| pivot < k <= high implies done[k] >= bound by {
                if pivot + 1 < high {
                    assert(done[k] == done.subrange(pivot + 1, high + 1)[k - (pivot + 1)]);
                }
            }
            lemma_rearranged_chains(before, left_done, done, low as int, high + 1);
            let out = done.subrange(low as int, high + 1);
            assert forall|i: int, j: int| 0 <= i <= j < out.len() implies out[i] <= out[j] by {
                let a = low + i;
                let b = low + j;
                if b < pivot {
                    if pivot > low + 1 {
                        assert(done[a] == left_done[a]);
                        assert(done[b] == left_done[b]);
                        assert(left_done[a] == left_done.subrange(low as int, pivot as int)[i]);
                        assert(left_done[b] == left_done.subrange(low as int, pivot as int)[j]);
                    }
                } else if a > pivot {
                    if pivot + 1 < high {
                        assert(done[a] == done.subrange(pivot + 1, high + 1)[a - (pivot + 1)]);
                        assert(done[b] == done.subrange(pivot + 1, high + 1)[b - (pivot + 1)]);
                    }
                } else {
                    assert(done[pivot as int] == bound);
                }
            }
        }
    }
}

/// Merges the sorted runs `low..=middle` and `middle + 1..=high` of `v` into
/// one sorted run in their place.
fn merge(v: &mut Vec<i64>, low: usize, middle: usize, high: usize)
    requires
        low <= middle < high < old(v)@.len(),
        sorted(old(v)@.subrange(low as int, middle + 1)),
        sorted(old(v)@.subrange(middle + 1, high + 1)),
    ensures
        rearranged_within(old(v)@, final(v)@, low as int, high + 1),
        sorted(final(v)@.subrange(low as int, high + 1)),
{
    let ghost before = v@;
    let ghost left = before.subrange(low as int, middle + 1);
    let ghost right = before.subrange(middle + 1, high + 1);
    let n = v.len();
    let mut merged: Vec<i64> = Vec::with_capacity(high - low + 1);
    let mut i: usize = low;
    let mut j: usize = middle + 1;
    proof {
        assert(left.take(0) =~= merged@);
        assert(right.take(0) =~= merged@);
        lemma_multiset_commutative(left.take(0), right.take(0));
        assert(left.take(0) + right.take(0) =~= merged@);
    }
    while i <= middle || j <= high
        invariant
            low <= middle < high < n,
            n == v@.len(),
            v@ == before,
            left == before.subrange(low as int, middle + 1),
            right == before.subrange(middle + 1, high + 1),
            sorted(left),
            sorted(right),
            low <= i <= middle + 1,
            middle + 1 <= j <= high + 1,
            merged@.len() == (i - low) + (j - (middle + 1)),
            sorted(merged@),
            merged@.to_multiset() == left.take(i - low).to_multiset().add(
                right.take(j - (middle + 1)).to_multiset(),
            ),
            forall|k: int| 0 <= k < merged@.len() && i <= middle ==> merged@[k] <= before[i as int],
            forall|k: int| 0 <= k < merged@.len() && j <= high ==> merged@[k] <= before[j as int],
        decreases (middle + 1 - i) + (high + 1 - j),
    {
        let ghost held = merged@;
        let take_left = if i > middle {
            false
        } else if j > high {
            true
        } else {
            v[i] < v[j]
        };
        if take_left {
            let x = v[i];
            merged.push(x);
            proof {
                assert(left[i - low] == x);
                assert(left.take(i - low + 1) =~= left.take(i - low).push(x));
                to_multiset_build(left.take(i - low), x);
                to_multiset_build(held, x);
                assert(merged@.to_multiset() =~= left.take(i - low + 1).to_multiset().add(
                    right.take(j - (middle + 1)).to_multiset(),
                ));
                if i < middle {
                    assert(left[i - low] <= left[i - low + 1]);
                }
            }
            i += 1;
        } else {
            let x = v[j];
            merged.push(x);
            proof {
                assert(right[j - (middle + 1)] == x);
                assert(right.take(j - (middle + 1) + 1) =~= right.take(j - (middle + 1)).push(x));
                to_multiset_build(right.take(j - (middle + 1)), x);
                to_multiset_build(held, x);
                assert(merged@.to_multiset() =~= left.take(i - low).to_multiset().add(
                    right.take(j - (middle + 1) + 1).to_multiset(),
                ));
                if j < high {
                    assert(right[j - (middle + 1)] <= right[j - (middle + 1) + 1]);
                }
            }
            j += 1;
        }
    }
    proof {
        assert(left.take(middle + 1 - low) =~= left);
        assert(right.take(high - middle) =~= right);
        assert(before.subrange(low as int, high + 1) =~= left + right);
        lemma_multiset_commutative(left, right);
    }
    let mut k: usize = 0;
    while k < merged.len()
        invariant
            low <= high < v@.len(),
            v@.len() == before.len(),
            merged@.len() == high - low + 1,
            k <= merged@.len(),
            forall|m: int| 0 <= m < k ==> v@[low + m] == merged@[m],
            forall|m: int| 0 <= m < v@.len() && !(low <= m <= high) ==> v@[m] == before[m],
        decreases merged@.len() - k,
    {
        v.set(low + k, merged[k]);
        k += 1;
    }
    assert(v@.subrange(low as int, high + 1) =~= merged@);
}

/// Sorts the entries `low..=high` of `v` in ascending order by merging
/// sorted halves. With `low >= high` there is nothing to sort and `v` is
/// left as it is, whatever its length.
pub fn mergesort(v: &mut Vec<i64>, low: usize, high: usize)
    requires
        low < high ==> high < old(v)@.len(),
    ensures
        low < high ==> rearranged_within(old(v)@, final(v)@, low as int, high + 1),
        low < high ==> sorted(final(v)@.subrange(low as int, high + 1)),
        low >= high ==> final(v)@ == old(v)@,
    decreases high - low,
{
    if low < high {
        let ghost before = v@;
        let middle = low + (high - low) / 2;
        mergesort(v, low, middle);
        let ghost first = v@;
        mergesort(v, middle + 1, high);
        let ghost second = v@;
        proof {
            if low < middle {
                lemma_rearranged_widens(before, first, low as int, high + 1, low as int, middle + 1);
            } else {
                assert(first.subrange(low as int, high + 1) =~= before.subrange(
                    low as int,
                    high + 1,
                ));
            }
            if middle + 1 < high {
                lemma_rearranged_widens(first, second, low as int, high + 1, middle + 1, high + 1);
                assert(second.subrange(low as int, middle + 1) =~= first.subrange(
                    low as int,
                    middle + 1,
                ));
            } else {
                assert(second.subrange(low as int, high + 1) =~= first.subrange(
                    low as int,
                    high + 1,
                ));
            }
            lemma_rearranged_chains(before, first, second, low as int, high + 1);
        }
        merge(v, low, middle, high);
        proof {
            lemma_rearranged_chains(before, second, v@, low as int, high + 1);
        }
    }
}

/// Two sorted sequences with the same elements are the same sequence.
pub proof fn lemma_sorted_is_unique(a: Seq<i64>, b: Seq<i64>)
    requires
        sorted(a),
        sorted(b),
        permutation(a, b),
    ensures
        a == b,
{
    let leq = |x: i64, y: i64| x <= y;
    assert(sorted_by(a, leq));
    assert(sorted_by(b, leq));
    assert(total_ordering(leq));
    lemma_sorted_unique(a, b, leq);
}

/// Sorting a sequence that is sorted already changes nothing: whatever a
/// sort returns for it is the sequence itself.
pub proof fn lemma_sorting_is_idempotent(input: Seq<i64>, output: Seq<i64>)
    requires
        sorted(input),
        sorted(output),
        permutation(input, output),
    ensures
        output == input,
{
    lemma_sorted_is_unique(input, output);
}

/// The percentile `p` of the sorted sequence `s`, by linear interpolation
/// between the two entries around the position `p / 100 * (len - 1)`, the
/// interpolated part rounded toward zero. A percentile of 0 or less is the
/// first entry, one of 100 or more the last.
pub open spec fn percentile_of(p: int, s: Seq<i64>) -> int
    recommends
        s.len() > 0,
{
    if p <= 0 {
        s[0] as int
    } else if p >= 100 {
        s.last() as int
    } else {
        let position = (s.len() - 1) * p;
        let below = position / 100;
        let part = position % 100;
        if part == 0 {
            s[below] as int
        } else {
            s[below] + div_toward_zero((s[below + 1] - s[below]) * part, 100)
        }
    }
}

/// A percentile depends on the elements only, not on the order in which
/// they were given: two arrays with the same elements have, once sorted,
/// the same percentiles.
pub proof fn lemma_percentile_ignores_order(
    p: int,
    a: Seq<i64>,
    b: Seq<i64>,
    a_sorted: Seq<i64>,
    b_sorted: Seq<i64>,
)
    requires
        permutation(a, b),
        sorted(a_sorted),
        permutation(a, a_sorted),
        sorted(b_sorted),
        permutation(b, b_sorted),
    ensures
        percentile_of(p, a_sorted) == percentile_of(p, b_sorted),
{
    lemma_sorted_is_unique(a_sorted, b_sorted);
}

/// The percentile `percentile` of a non-empty array.
fn interpolated(percentile: usize, arr: &Vec<i64>) -> (value: i64)
    requires
        arr@.len() > 0,
    ensures
        value == percentile_of(percentile as int, arr@),
        sorted(arr@) ==> arr@[0] <= value <= arr@.last(),
{
    let n = arr.len();
    if percentile == 0 {
        return arr[0];
    }
    if percentile >= 100 {
        return arr[n - 1];
    }
    let max_index = n - 1;
    assert(max_index * percentile <= max_index * 100) by (nonlinear_arith)
        requires
            percentile < 100,
            max_index >= 0,
    ;
    let position: u128 = max_index as u128 * percentile as u128;
    let whole: u128 = position / 100;
    let part: u128 = position % 100;
    let below = whole as usize;
    if part == 0 {
        return arr[below];
    }
    let floor_val = arr[below];
    let ceil_val = arr[below + 1];
    let gap: i128 = ceil_val as i128 - floor_val as i128;
    let ghost g = gap as int;
    let ghost r = part as int;
    proof {
        assert(g >= 0 ==> g * r >= 0 && 0 <= (g * r) / 100 <= g) by (nonlinear_arith)
            requires
                0 < r < 100,
        ;
        assert(g < 0 ==> g * r < 0 && 0 <= (-(g * r)) / 100 <= -g) by (nonlinear_arith)
            requires
                0 < r < 100,
        ;
        assert(-0x1_0000_0000_0000_0000 * 100 <= g * r <= 0x1_0000_0000_0000_0000 * 100)
            by (nonlinear_arith)
            requires
                0 < r < 100,
                -0x1_0000_0000_0000_0000 <= g <= 0x1_0000_0000_0000_0000,
        ;
    }
    let rise = divide(gap * part as i128, 100);
    (floor_val as i128 + rise) as i64
}

/// The percentile `percentile` of an array that is sorted in ascending
/// order; it lies between the first and the last entry.
///
/// Fails with `EmptyQueueError` on an empty array, and on no other.
pub fn percentile_from_sorted_array(percentile: usize, arr: &Vec<i64>) -> (result: Result<
    i64,
    AggregationError,
>)
    ensures
        match result {
            Ok(value) => {
                &&& arr@.len() > 0
                &&& value == percentile_of(percentile as int, arr@)
                &&& sorted(arr@) ==> arr@[0] <= value <= arr@.last()
            },
            Err(e) => arr@.len() == 0 && e == AggregationError::EmptyQueueError,
        },
{
    if arr.len() == 0 {
        Err(AggregationError::EmptyQueueError)
    } else {
        Ok(interpolated(percentile, arr))
    }
}

/// Some percentile is below 0.
pub open spec fn has_negative(percentiles: Seq<i64>) -> bool {
    exists|k: int| 0 <= k < percentiles.len() && percentiles[k] < 0
}

/// Sorts `vals` in ascending order and returns the percentiles asked for, in
/// the order of `percentiles`.
///
/// Fails with `EmptyQueueError` on an empty array and with
/// `NegativePercentileError` where a percentile is below 0, the former
/// taking precedence; in both cases `vals` is left untouched.
pub fn percentile(percentiles: &Vec<i64>, vals: &mut Vec<i64>) -> (result: Result<
    Vec<i64>,
    AggregationError,
>)
    ensures
        match result {
            Ok(found) => {
                &&& old(vals)@.len() > 0
                &&& !has_negative(percentiles@)
                &&& sorted(final(vals)@)
                &&& permutation(old(vals)@, final(vals)@)
                &&& found@.len() == percentiles@.len()
                &&& forall|k: int|
                    0 <= k < found@.len() ==> #[trigger] found@[k] == percentile_of(
                        percentiles@[k] as int,
                        final(vals)@,
                    )
            },
            Err(e) => {
                &&& final(vals)@ == old(vals)@
                &&& e == (if old(vals)@.len() == 0 {
                    AggregationError::EmptyQueueError
                } else {
                    AggregationError::NegativePercentileError
                })
                &&& old(vals)@.len() == 0 || has_negative(percentiles@)
            },
        },
{
    let n = vals.len();
    if n == 0 {
        return Err(AggregationError::EmptyQueueError);
    }
    let mut k: usize = 0;
    while k < percentiles.len()
        invariant
            k <= percentiles@.len(),
            vals@ == old(vals)@,
            vals@.len() > 0,
            forall|j: int| 0 <= j < k ==> percentiles@[j] >= 0,
        decreases percentiles@.len() - k,
    {
        if percentiles[k] < 0 {
            assert(has_negative(percentiles@));
            return Err(AggregationError::NegativePercentileError);
        }
        k += 1;
    }
    assert(!has_negative(percentiles@));
    let ghost before = vals@;
    quicksort(vals, 0, n - 1);
    proof {
        if n == 1 {
            assert(sorted(vals@));
            assert(permutation(before, vals@));
        } else {
            assert(vals@.subrange(0, n as int) =~= vals@);
            assert(before.subrange(0, n as int) =~= before);
        }
    }
    let mut found: Vec<i64> = Vec::with_capacity(percentiles.len());
    let mut k: usize = 0;
    while k < percentiles.len()
        invariant
            k <= percentiles@.len(),
            found@.len() == k,
            vals@.len() == n,
            n > 0,
            forall|j: int| 0 <= j < percentiles@.len() ==> percentiles@[j] >= 0,
            forall|j: int|
                0 <= j < k ==> #[trigger] found@[j] == percentile_of(percentiles@[j] as int, vals@),
        decreases percentiles@.len() - k,
    {
        let p = percentiles[k];
        let capped: usize = if p >= 100 {
            100
        } else {
            p as usize
        };
        found.push(interpolated(capped, vals));
        k += 1;
    }
    Ok(found)
}

} // verus!
