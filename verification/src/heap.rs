//! An array-backed binary min-heap and the heap sort built on it.
//!
//! The heap is stored level by level in `queue`, the root at index 0: the
//! parent of the entry at `i > 0` is at `(i - 1) / 2`, and its children are
//! at `2 * i + 1` and `2 * i + 2`.
use vstd::prelude::*;
use vstd::multiset::Multiset;
use vstd::seq_lib::{to_multiset_build, to_multiset_contains, to_multiset_remove, to_multiset_update};
use crate::sorting::{permutation, sorted, swap, swapped};

verus! {

/// Why a heap operation has no result.
#[derive(Debug, Clone, Copy, PartialEq, Eq, Structural)]
pub enum HeapError {
    /// The root has no parent.
    NoParentNode,
    /// The entry has no child in the heap.
    NoChildNode,
    /// The heap holds no element.
    EmptyQueueError,
}

/// The index of the parent of the entry at `i > 0`.
pub open spec fn parent(i: int) -> int {
    (i - 1) / 2
}

/// Every entry but the root is at least as large as its parent.
pub open spec fn heap_ordered(s: Seq<i64>) -> bool {
    forall|i: int| 0 < i < s.len() ==> s[#[trigger] parent(i)] <= s[i]
}

/// The heap order holds everywhere except possibly between the entry at `n`
/// and its parent; the children of `n` are at least as large as the parent
/// of `n`.
pub open spec fn heap_ordered_but_above(s: Seq<i64>, n: int) -> bool {
    &&& forall|i: int| 0 < i < s.len() && i != n ==> s[#[trigger] parent(i)] <= s[i]
    &&& forall|i: int|
        0 < i < s.len() && #[trigger] parent(i) == n && n > 0 ==> s[parent(n)] <= s[i]
}

/// The heap order holds everywhere except possibly between the entry at `n`
/// and its children; the children of `n` are at least as large as the parent
/// of `n`.
pub open spec fn heap_ordered_but_below(s: Seq<i64>, n: int) -> bool {
    &&& forall|i: int| 0 < i < s.len() && #[trigger] parent(i) != n ==> s[parent(i)] <= s[i]
    &&& forall|i: int|
        0 < i < s.len() && #[trigger] parent(i) == n && n > 0 ==> s[parent(n)] <= s[i]
}

/// `m` occurs in `s` and no element of `s` is smaller.
pub open spec fn is_minimum(s: Seq<i64>, m: i64) -> bool {
    &&& s.contains(m)
    &&& forall|i: int| 0 <= i < s.len() ==> m <= s[i]
}

/// The root of a heap is its minimum.
pub proof fn lemma_root_is_minimum(s: Seq<i64>)
    requires
        heap_ordered(s),
        s.len() > 0,
    ensures
        is_minimum(s, s[0]),
{
    assert forall|i: int| 0 <= i < s.len() implies s[0] <= #[trigger] s[i] by {
        lemma_root_below(s, i);
    }
    assert(s.contains(s[0]));
}

/// The root of a heap is no larger than the entry at `i`.
proof fn lemma_root_below(s: Seq<i64>, i: int)
    requires
        heap_ordered(s),
        0 <= i < s.len(),
    ensures
        s[0] <= s[i],
    decreases i,
{
    if i > 0 {
        lemma_root_below(s, parent(i));
        assert(s[parent(i)] <= s[i]);
    }
}

/// Exchanging two entries keeps the elements.
proof fn lemma_swap_permutes(s: Seq<i64>, i: int, j: int)
    requires
        0 <= i < s.len(),
        0 <= j < s.len(),
    ensures
        permutation(s, swapped(s, i, j)),
{
    to_multiset_update(s, i, s[j]);
    to_multiset_update(s.update(i, s[j]), j, s[i]);
    to_multiset_contains(s, s[i]);
    to_multiset_contains(s, s[j]);
    assert(s.contains(s[i]));
    assert(s.contains(s[j]));
    assert(swapped(s, i, j).to_multiset() =~= s.to_multiset());
}

/// The empty sequence has the empty multiset of elements.
proof fn lemma_empty_has_no_elements()
    ensures
        Seq::<i64>::empty().to_multiset() =~= Multiset::<i64>::empty(),
{
    assert forall|a: i64| Seq::<i64>::empty().to_multiset().count(a) == 0 by {
        to_multiset_contains(Seq::<i64>::empty(), a);
    }
}

/// The queue after the entry at `n` has been moved towards the root: as long
/// as it is smaller than its parent, the two are exchanged.
pub open spec fn bubbled_up(s: Seq<i64>, n: int) -> Seq<i64>
    decreases n,
{
    if 0 < n < s.len() && s[parent(n)] > s[n] {
        bubbled_up(swapped(s, parent(n), n), parent(n))
    } else {
        s
    }
}

/// The index of the smallest among the entry at `n` and its children in the
/// queue; on a tie the entry itself before a child, and the first child
/// before the second.
pub open spec fn smallest_of_family(s: Seq<i64>, n: int) -> int {
    let first = 2 * n + 1;
    let second = 2 * n + 2;
    let lower = if first < s.len() && s[first] < s[n] {
        first
    } else {
        n
    };
    if second < s.len() && s[second] < s[lower] {
        second
    } else {
        lower
    }
}

/// The queue after the entry at `n` has been moved away from the root: as
/// long as a child is smaller, it is exchanged with its smallest child.
pub open spec fn bubbled_down(s: Seq<i64>, n: int) -> Seq<i64>
    decreases s.len() - n,
{
    if 0 <= n < s.len() && smallest_of_family(s, n) != n {
        bubbled_down(swapped(s, smallest_of_family(s, n), n), smallest_of_family(s, n))
    } else {
        s
    }
}

/// Moving an entry up keeps the elements of the queue.
pub proof fn lemma_bubbled_up_permutes(s: Seq<i64>, n: int)
    ensures
        permutation(s, bubbled_up(s, n)),
        bubbled_up(s, n).len() == s.len(),
    decreases n,
{
    if 0 < n < s.len() && s[parent(n)] > s[n] {
        lemma_swap_permutes(s, parent(n), n);
        lemma_bubbled_up_permutes(swapped(s, parent(n), n), parent(n));
    }
}

/// Moving an entry down keeps the elements of the queue.
pub proof fn lemma_bubbled_down_permutes(s: Seq<i64>, n: int)
    ensures
        permutation(s, bubbled_down(s, n)),
        bubbled_down(s, n).len() == s.len(),
    decreases s.len() - n,
{
    let next = smallest_of_family(s, n);
    if 0 <= n < s.len() && next != n {
        lemma_swap_permutes(s, next, n);
        lemma_bubbled_down_permutes(swapped(s, next, n), next);
    }
}

/// Where only the entry at `n` may be smaller than its parent, moving it up
/// restores the heap order.
pub proof fn lemma_bubbled_up_restores(s: Seq<i64>, n: int)
    requires
        0 <= n < s.len(),
        heap_ordered_but_above(s, n),
    ensures
        heap_ordered(bubbled_up(s, n)),
    decreases n,
{
    if n > 0 && s[parent(n)] > s[n] {
        let above = parent(n);
        let t = swapped(s, above, n);
        assert forall|i: int| 0 < i < t.len() && i != above implies t[#[trigger] parent(i)]
            <= t[i] by {
            if i == n {
            } else if parent(i) == n {
                assert(s[parent(n)] <= s[i]);
            } else {
                assert(s[parent(i)] <= s[i]);
            }
        }
        assert forall|i: int|
            0 < i < t.len() && #[trigger] parent(i) == above && above > 0 implies t[parent(above)]
            <= t[i] by {
            assert(s[parent(above)] <= s[above]);
            if i != n {
                assert(s[parent(i)] <= s[i]);
            }
        }
        lemma_bubbled_up_restores(t, above);
    } else {
        assert forall|i: int| 0 < i < s.len() implies s[#[trigger] parent(i)] <= s[i] by {}
    }
}

/// Where only the entry at `n` may be larger than a child, moving it down
/// restores the heap order.
pub proof fn lemma_bubbled_down_restores(s: Seq<i64>, n: int)
    requires
        0 <= n < s.len(),
        heap_ordered_but_below(s, n),
    ensures
        heap_ordered(bubbled_down(s, n)),
    decreases s.len() - n,
{
    let next = smallest_of_family(s, n);
    if next != n {
        let t = swapped(s, next, n);
        assert forall|i: int| 0 < i < t.len() && #[trigger] parent(i) != next implies t[parent(i)]
            <= t[i] by {
            if i == n {
                assert(parent(next) == n);
                assert(s[parent(n)] <= s[next]);
            } else if i == next {
            } else if parent(i) == n {
            } else {
                assert(s[parent(i)] <= s[i]);
            }
        }
        assert forall|i: int|
            0 < i < t.len() && #[trigger] parent(i) == next && next > 0 implies t[parent(next)]
            <= t[i] by {
            assert(s[parent(i)] <= s[i]);
        }
        lemma_bubbled_down_restores(t, next);
    } else {
        assert forall|i: int| 0 < i < s.len() implies s[#[trigger] parent(i)] <= s[i] by {
            if parent(i) == n {
                assert(i == 2 * n + 1 || i == 2 * n + 2);
            }
        }
    }
}

/// The queue after `v` has been inserted.
pub open spec fn inserted(s: Seq<i64>, v: i64) -> Seq<i64> {
    bubbled_up(s.push(v), s.len() as int)
}

/// The queue after its root has been extracted: the last entry takes the
/// place of the root and is moved down.
pub open spec fn root_extracted(s: Seq<i64>) -> Seq<i64> {
    bubbled_down(swapped(s, 0, s.len() - 1).drop_last(), 0)
}

/// Inserting into a heap gives a heap with one more element.
pub proof fn lemma_inserted_is_heap(s: Seq<i64>, v: i64)
    ensures
        inserted(s, v).to_multiset() == s.to_multiset().insert(v),
        inserted(s, v).len() == s.len() + 1,
        heap_ordered(s) ==> heap_ordered(inserted(s, v)),
{
    let grown = s.push(v);
    to_multiset_build(s, v);
    lemma_bubbled_up_permutes(grown, s.len() as int);
    if heap_ordered(s) {
        assert forall|i: int|
            0 < i < grown.len() && i != s.len() implies grown[#[trigger] parent(i)] <= grown[i] by {
            assert(s[parent(i)] <= s[i]);
        }
        lemma_bubbled_up_restores(grown, s.len() as int);
    }
}

/// Extracting the root of a heap removes its minimum and leaves a heap.
pub proof fn lemma_root_extracted_is_heap(s: Seq<i64>)
    requires
        s.len() > 0,
    ensures
        root_extracted(s).to_multiset() == s.to_multiset().remove(s[0]),
        root_extracted(s).len() == s.len() - 1,
        heap_ordered(s) ==> heap_ordered(root_extracted(s)) && is_minimum(s, s[0]),
{
    let last = s.len() - 1;
    let exchanged = swapped(s, 0, last);
    let rest = exchanged.drop_last();
    lemma_swap_permutes(s, 0, last);
    to_multiset_remove(exchanged, last);
    assert(rest =~= exchanged.remove(last));
    lemma_bubbled_down_permutes(rest, 0);
    if heap_ordered(s) {
        lemma_root_is_minimum(s);
        if rest.len() > 0 {
            assert forall|i: int|
                0 < i < rest.len() && #[trigger] parent(i) != 0 implies rest[parent(i)]
                <= rest[i] by {
                assert(s[parent(i)] <= s[i]);
            }
            lemma_bubbled_down_restores(rest, 0);
        } else {
            assert forall|i: int| 0 < i < rest.len() implies rest[#[trigger] parent(i)]
                <= rest[i] by {}
        }
    }
}

/// A binary min-heap of integers.
///
/// The operations are defined on every queue. They keep the heap order
/// where it holds, and the heap order is what makes `extract_min` return the
/// minimum.
pub struct Heap {
    pub queue: Vec<i64>,
}

impl Heap {
    /// The entries are in heap order.
    pub open spec fn well_formed(&self) -> bool {
        heap_ordered(self.queue@)
    }

    /// An empty heap.
    pub fn new() -> (heap: Self)
        ensures
            heap.queue@ == Seq::<i64>::empty(),
            heap.well_formed(),
    {
        Heap { queue: Vec::new() }
    }

    /// The number of elements.
    pub fn len(&self) -> (n: usize)
        ensures
            n == self.queue@.len(),
    {
        self.queue.len()
    }

    /// The index of the parent of the entry at `n`; the root has none.
    pub fn parent_index(&self, n: usize) -> (result: Result<usize, HeapError>)
        ensures
            n == 0 ==> result == Err::<usize, HeapError>(HeapError::NoParentNode),
            n > 0 ==> result == Ok::<usize, HeapError>(parent(n as int) as usize),
    {
        if n == 0 {
            Err(HeapError::NoParentNode)
        } else {
            Ok((n - 1) / 2)
        }
    }

    /// The index of the first child of the entry at `n`, if that child is in
    /// the heap. The second child, if any, follows it.
    pub fn child_index(&self, n: usize) -> (result: Result<usize, HeapError>)
        ensures
            2 * n + 1 < self.queue@.len() ==> result == Ok::<usize, HeapError>((2 * n + 1) as usize),
            2 * n + 1 >= self.queue@.len() ==> result == Err::<usize, HeapError>(
                HeapError::NoChildNode,
            ),
    {
        if n >= self.queue.len() / 2 {
            Err(HeapError::NoChildNode)
        } else {
            Ok(2 * n + 1)
        }
    }

    /// Moves the entry at `n` towards the root until its parent is no larger.
    ///
    /// In a queue that is in heap order except that the entry at `n` may be
    /// smaller than its parent, this restores the heap order
    /// (`lemma_bubbled_up_restores`).
    pub fn bubble_up(&mut self, n: usize)
        requires
            n == 0 || n < old(self).queue@.len(),
        ensures
            final(self).queue@ == bubbled_up(old(self).queue@, n as int),
        decreases n,
    {
        match self.parent_index(n) {
            Err(_) => {},
            Ok(above) => {
                if self.queue[above] > self.queue[n] {
                    swap(&mut self.queue, above, n);
                    self.bubble_up(above);
                }
            },
        }
    }

    /// Adds `v`: appends it to the queue and moves it up. A heap stays a
    /// heap.
    pub fn insert(&mut self, v: i64)
        ensures
            final(self).queue@ == inserted(old(self).queue@, v),
            final(self).queue@.to_multiset() == old(self).queue@.to_multiset().insert(v),
            final(self).queue@.len() == old(self).queue@.len() + 1,
            old(self).well_formed() ==> final(self).well_formed(),
    {
        proof {
            lemma_inserted_is_heap(self.queue@, v);
        }
        self.queue.push(v);
        let new_n = self.queue.len();
        self.bubble_up(new_n - 1);
    }

    /// Moves the entry at `n` away from the root, each time exchanging it
    /// with its smallest child, until no child is smaller. An `n` outside
    /// the queue changes nothing.
    ///
    /// In a queue that is in heap order except that the entry at `n` may be
    /// larger than its children, this restores the heap order
    /// (`lemma_bubbled_down_restores`).
    pub fn bubble_down(&mut self, n: usize)
        ensures
            final(self).queue@ == bubbled_down(old(self).queue@, n as int),
        decreases old(self).queue@.len() - n,
    {
        let first = match self.child_index(n) {
            Ok(i) => i,
            Err(_) => {
                return ;
            },
        };
        assert(first < self.queue.len());
        let second = first + 1;
        let mut next: usize = n;
        if self.queue[first] < self.queue[next] {
            next = first;
        }
        if second < self.queue.len() && self.queue[second] < self.queue[next] {
            next = second;
        }
        if next != n {
            swap(&mut self.queue, next, n);
            self.bubble_down(next);
        }
    }

    /// Removes the root of the queue and returns it: the last entry takes
    /// its place and is moved down. The root of a heap is its smallest
    /// element, and a heap stays a heap.
    ///
    /// Fails with `EmptyQueueError` on an empty queue, and on no other.
    pub fn extract_min(&mut self) -> (result: Result<i64, HeapError>)
        ensures
            match result {
                Ok(m) => {
                    &&& old(self).queue@.len() > 0
                    &&& m == old(self).queue@[0]
                    &&& final(self).queue@ == root_extracted(old(self).queue@)
                    &&& final(self).queue@.to_multiset() == old(self).queue@.to_multiset().remove(m)
                    &&& final(self).queue@.len() == old(self).queue@.len() - 1
                    &&& old(self).well_formed() ==> is_minimum(old(self).queue@, m)
                },
                Err(e) => {
                    &&& e == HeapError::EmptyQueueError
                    &&& old(self).queue@.len() == 0
                    &&& final(self).queue@ == old(self).queue@
                },
            },
            old(self).well_formed() ==> final(self).well_formed(),
    {
        if self.queue.len() == 0 {
            return Err(HeapError::EmptyQueueError);
        }
        proof {
            lemma_root_extracted_is_heap(self.queue@);
        }
        let m: usize = self.queue.len() - 1;
        swap(&mut self.queue, 0, m);
        let result = self.queue.pop().unwrap();
        if self.queue.len() >= 2 {
            self.bubble_down(0);
        }
        Ok(result)
    }

    /// Sorts `v` in ascending order by inserting every element into a heap
    /// and extracting the minimum until the heap is empty.
    pub fn min_heapsort(v: Vec<i64>) -> (result: Vec<i64>)
        ensures
            sorted(result@),
            permutation(v@, result@),
    {
        let mut heap = Heap::new();
        let mut k: usize = 0;
        assert(v@.take(0) =~= heap.queue@);
        while k < v.len()
            invariant
                k <= v@.len(),
                heap.well_formed(),
                heap.queue@.to_multiset() == v@.take(k as int).to_multiset(),
            decreases v@.len() - k,
        {
            proof {
                to_multiset_build(v@.take(k as int), v@[k as int]);
                assert(v@.take(k + 1) =~= v@.take(k as int).push(v@[k as int]));
            }
            heap.insert(v[k]);
            k += 1;
        }
        assert(v@.take(v@.len() as int) =~= v@);
        let mut result: Vec<i64> = Vec::with_capacity(k);
        assert(result@.to_multiset().add(heap.queue@.to_multiset()) =~= v@.to_multiset()) by {
            lemma_empty_has_no_elements();
            assert(result@ =~= Seq::<i64>::empty());
        }
        loop
            invariant
                heap.well_formed(),
                sorted(result@),
                result@.to_multiset().add(heap.queue@.to_multiset()) == v@.to_multiset(),
                forall|i: int, j: int|
                    0 <= i < result@.len() && 0 <= j < heap.queue@.len() ==> result@[i]
                        <= heap.queue@[j],
            ensures
                heap.queue@.len() == 0,
                sorted(result@),
                result@.to_multiset().add(heap.queue@.to_multiset()) == v@.to_multiset(),
            decreases heap.queue@.len(),
        {
            let ghost pending = heap.queue@;
            let ghost done = result@;
            match heap.extract_min() {
                Ok(m) => {
                    result.push(m);
                    proof {
                        to_multiset_build(done, m);
                        to_multiset_contains(pending, m);
                        assert(result@.to_multiset().add(heap.queue@.to_multiset())
                            =~= done.to_multiset().add(pending.to_multiset()));
                        assert forall|i: int, j: int|
                            0 <= i < result@.len() && 0 <= j < heap.queue@.len() implies result@[i]
                            <= heap.queue@[j] by {
                            to_multiset_contains(heap.queue@, heap.queue@[j]);
                            to_multiset_contains(pending, heap.queue@[j]);
                            assert(heap.queue@.contains(heap.queue@[j]));
                            assert(pending.contains(heap.queue@[j]));
                            let at = choose|at: int|
                                0 <= at < pending.len() && pending[at] == heap.queue@[j];
                            if i < done.len() {
                                assert(done[i] <= pending[at]);
                            }
                        }
                        assert forall|i: int, j: int| 0 <= i <= j < result@.len() implies result@[i]
                            <= result@[j] by {
                            if j == done.len() && i < j {
                                assert(done[i] <= pending[0]);
                            }
                        }
                    }
                },
                Err(_) => {
                    break ;
                },
            }
        }
        proof {
            lemma_empty_has_no_elements();
            assert(heap.queue@ =~= Seq::<i64>::empty());
            assert(result@.to_multiset() =~= v@.to_multiset());
        }
        result
    }
}

} // verus!
