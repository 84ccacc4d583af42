use market_analysis::errors::AggregationError;
use market_analysis::heap::{Heap, HeapError};
use market_analysis::sorting::{mergesort, percentile, percentile_from_sorted_array, quicksort};

fn unsorted() -> Vec<i64> {
    vec![
        86046, 44557, 25526, 25635, 9871, 77256, 30315, 44836, 69870, 88303, 41515, 35741, 49147,
        43033, 25096, 53739, 58789, 13886, 49525, 19517,
    ]
}

fn ascending() -> Vec<i64> {
    vec![
        9871, 13886, 19517, 25096, 25526, 25635, 30315, 35741, 41515, 43033, 44557, 44836, 49147,
        49525, 53739, 58789, 69870, 77256, 86046, 88303,
    ]
}

#[test]
fn quicksort_test() {
    let mut x = vec![
        86046, 44557, 25526, 25635, 9871, 77256, 30315, 44836, 69870, 88303, 41515, 35741, 49147,
        43033, 25096, 53739, 58789, 13886, 49525, 19517,
    ];
    let low = 0;
    let high = x.len() - 1;
    quicksort(&mut x, low, high);
    let correct_result = vec![
        9871, 13886, 19517, 25096, 25526, 25635, 30315, 35741, 41515, 43033, 44557, 44836, 49147,
        49525, 53739, 58789, 69870, 77256, 86046, 88303,
    ];
    assert!(correct_result == x);
}

#[test]
fn sorting_quicksort_test() {
    let mut x = vec![
        86046, 44557, 25526, 25635, 9871, 77256, 30315, 44836, 69870, 88303, 41515, 35741, 49147,
        43033, 25096, 53739, 58789, 13886, 49525, 19517,
    ];
    let low = 0;
    let high = x.len() - 1;
    quicksort(&mut x, low, high);
    let correct_result = vec![
        9871, 13886, 19517, 25096, 25526, 25635, 30315, 35741, 41515, 43033, 44557, 44836, 49147,
        49525, 53739, 58789, 69870, 77256, 86046, 88303,
    ];
    assert!(correct_result == x);
}

#[test]
fn mergesort_test() {
    let mut x = vec![
        86046, 44557, 25526, 25635, 9871, 77256, 30315, 44836, 69870, 88303, 41515, 35741, 49147,
        43033, 25096, 53739, 58789, 13886, 49525, 19517,
    ];
    let low = 0;
    let high = x.len() - 1;

    mergesort(&mut x, low, high);

    assert_eq!(x, ascending());
}

#[test]
fn mergesort_sorts_only_the_range() {
    let mut x = vec![9, 5, 4, 3, 1, 0];
    mergesort(&mut x, 1, 4);
    assert_eq!(x, vec![9, 1, 3, 4, 5, 0]);
    let mut y = vec![2, 1];
    mergesort(&mut y, 1, 1);
    assert_eq!(y, vec![2, 1]);
    mergesort(&mut y, 7, 2);
    assert_eq!(y, vec![2, 1]);
    let mut dup = vec![3, 1, 3, 1, 2, 2, i64::MAX, i64::MIN];
    mergesort(&mut dup, 0, 7);
    assert_eq!(dup, vec![i64::MIN, 1, 1, 2, 2, 3, 3, i64::MAX]);
}

#[test]
fn sorting_percentile_func_test() {
    let mut x: Vec<i64> = vec![20, 30, 15, 75];
    let percentiles_array = vec![75];
    let y = percentile(&percentiles_array, &mut x).unwrap();
    println!("{:#?}", y);
}

#[test]
fn heapsort_test() {
    let x = vec![
        86046, 44557, 25526, 25635, 9871, 77256, 30315, 44836, 69870, 88303, 41515, 35741, 49147,
        43033, 25096, 53739, 58789, 13886, 49525, 19517,
    ];
    let mut heap: Heap = Heap::new();
    heap.queue.push(0);
    for num in x {
        heap.insert(num);
    }

    let mut x: i64;
    let mut drawn = Vec::new();
    for _i in 0..heap.queue.len() - 1 {
        x = heap.extract_min().unwrap();
        drawn.push(x);
    }
    let mut expected = vec![0];
    expected.extend_from_slice(&ascending()[..19]);
    assert_eq!(drawn, expected);
}

#[test]
fn sorting_heapsort_test() {
    let x = vec![
        86046, 44557, 25526, 25635, 9871, 77256, 30315, 44836, 69870, 88303, 41515, 35741, 49147,
        43033, 25096, 53739, 58789, 13886, 49525, 19517,
    ];

    let result: Vec<i64> = Heap::min_heapsort(x);

    assert_eq!(result, ascending());
}

#[test]
fn percentile_func_test() {
    let mut x: Vec<i64> = vec![20, 30, 15, 75];
    let percentiles_array = vec![75];
    let y = percentile(&percentiles_array, &mut x).unwrap();
    println!("{:#?}", y);
    assert_eq!(y, vec![41]);
    assert_eq!(x, vec![15, 20, 30, 75]);
}

#[test]
fn percentile_interpolates_between_neighbours() {
    // position 0.75 * 3 = 2.25: 30 + 0.25 * (75 - 30) = 41.25, in hundredths
    let mut x: Vec<i64> = vec![2000, 3000, 1500, 7500];
    let y = percentile(&vec![75], &mut x).unwrap();
    assert_eq!(y, vec![4125]);
    assert_eq!(y[0] as f64 / 100.0, 41.25);
}

#[test]
fn percentile_of_sorted_equals_percentile_of_unsorted() {
    let mut given: Vec<i64> = vec![2000, 3000, 1500, 7500];
    let mut sorted: Vec<i64> = vec![2000, 3000, 1500, 7500];
    quicksort(&mut sorted, 0, 3);
    assert_eq!(sorted, vec![1500, 2000, 3000, 7500]);
    let from_sorted = percentile_from_sorted_array(75, &sorted).unwrap();
    let from_given = percentile(&vec![75], &mut given).unwrap();
    assert_eq!(from_given, vec![from_sorted]);
    let again = percentile(&vec![75], &mut given).unwrap();
    assert_eq!(again, vec![from_sorted]);
}

#[test]
fn percentile_boundaries() {
    let sorted: Vec<i64> = vec![15, 20, 30, 75];
    assert_eq!(percentile_from_sorted_array(0, &sorted), Ok(15));
    assert_eq!(percentile_from_sorted_array(100, &sorted), Ok(75));
    assert_eq!(percentile_from_sorted_array(250, &sorted), Ok(75));
    assert_eq!(percentile_from_sorted_array(50, &sorted), Ok(25));
    assert_eq!(percentile_from_sorted_array(50, &vec![7]), Ok(7));
    let mut vals = vec![30, 15];
    assert_eq!(percentile(&vec![0, 100, 1000], &mut vals), Ok(vec![15, 30, 30]));
}

#[test]
fn percentile_rejects_empty_and_negative() {
    assert_eq!(percentile_from_sorted_array(50, &vec![]), Err(AggregationError::EmptyQueueError));
    let mut empty: Vec<i64> = vec![];
    assert_eq!(percentile(&vec![50], &mut empty), Err(AggregationError::EmptyQueueError));
    assert_eq!(percentile(&vec![-1], &mut empty), Err(AggregationError::EmptyQueueError));
    let mut vals = vec![3, 1, 2];
    assert_eq!(percentile(&vec![50, -1], &mut vals), Err(AggregationError::NegativePercentileError));
    assert_eq!(vals, vec![3, 1, 2]);
}

#[test]
fn quicksort_sorts_every_rotation() {
    let base = unsorted();
    for shift in 0..base.len() {
        let mut x = base.clone();
        x.rotate_left(shift);
        let high = x.len() - 1;
        quicksort(&mut x, 0, high);
        assert_eq!(x, ascending());
        let mut reversed = base.clone();
        reversed.rotate_left(shift);
        reversed.reverse();
        assert_eq!(Heap::min_heapsort(reversed), ascending());
    }
}

#[test]
fn quicksort_sorts_only_the_range() {
    let mut x = vec![9, 5, 4, 3, 1, 0];
    quicksort(&mut x, 1, 4);
    assert_eq!(x, vec![9, 1, 3, 4, 5, 0]);
    let mut y = vec![2, 1];
    quicksort(&mut y, 1, 1);
    assert_eq!(y, vec![2, 1]);
    quicksort(&mut y, 5, 3);
    assert_eq!(y, vec![2, 1]);
}

#[test]
fn sorting_sorted_input_changes_nothing() {
    let mut x = ascending();
    let high = x.len() - 1;
    quicksort(&mut x, 0, high);
    assert_eq!(x, ascending());
    assert_eq!(Heap::min_heapsort(ascending()), ascending());
    let mut dup = vec![1, 1, 2, 2, 2, 3];
    quicksort(&mut dup, 0, 5);
    assert_eq!(dup, vec![1, 1, 2, 2, 2, 3]);
}

#[test]
fn extract_min_on_empty_heap_fails() {
    let mut heap = Heap::new();
    assert_eq!(heap.extract_min(), Err(HeapError::EmptyQueueError));
    assert_eq!(heap.len(), 0);
    heap.insert(4);
    assert_eq!(heap.extract_min(), Ok(4));
    assert_eq!(heap.extract_min(), Err(HeapError::EmptyQueueError));
}

#[test]
fn heap_indices() {
    let mut heap = Heap::new();
    for v in [5, 3, 8, 1] {
        heap.insert(v);
    }
    assert_eq!(heap.len(), 4);
    assert_eq!(heap.queue[0], 1);
    assert_eq!(heap.parent_index(0), Err(HeapError::NoParentNode));
    assert_eq!(heap.parent_index(1), Ok(0));
    assert_eq!(heap.parent_index(2), Ok(0));
    assert_eq!(heap.parent_index(3), Ok(1));
    assert_eq!(heap.child_index(0), Ok(1));
    assert_eq!(heap.child_index(1), Ok(3));
    assert_eq!(heap.child_index(2), Err(HeapError::NoChildNode));
    assert_eq!(heap.child_index(usize::MAX), Err(HeapError::NoChildNode));
}

#[test]
fn heap_bubbles_restore_order() {
    let mut heap = Heap::new();
    heap.queue = vec![1, 3, 2, 0];
    heap.bubble_up(3);
    assert_eq!(heap.queue, vec![0, 1, 2, 3]);
    heap.queue = vec![9, 1, 2, 3, 4];
    heap.bubble_down(0);
    assert_eq!(heap.queue, vec![1, 3, 2, 9, 4]);
    heap.queue = vec![9, 2, 1];
    heap.bubble_down(0);
    assert_eq!(heap.queue, vec![1, 2, 9]);
}

#[test]
fn heap_operations_are_defined_on_any_queue() {
    let mut heap = Heap::new();
    heap.queue = vec![5, 1, 9];
    // the root is returned even where the queue is no heap
    assert_eq!(heap.extract_min(), Ok(5));
    assert_eq!(heap.queue, vec![1, 9]);
    heap.queue = vec![7, 3];
    heap.insert(4);
    assert_eq!(heap.queue, vec![4, 3, 7]);
    heap.bubble_down(9);
    assert_eq!(heap.queue, vec![4, 3, 7]);
    heap.bubble_up(0);
    assert_eq!(heap.queue, vec![4, 3, 7]);
    let mut empty = Heap::new();
    empty.bubble_up(0);
    empty.bubble_down(0);
    assert_eq!(empty.len(), 0);
}

#[test]
fn bubble_down_prefers_the_first_child_on_a_tie() {
    let mut heap = Heap::new();
    heap.queue = vec![5, 2, 2];
    heap.bubble_down(0);
    assert_eq!(heap.queue, vec![2, 5, 2]);
    heap.queue = vec![2, 2, 2];
    heap.bubble_down(0);
    assert_eq!(heap.queue, vec![2, 2, 2]);
    heap.queue = vec![1, 4, 4, 4];
    heap.bubble_up(3);
    assert_eq!(heap.queue, vec![1, 4, 4, 4]);
}

#[test]
fn insert_and_extract_keep_the_heap() {
    let mut heap = Heap::new();
    for v in [9, 4, 7, 1, 8, 1, 3] {
        heap.insert(v);
        for i in 1..heap.len() {
            assert!(heap.queue[(i - 1) / 2] <= heap.queue[i]);
        }
    }
    let mut drawn = Vec::new();
    while heap.len() > 0 {
        drawn.push(heap.extract_min().unwrap());
        for i in 1..heap.len() {
            assert!(heap.queue[(i - 1) / 2] <= heap.queue[i]);
        }
    }
    assert_eq!(drawn, vec![1, 1, 3, 4, 7, 8, 9]);
}
