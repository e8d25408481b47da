use par_reduce::{
    example_map_fn, map_mutate_reduce, map_reduce, map_sum1, map_sum2, map_sum3, map_sum4,
    partition, sequential_fold_sum, vector_add8, MapReduceError, Strategy,
};

const STRATEGIES: [Strategy; 4] = [
    Strategy::FixedThread,
    Strategy::WorkStealingAtomic,
    Strategy::ChannelFanIn,
    Strategy::DirectFold,
];

#[test]
fn test_map_sum1() {
    let data = vec![1, 2, 3, 4, 5, 6, 7, 8, 9, 10];
    let result = map_sum1::<4>(data, example_map_fn);
    assert_eq!(result, 110);
}

#[test]
fn test_map_sum2() {
    let data = vec![1, 2, 3, 4, 5, 6, 7, 8, 9, 10];
    let result = map_sum2::<4>(data.clone(), example_map_fn);
    assert_eq!(result, 110);
}

#[test]
fn test_map_sum3() {
    let data = vec![1, 2, 3, 4, 5, 6, 7, 8, 9, 10];
    let result = map_sum3::<4>(data.clone(), example_map_fn);
    assert_eq!(result, 110);
}

#[test]
fn test_map_sum4() {
    let data = vec![1, 2, 3, 4, 5, 6, 7, 8, 9, 10];
    let result = map_sum4::<4>(data.clone(), example_map_fn);
    assert_eq!(result, 110);
}

#[test]
fn every_strategy_gives_110_at_degree_four() {
    let data: Vec<u32> = (1..=10).collect();
    for s in STRATEGIES {
        assert_eq!(map_reduce(data.clone(), example_map_fn, 4, s), Ok(110));
    }
}

#[test]
fn strategies_match_sequential_fold_at_every_degree() {
    let data: Vec<u32> = vec![7, 0, 13, 4_000_000_000, 5, 1, 99, 42, 3, 8, 21];
    let square = |x: u32| (x as u64) * (x as u64);
    let oracle = sequential_fold_sum(&data, square);
    assert_eq!(oracle, data.iter().map(|&x| (x as u64) * (x as u64)).sum::<u64>());
    for degree in 1..=data.len() {
        for s in STRATEGIES {
            assert_eq!(map_reduce(data.clone(), square, degree, s), Ok(oracle));
        }
    }
}

#[test]
fn degree_larger_than_length_still_sums() {
    let data: Vec<u32> = vec![1, 2, 3];
    for s in STRATEGIES {
        assert_eq!(map_reduce(data.clone(), example_map_fn, 8, s), Ok(12));
    }
    assert_eq!(map_sum1::<8>(data.clone(), example_map_fn), 12);
    assert_eq!(map_sum3::<8>(data, example_map_fn), 12);
}

#[test]
fn empty_input_sums_to_zero() {
    for s in STRATEGIES {
        assert_eq!(map_reduce(Vec::new(), example_map_fn, 3, s), Ok(0));
    }
    assert_eq!(sequential_fold_sum(&Vec::new(), example_map_fn), 0);
}

#[test]
fn zero_degree_is_invalid_argument() {
    for s in STRATEGIES {
        assert_eq!(
            map_reduce(vec![1, 2, 3], example_map_fn, 0, s),
            Err(MapReduceError::InvalidArgument)
        );
    }
    assert_eq!(partition(10, 0), Err(MapReduceError::InvalidArgument));
}

#[test]
fn partition_uses_ceiling_chunks() {
    assert_eq!(partition(10, 4), Ok(vec![(0, 3), (3, 6), (6, 9), (9, 10)]));
    assert_eq!(partition(8, 4), Ok(vec![(0, 2), (2, 4), (4, 6), (6, 8)]));
    assert_eq!(partition(10, 1), Ok(vec![(0, 10)]));
}

#[test]
fn partition_with_more_chunks_than_elements_has_empty_chunks() {
    assert_eq!(partition(2, 4), Ok(vec![(0, 1), (1, 2), (2, 2), (2, 2)]));
    assert_eq!(partition(0, 4), Ok(vec![]));
}

#[test]
fn partition_covers_range_exactly() {
    for len in 1..40usize {
        for n in 1..12usize {
            let chunks = partition(len, n).unwrap();
            assert_eq!(chunks.len(), n);
            assert_eq!(chunks[0].0, 0);
            assert_eq!(chunks[n - 1].1, len);
            for k in 0..n {
                assert!(chunks[k].0 <= chunks[k].1);
                if k + 1 < n {
                    assert_eq!(chunks[k].1, chunks[k + 1].0);
                }
            }
        }
    }
}

#[test]
fn partition_of_largest_length() {
    let chunks = partition(usize::MAX, 2).unwrap();
    assert_eq!(chunks, vec![(0, usize::MAX / 2 + 1), (usize::MAX / 2 + 1, usize::MAX)]);
}

#[test]
fn vector_add8_wraps_around() {
    let a = [u32::MAX, 0, 0, 0, 0, 0, 0, 0];
    let b = [1, 0, 0, 0, 0, 0, 0, 0];
    assert_eq!(vector_add8(a, b), [0; 8]);
}

#[test]
fn vector_add8_matches_scalar_addition() {
    let a = [1, 2, 3, u32::MAX, 5, 6, 7, 4_000_000_000];
    let b = [10, 20, 30, 2, 50, 60, 70, 500_000_000];
    let r = vector_add8(a, b);
    for i in 0..8 {
        assert_eq!(r[i], a[i].wrapping_add(b[i]));
    }
    assert_eq!(r, [11, 22, 33, 1, 55, 66, 77, 205_032_704]);
}

#[test]
fn mutate_reduce_squares_in_place() {
    let mut data: Vec<u32> = (1..=10).collect();
    let total = map_mutate_reduce(&mut data, |x| x * x, 2);
    assert_eq!(total, 385);
    assert_eq!(data, vec![1, 4, 9, 16, 25, 36, 49, 64, 81, 100]);
}

#[test]
fn mutate_reduce_total_wraps_modulo_u32() {
    let mut data: Vec<u32> = vec![u32::MAX, 2, 7];
    let total = map_mutate_reduce(&mut data, |x| x, 3);
    assert_eq!(total, 8);
    assert_eq!(data, vec![u32::MAX, 2, 7]);
}

#[test]
fn mutate_reduce_on_empty_buffer() {
    let mut data: Vec<u32> = Vec::new();
    assert_eq!(map_mutate_reduce(&mut data, |x| x + 1, 4), 0);
    assert!(data.is_empty());
}

#[test]
fn atomic_strategy_never_loses_updates() {
    let data: Vec<u32> = (0..10_000).collect();
    let oracle = sequential_fold_sum(&data, example_map_fn);
    assert_eq!(oracle, 99_990_000);
    for _ in 0..100 {
        assert_eq!(map_reduce(data.clone(), example_map_fn, 4, Strategy::WorkStealingAtomic), Ok(oracle));
        assert_eq!(map_sum2::<4>(data.clone(), example_map_fn), oracle);
    }
}

#[test]
fn example_map_fn_doubles() {
    assert_eq!(example_map_fn(0), 0);
    assert_eq!(example_map_fn(21), 42);
    assert_eq!(example_map_fn(u32::MAX / 2), (u32::MAX - 1) as u64);
}
