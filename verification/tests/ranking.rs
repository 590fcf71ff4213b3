use cube_skyline::ranking::rank;

#[test]
fn heaviest_comes_first() {
    assert_eq!(rank(&vec![5, 30, 15]), vec![1, 2, 0]);
}

#[test]
fn equal_weights_keep_input_order() {
    assert_eq!(rank(&vec![7, 9, 7, 9, 7]), vec![1, 3, 0, 2, 4]);
    assert_eq!(rank(&vec![4, 4, 4]), vec![0, 1, 2]);
}

#[test]
fn empty_and_single_input() {
    assert_eq!(rank(&Vec::new()), Vec::<usize>::new());
    assert_eq!(rank(&vec![0]), vec![0]);
}

#[test]
fn ascending_input_is_reversed() {
    assert_eq!(rank(&vec![1, 2, 3, 4]), vec![3, 2, 1, 0]);
}

#[test]
fn extreme_weights() {
    assert_eq!(rank(&vec![0, u64::MAX, 1]), vec![1, 2, 0]);
}

#[test]
fn ranking_is_a_permutation_sorted_by_weight_then_position() {
    let weights: Vec<u64> = (0..40u64).map(|i| (i * 7919) % 13).collect();
    let order = rank(&weights);
    let mut seen = order.clone();
    seen.sort();
    assert_eq!(seen, (0..40).collect::<Vec<usize>>());
    for pair in order.windows(2) {
        let (a, b) = (pair[0], pair[1]);
        assert!(weights[a] > weights[b] || (weights[a] == weights[b] && a < b));
    }
}

#[test]
fn ranking_agrees_with_a_stable_sort() {
    let weights: Vec<u64> = (0..60u64).map(|i| (i * 31 + 7) % 11).collect();
    let mut expected: Vec<usize> = (0..weights.len()).collect();
    expected.sort_by(|a, b| weights[*b].cmp(&weights[*a]));
    assert_eq!(rank(&weights), expected);
}

#[test]
fn repeated_runs_rank_alike() {
    let weights = vec![3, 1, 3, 2, 2, 3, 0];
    let first = rank(&weights);
    for _ in 0..5 {
        assert_eq!(rank(&weights), first);
    }
}
