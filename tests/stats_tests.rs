use bls_bench::stats::{calculate_stats, speedup, StatsError, TrialStats};

#[test]
fn stats_of_one_to_four() {
    let st = calculate_stats(&vec![1, 2, 3, 4]).unwrap();
    assert_eq!(st.count, 4);
    assert_eq!(st.sum, 10);
    assert_eq!(st.sum as f64 / st.count as f64, 2.5);
    assert_eq!((st.median_num, st.median_den), (5, 2));
    assert_eq!(st.scaled_sq_dev, 80);
    let variance = st.scaled_sq_dev as f64 / (st.count as f64).powi(3);
    assert_eq!(variance, 1.25);
    assert!((variance.sqrt() - 1.118).abs() < 1e-3);
}

#[test]
fn stats_of_single_sample() {
    let st = calculate_stats(&vec![5]).unwrap();
    assert_eq!(
        st,
        TrialStats { count: 1, sum: 5, median_num: 5, median_den: 1, scaled_sq_dev: 0 }
    );
}

#[test]
fn stats_of_empty_input_fail() {
    assert_eq!(calculate_stats(&vec![]), Err(StatsError::Empty));
}

#[test]
fn median_uses_sorted_order() {
    let st = calculate_stats(&vec![4, 1, 3]).unwrap();
    assert_eq!((st.median_num, st.median_den), (3, 1));
    let st = calculate_stats(&vec![10, 2, 8, 4]).unwrap();
    assert_eq!((st.median_num, st.median_den), (12, 2));
}

#[test]
fn equal_samples_have_no_spread() {
    let st = calculate_stats(&vec![7, 7, 7]).unwrap();
    assert_eq!(st.scaled_sq_dev, 0);
    assert_eq!((st.median_num, st.median_den), (7, 1));
}

#[test]
fn largest_samples_overflow_the_spread() {
    assert_eq!(calculate_stats(&vec![0, u64::MAX]), Err(StatsError::Overflow));
    let st = calculate_stats(&vec![u64::MAX, u64::MAX]).unwrap();
    assert_eq!(st.sum, 2 * (u64::MAX as u128));
    assert_eq!(st.scaled_sq_dev, 0);
}

#[test]
fn speedup_is_ratio_of_means() {
    let individual = calculate_stats(&vec![1, 2, 3, 4]).unwrap();
    let batch = calculate_stats(&vec![10, 10, 10]).unwrap();
    let (num, den) = speedup(&individual, &batch).unwrap();
    assert_eq!((num, den), (120, 30));
    assert_eq!(num as f64 / den as f64, 10.0 / 2.5);
}
