//! Tests of the fixed-point aggregation functions.

use marketlog::stats::{
    calculate_95_ci_lower, calculate_95_ci_upper, calculate_mean, calculate_std_dev, ci_margin,
    isqrt, seq_max, seq_min,
};

#[test]
fn mean_is_floored() {
    assert_eq!(calculate_mean(&vec![]), 0);
    assert_eq!(calculate_mean(&vec![7]), 7);
    assert_eq!(calculate_mean(&vec![1, 2, 4]), 2);
    assert_eq!(calculate_mean(&vec![100, 200]), 150);
}

#[test]
fn std_dev_is_bessel_corrected() {
    assert_eq!(calculate_std_dev(&vec![], 0), 0);
    assert_eq!(calculate_std_dev(&vec![5], 5), 0);
    // Deviations 50 and 50: variance 5000, stddev floor(sqrt(5000)) = 70.
    assert_eq!(calculate_std_dev(&vec![100, 200], 150), 70);
    // Same prices: stddev 0.
    assert_eq!(calculate_std_dev(&vec![300, 300, 300], 300), 0);
}

#[test]
fn integer_square_root_is_floored() {
    assert_eq!(isqrt(0), 0);
    assert_eq!(isqrt(1), 1);
    assert_eq!(isqrt(2), 1);
    assert_eq!(isqrt(4), 2);
    assert_eq!(isqrt(5000), 70);
    assert_eq!(isqrt(99), 9);
    assert_eq!(isqrt(100), 10);
    assert_eq!(isqrt(10000000000000000000000000000000), 3162277660168379);
}

#[test]
fn ci_bound_of_empty_list_is_absent() {
    assert_eq!(calculate_95_ci_lower(&vec![]), None);
    assert_eq!(calculate_95_ci_upper(&vec![]), None);
}

#[test]
fn ci_bound_of_single_price_is_that_price() {
    assert_eq!(calculate_95_ci_lower(&vec![42]), Some(42));
    assert_eq!(calculate_95_ci_upper(&vec![42]), Some(42));
}

#[test]
fn ci_bounds_of_two_prices() {
    // Mean 150, stddev 70, margin floor(1.96 * 70 / sqrt(2)) = 97.
    assert_eq!(ci_margin(&vec![100, 200]), 97);
    assert_eq!(calculate_95_ci_lower(&vec![100, 200]), Some(53));
    assert_eq!(calculate_95_ci_upper(&vec![100, 200]), Some(247));
}

#[test]
fn ci_lower_can_fall_below_zero() {
    // Mean 500, deviations 500: variance 500000, stddev 707,
    // margin floor(1.96 * 707 / sqrt(2)) = 979 > mean.
    assert_eq!(calculate_95_ci_lower(&vec![0, 1000]), Some(500 - 979));
}

#[test]
fn extremes_of_a_list() {
    assert_eq!(seq_min(&vec![5]), 5);
    assert_eq!(seq_max(&vec![5]), 5);
    assert_eq!(seq_min(&vec![3, 1, 2]), 1);
    assert_eq!(seq_max(&vec![3, 1, 2]), 3);
    // Duplicates of the extreme are fine.
    assert_eq!(seq_min(&vec![2, 2, 9]), 2);
}
