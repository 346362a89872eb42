//! Exact behaviour of the scalar and time-weighted accumulators.

use mm1_sim::ratio::Ratio;
use mm1_sim::sample::Sample;
use mm1_sim::stochastic_process_sample::StochasticProcessSample;

#[test]
fn scalar_mean_and_variance_of_one_two_three() {
    // Fed [1, 2, 3]: mean = 2, unbiased variance = 1.
    let mut s = Sample::new(3);
    s.append(1);
    s.append(2);
    s.append(3);
    let mean = s.mean();
    assert_eq!(mean.num, 6);
    assert_eq!(mean.den, 3);
    assert_eq!(mean.floor_u64(), Some(2));
    let var = s.variance().expect("variance fits");
    // (3 * 14 - 36) / (3 * 2) = 6 / 6 = 1.
    assert_eq!(var.num, 6);
    assert_eq!(var.den, 6);
    assert_eq!(var.floor_u64(), Some(1));
}

#[test]
fn scalar_empty_reports_zero() {
    let s = Sample::new(0);
    let mean = s.mean();
    assert_eq!(mean.num, 0);
    assert_eq!(mean.den, 1);
    let var = s.variance().expect("degenerate variance is zero");
    assert_eq!(var.num, 0);
}

#[test]
fn scalar_single_value_variance_is_zero() {
    let mut s = Sample::new(1);
    s.append(42);
    let var = s.variance().expect("degenerate variance is zero");
    assert_eq!(var.num, 0);
    assert_eq!(var.den, 1);
}

#[test]
fn scalar_mean_of_identical_values() {
    let mut s = Sample::new(4);
    for _ in 0..4 {
        s.append(7);
    }
    assert_eq!(s.mean().floor_u64(), Some(7));
    let var = s.variance().expect("variance fits");
    assert_eq!(var.num, 0);
}

#[test]
fn time_weighted_mean_of_step_levels() {
    // Levels [(0,0), (1,1), (2,2), (3,0)]: mean = (0 + 1 + 2) / 3 = 1.
    let mut p = StochasticProcessSample::new(4);
    p.append(0, 0);
    p.append(1, 1);
    p.append(2, 2);
    p.append(3, 0);
    let mean = p.mean().expect("area fits");
    assert_eq!(mean.num, 3);
    assert_eq!(mean.den, 3);
    assert_eq!(mean.floor_u64(), Some(1));
}

#[test]
fn time_weighted_variance_of_step_levels() {
    // Second moment (0 + 1 + 4) / 3 = 5/3, mean 1, variance 2/3:
    // numerator 3*5 - 3^2 = 6, denominator 3^2 = 9.
    let mut p = StochasticProcessSample::new(4);
    p.append(0, 0);
    p.append(1, 1);
    p.append(2, 2);
    p.append(3, 0);
    let var = p.variance().expect("fits");
    assert_eq!(var.num, 6);
    assert_eq!(var.den, 9);
}

#[test]
fn time_weighted_fewer_than_two_points_is_zero() {
    let mut p = StochasticProcessSample::new(1);
    p.append(5, 3);
    let mean = p.mean().expect("degenerate mean is zero");
    assert_eq!(mean.num, 0);
    let var = p.variance().expect("degenerate variance is zero");
    assert_eq!(var.num, 0);
}

#[test]
fn time_weighted_zero_elapsed_is_zero() {
    let mut p = StochasticProcessSample::new(2);
    p.append(4, 1);
    p.append(4, 2);
    let mean = p.mean().expect("degenerate mean is zero");
    assert_eq!(mean.num, 0);
    let var = p.variance().expect("degenerate variance is zero");
    assert_eq!(var.num, 0);
}

#[test]
fn scalar_variance_overflow_is_reported() {
    // Three maximal observations: the sum of squares cannot be held in a
    // u128, so the variance reports the overflow instead of a wrong value.
    let mut s = Sample::new(3);
    s.append(u64::MAX);
    s.append(u64::MAX);
    s.append(u64::MAX);
    assert!(s.variance().is_none());
    // The mean is still exact.
    assert_eq!(s.mean().floor_u64(), Some(u64::MAX));
}

#[test]
fn time_weighted_variance_overflow_is_reported() {
    // One maximal level held for a maximal duration: the weighted square
    // leaves the 128-bit range.
    let mut p = StochasticProcessSample::new(2);
    p.append(0, u64::MAX);
    p.append(u64::MAX, 0);
    assert!(p.mean().is_some());
    assert!(p.variance().is_none());
}

#[test]
fn ratio_floor_behaviour() {
    let r = Ratio::new(7, 2);
    assert_eq!(r.floor(), 3);
    assert_eq!(r.floor_u64(), Some(3));
    let big = Ratio::new(u128::MAX, 1);
    assert_eq!(big.floor_u64(), None);
}
