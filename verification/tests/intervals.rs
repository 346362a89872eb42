//! The confidence-interval type: convergence, precision, containment, and
//! the exact interval constructions.

use mm1_sim::confidence_interval::ConfidenceInterval;
use mm1_sim::sample::Sample;

#[test]
fn convergence_is_symmetric() {
    let a = ConfidenceInterval::new(1, 3);
    let b = ConfidenceInterval::new(2, 4);
    assert_eq!(
        ConfidenceInterval::check_convergence(a, b),
        ConfidenceInterval::check_convergence(b, a)
    );
    let c = ConfidenceInterval::new(10, 11);
    assert_eq!(
        ConfidenceInterval::check_convergence(a, c),
        ConfidenceInterval::check_convergence(c, a)
    );
}

#[test]
fn convergence_with_itself_holds_for_nondegenerate() {
    let a = ConfidenceInterval::new(5, 9);
    assert!(ConfidenceInterval::check_convergence(a, a));
    // A degenerate interval has no strict interior.
    let d = ConfidenceInterval::new(5, 5);
    assert!(!ConfidenceInterval::check_convergence(d, d));
}

#[test]
fn convergence_requires_mutual_containment_of_centers() {
    // Centers 2 and 20: far apart, no convergence.
    let a = ConfidenceInterval::new(1, 3);
    let b = ConfidenceInterval::new(15, 25);
    assert!(!ConfidenceInterval::check_convergence(a, b));
    // Overlapping with each center strictly inside the other.
    let c = ConfidenceInterval::new(1, 11);
    let d = ConfidenceInterval::new(4, 9);
    assert!(ConfidenceInterval::check_convergence(c, d));
}

#[test]
fn precision_threshold_is_exact() {
    // (105 - 95) / (105 + 95) = 10/200 = 1/20: exactly 5%.
    let a = ConfidenceInterval::new(95, 105);
    assert!(a.precision_at_most(1, 20));
    let p = a.precision();
    assert_eq!(p.num, 10);
    assert_eq!(p.den, 200);
    // (106 - 94) / (106 + 94) = 12/200 > 1/20.
    let b = ConfidenceInterval::new(94, 106);
    assert!(!b.precision_at_most(1, 20));
}

#[test]
fn center_is_the_exact_fraction() {
    let a = ConfidenceInterval::new(3, 8);
    assert_eq!(a.center(), (11, 2));
    assert_eq!(a.lower_bound(), 3);
    assert_eq!(a.upper_bound(), 8);
}

#[test]
fn value_is_inside_with_boundary_slack() {
    let a = ConfidenceInterval::new(100, 200);
    assert!(a.value_is_inside(150));
    assert!(a.value_is_inside(100));
    assert!(a.value_is_inside(200));
    // 99 is within 1% of the lower bound: 100 * 99 >= 99 * 100.
    assert!(a.value_is_inside(99));
    // 98 is not: 100 * 98 < 99 * 100.
    assert!(!a.value_is_inside(98));
    assert!(a.value_is_inside(202));
    assert!(!a.value_is_inside(300));
}

#[test]
fn student_t_interval_exact_small_case() {
    // Values [100, 200]: floor mean 150, variance 5000 = 10000/2.
    // With one degree of freedom, t^2 = 161.4475184 scaled by 10^8:
    // q = 16144751840 * 10000 / (10^8 * 2 * 2) = 403618, isqrt = 635.
    let mut s = Sample::new(2);
    s.append(100);
    s.append(200);
    let ci = s.t_student_95percent(1).expect("fits");
    assert_eq!(ci.lower_bound(), 150 - 635);
    assert_eq!(ci.upper_bound(), 150 + 635);
}

#[test]
fn chi_square_interval_exact_small_case() {
    // 30 observations, variance estimate 1000, 29 degrees of freedom:
    // stat = 29 * 1000 * 10^4; bounds are stat / 457223 = 634 and
    // stat / 160471 = 1807.
    let mut s = Sample::new(30);
    for _ in 0..30 {
        s.append(5);
    }
    let ci = s.chi_square_95percent(1000, 29).expect("two observations");
    assert_eq!(ci.lower_bound(), 634);
    assert_eq!(ci.upper_bound(), 1807);
}

#[test]
fn intervals_need_two_observations() {
    let mut s = Sample::new(1);
    s.append(3);
    assert!(s.t_student_95percent(1).is_none());
    assert!(s.chi_square_95percent(10, 1).is_none());
}
