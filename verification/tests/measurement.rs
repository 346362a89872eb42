//! End-to-end measurements: the scripted validation run with hand-computed
//! expectations, the adaptive-precision scenario, and the warm-up detector.

use mm1_sim::confidence_interval::ConfidenceInterval;
use mm1_sim::driver::{
    analytic_mean_nq, analytic_mean_w, analytic_variance_nq, analytic_variance_w, simulator,
    SimulationStatus,
};
use mm1_sim::queue::{Queue, QueueMode, QueuePolicy};

#[test]
fn scripted_measurement_matches_hand_computed_metrics() {
    // The 9-unit cycle admits 4 customers (waits 0,1,2,3 units under
    // first-come-first-served, service 2): with rounds of 100 customers the
    // rounds align with cycles, so the mean wait is exactly 1.5 units and
    // the mean service time exactly 2.
    let r = simulator(
        1,
        2,
        100,
        10,
        QueuePolicy::FCFS,
        QueueMode::CheckCorrectness,
        0,
        None,
        5,
    );
    assert_eq!(r.escalations, 0);
    assert_eq!(r.mean_w, 1_500_000);
    assert_eq!(r.mean_x, 2_000_000);
    assert_eq!(r.mean_t, 3_500_000);
    // Per-round waiting variance: 100 samples of {0,1,2,3} units evenly:
    // (100*350 - 150^2) / (100*99) units^2 = 12500/9900, scaled by 10^12.
    assert_eq!(r.var_w, 1_262_626_262_626);
}

#[test]
fn scripted_measurement_lcfs_reverses_waits() {
    // Under last-come-first-served the cycle's waits are 0,0,1,5 units:
    // same mean (1.5), larger variance (42500/9900 units^2).
    let r = simulator(
        1,
        2,
        100,
        10,
        QueuePolicy::LCFS,
        QueueMode::CheckCorrectness,
        0,
        None,
        5,
    );
    assert_eq!(r.mean_w, 1_500_000);
    assert_eq!(r.var_w, 4_292_929_292_929);
}

#[test]
fn adaptive_measurement_covers_analytic_mean() {
    // Utilization 1/2, first-come-first-served, rounds of 1000, 30 rounds:
    // after escalation the waiting-time mean's interval reaches 5% relative
    // precision, the two variance interval types converge, and the analytic
    // mean wait lambda/(1-lambda) = 1 unit lies inside the realized
    // interval.
    let r = simulator(
        1,
        2,
        1000,
        30,
        QueuePolicy::FCFS,
        QueueMode::ForReal,
        20_250_401,
        None,
        15,
    );
    assert_eq!(r.status, SimulationStatus::PrecisionNotReached);
    assert!(r.mean_w_ci.precision_at_most(1, 20));
    assert!(ConfidenceInterval::check_convergence(r.var_w_c2_ci, r.var_w_ts_ci));
    let exact_mean_w = analytic_mean_w(1, 2);
    assert_eq!(exact_mean_w, 1_000_000);
    assert!(r.mean_w_ci.value_is_inside(exact_mean_w as i128));
    // The exact variance under this discipline: (2r - r^2)/(1-r)^2 = 3.
    assert_eq!(analytic_variance_w(1, 2, QueuePolicy::FCFS), 3_000_000_000_000);
    // The mean queue length r^2/(1-r) = 0.5.
    assert_eq!(analytic_mean_nq(1, 2), 500_000);
    // The queue-length variance (r^2 + r^3 - r^4)/(1-r)^2 = 1.25.
    assert_eq!(analytic_variance_nq(1, 2), 1_250_000_000_000);
}

#[test]
fn measurement_with_enough_rounds_reaches_full_precision() {
    // With 200 rounds the whole stopping condition — every interval within
    // 5% and both interval methods agreeing for both variance metrics —
    // is reached.
    let r = simulator(
        1,
        2,
        1000,
        200,
        QueuePolicy::FCFS,
        QueueMode::ForReal,
        7,
        None,
        10,
    );
    assert_eq!(r.status, SimulationStatus::PrecisionReached);
    assert!(r.mean_w_ci.value_is_inside(analytic_mean_w(1, 2) as i128));
}

#[test]
fn fixed_transient_length_is_honoured() {
    let r = simulator(
        1,
        2,
        50,
        5,
        QueuePolicy::FCFS,
        QueueMode::ForReal,
        3,
        Some(777),
        0,
    );
    assert_eq!(r.transient_phase_size, 777);
}

#[test]
fn warm_up_is_longer_at_low_load() {
    // The stationarity detector needs longer to see a stable utilization
    // at lambda = 0.001 than at lambda = 0.5 (a seeded scenario).
    let mut slow = Queue::new(1, 1000, QueuePolicy::FCFS, 31);
    let slow_len = slow.transient_phase();
    let mut fast = Queue::new(1, 2, QueuePolicy::FCFS, 1031);
    let fast_len = fast.transient_phase();
    assert!(
        slow_len > fast_len,
        "expected warm-up at lambda 0.001 ({slow_len}) to exceed lambda 0.5 ({fast_len})"
    );
}

#[test]
fn analytic_formulas_for_other_utilizations() {
    // lambda = 9/10: E[W] = 9 units; V(W) differs by discipline.
    assert_eq!(analytic_mean_w(9, 10), 9_000_000);
    // FCFS: (2*0.9 - 0.81)/(0.01) = 99.
    assert_eq!(analytic_variance_w(9, 10, QueuePolicy::FCFS), 99_000_000_000_000);
    // LCFS: (2*0.9 - 0.81 + 0.729)/(0.001) = 1719.
    assert_eq!(
        analytic_variance_w(9, 10, QueuePolicy::LCFS),
        1_719_000_000_000_000
    );
    // E[Nq] = 0.81/0.1 = 8.1.
    assert_eq!(analytic_mean_nq(9, 10), 8_100_000);
}
