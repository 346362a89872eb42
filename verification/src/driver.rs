//! The measurement driver: builds a queue engine, discards the warm-up
//! phase, runs batches of rounds, folds each round's statistics into
//! across-round accumulators (the method of batch means), builds the
//! confidence intervals, and decides whether the target precision and
//! cross-method agreement were reached — escalating the round size and
//! restarting when they were not, up to a configured cap.
//!
//! Scales: a duration statistic is reported in ticks (`TICKS_PER_UNIT`
//! ticks per time unit) and a level statistic (occupancy, queue length) in
//! `TICKS_PER_UNIT`-ths, so every reported mean is the exact value times
//! `10^6`, rounded down, and every reported variance the exact value times
//! `10^12`, rounded down.

use crate::confidence_interval::ConfidenceInterval;
use crate::queue::{lemma_step_preserves, Queue, QueueMode, QueuePolicy, TRANSIENT_EVENT_BUDGET};
use crate::ratio::Ratio;
use crate::sample::{spec_chi_lower_num, spec_chi_upper_num, Sample};
use vstd::prelude::*;

verus! {

/// Scale of reported means: millionths.
pub const MEAN_SCALE: u64 = 1_000_000;

/// Scale of reported variances: millionths squared.
pub const VAR_SCALE: u64 = 1_000_000_000_000;

/// How many customers each escalation adds to the round size.
pub const ESCALATION_INCREMENT: usize = 100;

/// Largest utilization denominator the driver accepts; keeps the analytic
/// formulas exact in 128 bits.
pub const MAX_DRIVER_LAMBDA_DEN: u64 = 10_000;

/// How a measurement ended.
#[derive(Debug, Clone, Copy, PartialEq, Eq, Structural)]
pub enum SimulationStatus {
    /// Every interval reached 5% relative precision and the two interval
    /// methods agree: the report is final.
    PrecisionReached,
    /// The escalation cap was hit (or the scripted mode ran its single
    /// attempt) before the stopping condition held.
    PrecisionNotReached,
    /// A statistic left the 128-bit range; no practical run does.
    NumericOverflow,
}

/// Everything one measurement reports.
#[derive(Debug, Clone, Copy)]
pub struct SimulatorReport {
    /// Mean of the per-round occupancy means, scaled by `MEAN_SCALE`.
    pub mean_n: u64,
    /// Mean of the per-round sojourn-time means, in ticks.
    pub mean_t: u64,
    /// Mean of the per-round service-time means, in ticks.
    pub mean_x: u64,
    /// Variance of the per-round occupancy variances, scaled by
    /// `VAR_SCALE` squared.
    pub var_n: u128,
    /// Variance of the per-round sojourn-time variances, in ticks to the
    /// fourth.
    pub var_t: u128,
    /// Variance of the per-round service-time variances, in ticks to the
    /// fourth.
    pub var_x: u128,
    /// Mean of the per-round waiting-time means, in ticks.
    pub mean_w: u64,
    /// Its Student-t interval.
    pub mean_w_ci: ConfidenceInterval,
    /// Mean of the per-round waiting-time variances, in ticks squared.
    pub var_w: u64,
    /// Its Student-t interval.
    pub var_w_ts_ci: ConfidenceInterval,
    /// Its chi-square interval.
    pub var_w_c2_ci: ConfidenceInterval,
    /// Mean of the per-round queue-length means, scaled by `MEAN_SCALE`.
    pub mean_nq: u64,
    /// Its Student-t interval.
    pub mean_nq_ci: ConfidenceInterval,
    /// Mean of the per-round queue-length variances, scaled by `VAR_SCALE`.
    pub var_nq: u64,
    /// Its Student-t interval.
    pub var_nq_ts_ci: ConfidenceInterval,
    /// Its chi-square interval.
    pub var_nq_c2_ci: ConfidenceInterval,
    /// Events the warm-up detector consumed.
    pub transient_phase_size: usize,
    /// The round size of the reported attempt.
    pub round_size: usize,
    /// How many escalations were taken.
    pub escalations: usize,
    /// How the measurement ended.
    pub status: SimulationStatus,
}

/// The stopping condition of the accumulate-and-check state machine: both
/// mean intervals and both Student-t variance intervals have at most 5%
/// relative precision, and for both variance metrics the Student-t and
/// chi-square intervals mutually converge.
pub open spec fn spec_stop_condition(r: SimulatorReport) -> bool {
    &&& r.mean_w_ci.spec_precision_at_most(1, 20)
    &&& r.var_w_ts_ci.spec_precision_at_most(1, 20)
    &&& r.mean_nq_ci.spec_precision_at_most(1, 20)
    &&& r.var_nq_ts_ci.spec_precision_at_most(1, 20)
    &&& ConfidenceInterval::spec_convergence(r.var_w_c2_ci, r.var_w_ts_ci)
    &&& ConfidenceInterval::spec_convergence(r.var_nq_c2_ci, r.var_nq_ts_ci)
}

/// Consistency of a finished report: each Student-t interval is centered on
/// the statistic it brackets, and each chi-square interval is the exact
/// table formula applied to the reported variance with `round_size - 1`
/// degrees of freedom.
pub open spec fn spec_report_consistent(r: SimulatorReport) -> bool {
    &&& r.mean_w_ci.lower + r.mean_w_ci.upper == 2 * r.mean_w
    &&& r.mean_nq_ci.lower + r.mean_nq_ci.upper == 2 * r.mean_nq
    &&& r.var_w_ts_ci.lower + r.var_w_ts_ci.upper == 2 * r.var_w
    &&& r.var_nq_ts_ci.lower + r.var_nq_ts_ci.upper == 2 * r.var_nq
    &&& r.var_w_c2_ci.lower == Sample::spec_chi_stat(r.var_w, r.round_size - 1)
        / spec_chi_upper_num(r.round_size - 1)
    &&& r.var_w_c2_ci.upper == Sample::spec_chi_stat(r.var_w, r.round_size - 1)
        / spec_chi_lower_num(r.round_size - 1)
    &&& r.var_nq_c2_ci.lower == Sample::spec_chi_stat(r.var_nq, r.round_size - 1)
        / spec_chi_upper_num(r.round_size - 1)
    &&& r.var_nq_c2_ci.upper == Sample::spec_chi_stat(r.var_nq, r.round_size - 1)
        / spec_chi_lower_num(r.round_size - 1)
}

/// `value * scale / den`, rounded down; `None` exactly when the product
/// leaves the 128-bit range.
fn scale_ratio(r: &Ratio, scale: u64) -> (v: Option<u128>)
    requires
        r.wf(),
    ensures
        match v {
            Some(x) => x == (r.num * scale) / (r.den as int),
            None => r.num * scale > u128::MAX,
        },
{
    match r.num.checked_mul(scale as u128) {
        Some(p) => Some(p / r.den),
        None => None,
    }
}

/// Like `scale_ratio`, narrowed to a `u64`; `None` when the scaled value
/// does not fit.
fn scale_ratio_u64(r: &Ratio, scale: u64) -> (v: Option<u64>)
    requires
        r.wf(),
    ensures
        match v {
            Some(x) => x == (r.num * scale) / (r.den as int) && (r.num * scale) / (r.den as int) <= u64::MAX,
            None => r.num * scale > u128::MAX || (r.num * scale) / (r.den as int) > u64::MAX,
        },
{
    match scale_ratio(r, scale) {
        Some(x) => {
            if x <= u64::MAX as u128 {
                Some(x as u64)
            } else {
                None
            }
        },
        None => None,
    }
}

/// The across-round accumulators: one mean series and one variance series
/// per metric, each holding one value per completed round.
struct AcrossRounds {
    n_means: Sample,
    t_means: Sample,
    x_means: Sample,
    n_vars: Sample,
    t_vars: Sample,
    x_vars: Sample,
    w_means: Sample,
    w_vars: Sample,
    nq_means: Sample,
    nq_vars: Sample,
}

impl AcrossRounds {
    fn new(rounds_count: usize) -> AcrossRounds {
        AcrossRounds {
            n_means: Sample::new(rounds_count),
            t_means: Sample::new(rounds_count),
            x_means: Sample::new(rounds_count),
            n_vars: Sample::new(rounds_count),
            t_vars: Sample::new(rounds_count),
            x_vars: Sample::new(rounds_count),
            w_means: Sample::new(rounds_count),
            w_vars: Sample::new(rounds_count),
            nq_means: Sample::new(rounds_count),
            nq_vars: Sample::new(rounds_count),
        }
    }
}

/// A degenerate report used when a statistic leaves the machine range.
fn overflow_report(transient: usize, round_size: usize, escalations: usize) -> (r: SimulatorReport)
    ensures
        r.status == SimulationStatus::NumericOverflow,
        r.round_size == round_size,
        r.escalations == escalations,
        r.transient_phase_size == transient,
{
    let zero_ci = ConfidenceInterval::new(0, 0);
    SimulatorReport {
        mean_n: 0,
        mean_t: 0,
        mean_x: 0,
        var_n: 0,
        var_t: 0,
        var_x: 0,
        mean_w: 0,
        mean_w_ci: zero_ci,
        var_w: 0,
        var_w_ts_ci: zero_ci,
        var_w_c2_ci: zero_ci,
        mean_nq: 0,
        mean_nq_ci: zero_ci,
        var_nq: 0,
        var_nq_ts_ci: zero_ci,
        var_nq_c2_ci: zero_ci,
        transient_phase_size: transient,
        round_size,
        escalations,
        status: SimulationStatus::NumericOverflow,
    }
}

/// Runs the measurement: builds the engine (per the mode), discards the
/// warm-up (detected, or of the supplied fixed length), runs `rounds_count`
/// rounds of `round_size` tagged departures each, folds the per-round
/// statistics into across-round accumulators, builds the intervals, and
/// either stops or escalates the round size by `ESCALATION_INCREMENT` and
/// restarts from the same seed, up to `max_escalations` times.
///
/// `PrecisionReached` guarantees the stopping condition of the reported
/// intervals; `PrecisionNotReached` reports the last attempt, with the cap
/// spent (the scripted mode never escalates: its single attempt is final).
pub fn simulator(
    lambda_num: u64,
    lambda_den: u64,
    round_size: usize,
    rounds_count: usize,
    queue_policy: QueuePolicy,
    queue_mode: QueueMode,
    seed: u64,
    fixed_transient: Option<usize>,
    max_escalations: usize,
) -> (r: SimulatorReport)
    requires
        1 <= lambda_num < lambda_den <= MAX_DRIVER_LAMBDA_DEN,
        2 <= rounds_count,
        rounds_count <= 0x1_0000_0000,
        max_escalations <= 0x1_0000,
        2 <= round_size <= 0x4000_0000,
    ensures
        r.status == SimulationStatus::PrecisionReached ==> spec_stop_condition(r),
        r.status == SimulationStatus::PrecisionNotReached ==> !spec_stop_condition(r) && (
        r.escalations == max_escalations || queue_mode == QueueMode::CheckCorrectness),
        r.escalations <= max_escalations,
        r.round_size == round_size + ESCALATION_INCREMENT * r.escalations,
        r.status != SimulationStatus::NumericOverflow ==> spec_report_consistent(r),
        queue_mode == QueueMode::CheckCorrectness ==> r.transient_phase_size == 0,
        queue_mode == QueueMode::ForReal ==> (fixed_transient matches Some(n)
            ==> r.transient_phase_size == n),
        queue_mode == QueueMode::ForReal && fixed_transient is None ==> r.transient_phase_size
            <= TRANSIENT_EVENT_BUDGET,
{
    let mut escalations: usize = 0;
    let mut current_round_size = round_size;
    let mut attempt = run_attempt(
        lambda_num,
        lambda_den,
        current_round_size,
        rounds_count,
        queue_policy,
        queue_mode,
        seed,
        fixed_transient,
        escalations,
    );
    let mut done = attempt.status == SimulationStatus::PrecisionReached || attempt.status
        == SimulationStatus::NumericOverflow || escalations == max_escalations || queue_mode
        == QueueMode::CheckCorrectness;
    while !done
        invariant
            escalations <= max_escalations,
            current_round_size == round_size + ESCALATION_INCREMENT * escalations,
            round_size <= 0x4000_0000,
            max_escalations <= 0x1_0000,
            rounds_count <= 0x1_0000_0000,
            2 <= rounds_count,
            1 <= lambda_num < lambda_den <= MAX_DRIVER_LAMBDA_DEN,
            attempt.escalations == escalations,
            attempt.round_size == current_round_size,
            attempt.status == SimulationStatus::PrecisionReached ==> spec_stop_condition(attempt),
            attempt.status == SimulationStatus::PrecisionNotReached ==> !spec_stop_condition(
                attempt,
            ),
            attempt.status != SimulationStatus::NumericOverflow ==> spec_report_consistent(
                attempt,
            ),
            queue_mode == QueueMode::CheckCorrectness ==> attempt.transient_phase_size == 0,
            queue_mode == QueueMode::ForReal ==> (fixed_transient matches Some(n)
                ==> attempt.transient_phase_size == n),
            queue_mode == QueueMode::ForReal && fixed_transient is None
                ==> attempt.transient_phase_size <= TRANSIENT_EVENT_BUDGET,
            done == (attempt.status == SimulationStatus::PrecisionReached || attempt.status
                == SimulationStatus::NumericOverflow || escalations == max_escalations
                || queue_mode == QueueMode::CheckCorrectness),
        decreases max_escalations - escalations,
    {
        escalations = escalations + 1;
        proof {
            assert(round_size + ESCALATION_INCREMENT * escalations <= 0x1000_0000_0000_0000
                + ESCALATION_INCREMENT * 0x1_0000 && ESCALATION_INCREMENT * escalations
                == ESCALATION_INCREMENT * (escalations - 1) + ESCALATION_INCREMENT)
                by (nonlinear_arith)
                requires
                    round_size <= 0x4000_0000,
                    1 <= escalations <= 0x1_0000,
            ;
            assert(current_round_size == round_size + ESCALATION_INCREMENT * (escalations - 1));
            assert(current_round_size + ESCALATION_INCREMENT == round_size + ESCALATION_INCREMENT
                * escalations);
        }
        current_round_size = current_round_size + ESCALATION_INCREMENT;
        attempt = run_attempt(
            lambda_num,
            lambda_den,
            current_round_size,
            rounds_count,
            queue_policy,
            queue_mode,
            seed,
            fixed_transient,
            escalations,
        );
        done = attempt.status == SimulationStatus::PrecisionReached || attempt.status
            == SimulationStatus::NumericOverflow || escalations == max_escalations || queue_mode
            == QueueMode::CheckCorrectness;
    }
    attempt
}

/// One accumulate-and-check pass at a fixed round size.
fn run_attempt(
    lambda_num: u64,
    lambda_den: u64,
    round_size: usize,
    rounds_count: usize,
    queue_policy: QueuePolicy,
    queue_mode: QueueMode,
    seed: u64,
    fixed_transient: Option<usize>,
    escalations: usize,
) -> (r: SimulatorReport)
    requires
        1 <= lambda_num < lambda_den <= MAX_DRIVER_LAMBDA_DEN,
        2 <= rounds_count,
        rounds_count <= 0x1_0000_0000,
        2 <= round_size,
    ensures
        r.status == SimulationStatus::PrecisionReached ==> spec_stop_condition(r),
        r.status == SimulationStatus::PrecisionNotReached ==> !spec_stop_condition(r),
        r.escalations == escalations,
        r.round_size == round_size,
        r.status != SimulationStatus::NumericOverflow ==> spec_report_consistent(r),
        queue_mode == QueueMode::CheckCorrectness ==> r.transient_phase_size == 0,
        queue_mode == QueueMode::ForReal ==> (fixed_transient matches Some(n)
            ==> r.transient_phase_size == n),
        queue_mode == QueueMode::ForReal && fixed_transient is None ==> r.transient_phase_size
            <= TRANSIENT_EVENT_BUDGET,
{
    let mut queue = if matches!(queue_mode, QueueMode::ForReal) {
        Queue::new(lambda_num, lambda_den, queue_policy, seed)
    } else {
        Queue::check_correctness(queue_policy)
    };
    let transient = if matches!(queue_mode, QueueMode::ForReal) {
        match fixed_transient {
            Some(n) => {
                let mut consumed: usize = 0;
                while consumed < n
                    invariant
                        queue.wf(),
                        consumed <= n,
                        queue@.color == 0,
                    decreases n - consumed,
                {
                    let ghost before = queue@;
                    let d = queue.process_next_event();
                    proof {
                        lemma_step_preserves(before, d@.0, d@.1);
                    }
                    consumed = consumed + 1;
                }
                n
            },
            None => queue.transient_phase(),
        }
    } else {
        0
    };
    let mut acc = AcrossRounds::new(rounds_count);
    let mut round: usize = 0;
    while round < rounds_count
        invariant
            queue.wf(),
            round <= rounds_count,
            rounds_count <= 0x1_0000_0000,
            queue@.color <= round,
            queue_mode == QueueMode::CheckCorrectness ==> transient == 0,
            queue_mode == QueueMode::ForReal ==> (fixed_transient matches Some(n) ==> transient
                == n),
            queue_mode == QueueMode::ForReal && fixed_transient is None ==> transient
                <= TRANSIENT_EVENT_BUDGET,
        decreases rounds_count - round,
    {
        let (samples, process_samples) = queue.run_one_simulation_round(round_size);
        // Per-round means and variances of W, X and T, in ticks.
        let w_mean = samples.wait.mean();
        let x_mean = samples.service.mean();
        let t_mean = samples.sojourn.mean();
        let w_var = samples.wait.variance();
        let x_var = samples.service.variance();
        let t_var = samples.sojourn.variance();
        // Per-round time-weighted means and variances of N and Nq.
        let n_mean = process_samples.occupancy.mean();
        let n_var = process_samples.occupancy.variance();
        let nq_mean = process_samples.queue_length.mean();
        let nq_var = process_samples.queue_length.variance();
        let folded = fold_round(
            &mut acc,
            &w_mean,
            &x_mean,
            &t_mean,
            &w_var,
            &x_var,
            &t_var,
            &n_mean,
            &n_var,
            &nq_mean,
            &nq_var,
        );
        if !folded {
            return overflow_report(transient, round_size, escalations);
        }
        round = round + 1;
    }
    // Across-round statistics and intervals.
    let mean_w = match scale_ratio_u64(&acc.w_means.mean(), 1) {
        Some(v) => v,
        None => {
            return overflow_report(transient, round_size, escalations);
        },
    };
    let mean_nq = match scale_ratio_u64(&acc.nq_means.mean(), 1) {
        Some(v) => v,
        None => {
            return overflow_report(transient, round_size, escalations);
        },
    };
    let mean_n = match scale_ratio_u64(&acc.n_means.mean(), 1) {
        Some(v) => v,
        None => {
            return overflow_report(transient, round_size, escalations);
        },
    };
    let mean_t = match scale_ratio_u64(&acc.t_means.mean(), 1) {
        Some(v) => v,
        None => {
            return overflow_report(transient, round_size, escalations);
        },
    };
    let mean_x = match scale_ratio_u64(&acc.x_means.mean(), 1) {
        Some(v) => v,
        None => {
            return overflow_report(transient, round_size, escalations);
        },
    };
    let var_w = match acc.w_vars.mean().floor_u64() {
        Some(v) => v,
        None => {
            return overflow_report(transient, round_size, escalations);
        },
    };
    let var_nq = match acc.nq_vars.mean().floor_u64() {
        Some(v) => v,
        None => {
            return overflow_report(transient, round_size, escalations);
        },
    };
    let var_n = match acc.n_vars.variance() {
        Some(v) => v.floor(),
        None => {
            return overflow_report(transient, round_size, escalations);
        },
    };
    let var_t = match acc.t_vars.variance() {
        Some(v) => v.floor(),
        None => {
            return overflow_report(transient, round_size, escalations);
        },
    };
    let var_x = match acc.x_vars.variance() {
        Some(v) => v.floor(),
        None => {
            return overflow_report(transient, round_size, escalations);
        },
    };
    // The percentile tables are keyed by the round size: escalation grows
    // the rounds, and with growing degrees of freedom the Student-t and
    // chi-square constructions center on the same value, which is what lets
    // the cross-method convergence test eventually pass.
    let degrees_of_freedom = round_size - 1;
    let mean_w_ci = match acc.w_means.t_student_95percent(degrees_of_freedom) {
        Some(ci) => ci,
        None => {
            return overflow_report(transient, round_size, escalations);
        },
    };
    let var_w_ts_ci = match acc.w_vars.t_student_95percent(degrees_of_freedom) {
        Some(ci) => ci,
        None => {
            return overflow_report(transient, round_size, escalations);
        },
    };
    let var_w_c2_ci = match acc.w_vars.chi_square_95percent(var_w, degrees_of_freedom) {
        Some(ci) => ci,
        None => {
            return overflow_report(transient, round_size, escalations);
        },
    };
    let mean_nq_ci = match acc.nq_means.t_student_95percent(degrees_of_freedom) {
        Some(ci) => ci,
        None => {
            return overflow_report(transient, round_size, escalations);
        },
    };
    let var_nq_ts_ci = match acc.nq_vars.t_student_95percent(degrees_of_freedom) {
        Some(ci) => ci,
        None => {
            return overflow_report(transient, round_size, escalations);
        },
    };
    let var_nq_c2_ci = match acc.nq_vars.chi_square_95percent(var_nq, degrees_of_freedom) {
        Some(ci) => ci,
        None => {
            return overflow_report(transient, round_size, escalations);
        },
    };
    let stop = mean_w_ci.precision_at_most(1, 20) && var_w_ts_ci.precision_at_most(1, 20)
        && mean_nq_ci.precision_at_most(1, 20) && var_nq_ts_ci.precision_at_most(1, 20)
        && ConfidenceInterval::check_convergence(var_w_c2_ci, var_w_ts_ci)
        && ConfidenceInterval::check_convergence(var_nq_c2_ci, var_nq_ts_ci);
    SimulatorReport {
        mean_n,
        mean_t,
        mean_x,
        var_n,
        var_t,
        var_x,
        mean_w,
        mean_w_ci,
        var_w,
        var_w_ts_ci,
        var_w_c2_ci,
        mean_nq,
        mean_nq_ci,
        var_nq,
        var_nq_ts_ci,
        var_nq_c2_ci,
        transient_phase_size: transient,
        round_size,
        escalations,
        status: if stop {
            SimulationStatus::PrecisionReached
        } else {
            SimulationStatus::PrecisionNotReached
        },
    }
}

/// Folds one round's statistics into the across-round accumulators; false
/// exactly when a scaled statistic leaves the machine range.
fn fold_round(
    acc: &mut AcrossRounds,
    w_mean: &Ratio,
    x_mean: &Ratio,
    t_mean: &Ratio,
    w_var: &Option<Ratio>,
    x_var: &Option<Ratio>,
    t_var: &Option<Ratio>,
    n_mean: &Option<Ratio>,
    n_var: &Option<Ratio>,
    nq_mean: &Option<Ratio>,
    nq_var: &Option<Ratio>,
) -> (ok: bool)
    requires
        w_mean.wf(),
        x_mean.wf(),
        t_mean.wf(),
        w_var matches Some(v) ==> v.wf(),
        x_var matches Some(v) ==> v.wf(),
        t_var matches Some(v) ==> v.wf(),
        n_mean matches Some(v) ==> v.wf(),
        n_var matches Some(v) ==> v.wf(),
        nq_mean matches Some(v) ==> v.wf(),
        nq_var matches Some(v) ==> v.wf(),
    ensures
        !ok ==> *final (acc) == *old(acc),
        ok ==> {
            &&& final (acc).w_means@ == old(acc).w_means@.push(
                ((w_mean.num / w_mean.den) as u64),
            )
            &&& final (acc).x_means@ == old(acc).x_means@.push(
                ((x_mean.num / x_mean.den) as u64),
            )
            &&& final (acc).t_means@ == old(acc).t_means@.push(
                ((t_mean.num / t_mean.den) as u64),
            )
            &&& (w_var matches Some(v) && final (acc).w_vars@ == old(acc).w_vars@.push(
                ((v.num / v.den) as u64),
            ))
            &&& (x_var matches Some(v) && final (acc).x_vars@ == old(acc).x_vars@.push(
                ((v.num / v.den) as u64),
            ))
            &&& (t_var matches Some(v) && final (acc).t_vars@ == old(acc).t_vars@.push(
                ((v.num / v.den) as u64),
            ))
            &&& (n_mean matches Some(v) && final (acc).n_means@ == old(acc).n_means@.push(
                (((v.num * MEAN_SCALE) / (v.den as int)) as u64),
            ))
            &&& (n_var matches Some(v) && final (acc).n_vars@ == old(acc).n_vars@.push(
                (((v.num * VAR_SCALE) / (v.den as int)) as u64),
            ))
            &&& (nq_mean matches Some(v) && final (acc).nq_means@ == old(acc).nq_means@.push(
                (((v.num * MEAN_SCALE) / (v.den as int)) as u64),
            ))
            &&& (nq_var matches Some(v) && final (acc).nq_vars@ == old(acc).nq_vars@.push(
                (((v.num * VAR_SCALE) / (v.den as int)) as u64),
            ))
        },
{
    let wm = match scale_ratio_u64(w_mean, 1) {
        Some(v) => v,
        None => {
            return false;
        },
    };
    let xm = match scale_ratio_u64(x_mean, 1) {
        Some(v) => v,
        None => {
            return false;
        },
    };
    let tm = match scale_ratio_u64(t_mean, 1) {
        Some(v) => v,
        None => {
            return false;
        },
    };
    let wv = match w_var {
        Some(v) => match v.floor_u64() {
            Some(x) => x,
            None => {
                return false;
            },
        },
        None => {
            return false;
        },
    };
    let xv = match x_var {
        Some(v) => match v.floor_u64() {
            Some(x) => x,
            None => {
                return false;
            },
        },
        None => {
            return false;
        },
    };
    let tv = match t_var {
        Some(v) => match v.floor_u64() {
            Some(x) => x,
            None => {
                return false;
            },
        },
        None => {
            return false;
        },
    };
    let nm = match n_mean {
        Some(v) => match scale_ratio_u64(v, MEAN_SCALE) {
            Some(x) => x,
            None => {
                return false;
            },
        },
        None => {
            return false;
        },
    };
    let nv = match n_var {
        Some(v) => match scale_ratio_u64(v, VAR_SCALE) {
            Some(x) => x,
            None => {
                return false;
            },
        },
        None => {
            return false;
        },
    };
    let nqm = match nq_mean {
        Some(v) => match scale_ratio_u64(v, MEAN_SCALE) {
            Some(x) => x,
            None => {
                return false;
            },
        },
        None => {
            return false;
        },
    };
    let nqv = match nq_var {
        Some(v) => match scale_ratio_u64(v, VAR_SCALE) {
            Some(x) => x,
            None => {
                return false;
            },
        },
        None => {
            return false;
        },
    };
    acc.w_means.append(wm);
    acc.x_means.append(xm);
    acc.t_means.append(tm);
    acc.w_vars.append(wv);
    acc.x_vars.append(xv);
    acc.t_vars.append(tv);
    acc.n_means.append(nm);
    acc.n_vars.append(nv);
    acc.nq_means.append(nqm);
    acc.nq_vars.append(nqv);
    true
}

/// The analytic steady-state mean waiting time of the exponential
/// single-server system, `lambda / (1 - lambda)` time units, in ticks
/// (rounded down): exact integer arithmetic on the utilization fraction.
pub fn analytic_mean_w(lambda_num: u64, lambda_den: u64) -> (r: u64)
    requires
        1 <= lambda_num < lambda_den <= MAX_DRIVER_LAMBDA_DEN,
    ensures
        r == (lambda_num * MEAN_SCALE) / (lambda_den - lambda_num),
{
    proof {
        assert(lambda_num * MEAN_SCALE <= MAX_DRIVER_LAMBDA_DEN * MEAN_SCALE) by (nonlinear_arith)
            requires lambda_num <= MAX_DRIVER_LAMBDA_DEN;
    }
    (lambda_num * MEAN_SCALE) / (lambda_den - lambda_num)
}

/// The analytic mean queue length, `lambda^2 / (1 - lambda)`, scaled by
/// `MEAN_SCALE` (rounded down).
pub fn analytic_mean_nq(lambda_num: u64, lambda_den: u64) -> (r: u64)
    requires
        1 <= lambda_num < lambda_den <= MAX_DRIVER_LAMBDA_DEN,
    ensures
        r == (lambda_num * lambda_num * MEAN_SCALE) / (lambda_den * (lambda_den - lambda_num)),
{
    proof {
        assert(lambda_num * lambda_num * MEAN_SCALE <= MAX_DRIVER_LAMBDA_DEN
            * MAX_DRIVER_LAMBDA_DEN * MEAN_SCALE && lambda_den * (lambda_den - lambda_num)
            <= MAX_DRIVER_LAMBDA_DEN * MAX_DRIVER_LAMBDA_DEN && 1 <= lambda_den * (lambda_den
            - lambda_num)) by (nonlinear_arith)
            requires 1 <= lambda_num < lambda_den <= MAX_DRIVER_LAMBDA_DEN;
    }
    let num = (lambda_num as u128) * (lambda_num as u128) * (MEAN_SCALE as u128);
    let den = (lambda_den as u128) * ((lambda_den - lambda_num) as u128);
    (num / den) as u64
}

/// The analytic waiting-time variance under each discipline, scaled by
/// `VAR_SCALE` (rounded down): `(2r - r^2) / (1 - r)^2` for
/// first-come-first-served, `(2r - r^2 + r^3) / (1 - r)^3` for
/// last-come-first-served, with `r` the utilization.
pub fn analytic_variance_w(lambda_num: u64, lambda_den: u64, policy: QueuePolicy) -> (r: i128)
    requires
        1 <= lambda_num < lambda_den <= MAX_DRIVER_LAMBDA_DEN,
    ensures
        policy == QueuePolicy::FCFS ==> r == ((2 * lambda_num * lambda_den - lambda_num
            * lambda_num) * VAR_SCALE) / ((lambda_den - lambda_num) * (lambda_den - lambda_num)),
        policy == QueuePolicy::LCFS ==> r == ((2 * lambda_num * lambda_den * lambda_den
            - lambda_num * lambda_num * lambda_den + lambda_num * lambda_num * lambda_num)
            * VAR_SCALE) / ((lambda_den - lambda_num) * (lambda_den - lambda_num) * (lambda_den
            - lambda_num)),
        r >= 0,
{
    let ln = lambda_num;
    let ld = lambda_den;
    let gap = lambda_den - lambda_num;
    proof {
        assert(2 * ln * ld <= 2 * MAX_DRIVER_LAMBDA_DEN * MAX_DRIVER_LAMBDA_DEN && ln * ln <= 2
            * ln * ld && 2 * ln * ld * ld <= 2 * MAX_DRIVER_LAMBDA_DEN * MAX_DRIVER_LAMBDA_DEN
            * MAX_DRIVER_LAMBDA_DEN && ln * ln * ld <= 2 * ln * ld * ld && ln * ln * ln
            <= MAX_DRIVER_LAMBDA_DEN * MAX_DRIVER_LAMBDA_DEN * MAX_DRIVER_LAMBDA_DEN && 2 * ln
            * ld * ld - ln * ln * ld + ln * ln * ln <= 3 * MAX_DRIVER_LAMBDA_DEN
            * MAX_DRIVER_LAMBDA_DEN * MAX_DRIVER_LAMBDA_DEN && 1 <= gap * gap
            <= MAX_DRIVER_LAMBDA_DEN * MAX_DRIVER_LAMBDA_DEN && 1 <= gap * gap * gap
            <= MAX_DRIVER_LAMBDA_DEN * MAX_DRIVER_LAMBDA_DEN * MAX_DRIVER_LAMBDA_DEN)
            by (nonlinear_arith)
            requires
                1 <= ln < ld <= MAX_DRIVER_LAMBDA_DEN,
                gap == ld - ln,
        ;
    }
    match policy {
        QueuePolicy::FCFS => {
            let base = 2 * ln * ld - ln * ln;
            let num = (base as u128) * (VAR_SCALE as u128);
            proof {
                assert((base as int) * (VAR_SCALE as int) <= (2 * MAX_DRIVER_LAMBDA_DEN
                    * MAX_DRIVER_LAMBDA_DEN) * VAR_SCALE) by (nonlinear_arith)
                    requires base <= 2 * MAX_DRIVER_LAMBDA_DEN * MAX_DRIVER_LAMBDA_DEN;
                assert((num as int) / ((gap * gap) as int) <= num as int) by (nonlinear_arith)
                    requires num >= 0 && gap * gap >= 1;
            }
            let den = (gap as u128) * (gap as u128);
            (num / den) as i128
        },
        QueuePolicy::LCFS => {
            let base = 2 * ln * ld * ld - ln * ln * ld + ln * ln * ln;
            let num = (base as u128) * (VAR_SCALE as u128);
            proof {
                assert((base as int) * (VAR_SCALE as int) <= (3 * MAX_DRIVER_LAMBDA_DEN
                    * MAX_DRIVER_LAMBDA_DEN * MAX_DRIVER_LAMBDA_DEN) * VAR_SCALE)
                    by (nonlinear_arith)
                    requires base <= 3 * MAX_DRIVER_LAMBDA_DEN * MAX_DRIVER_LAMBDA_DEN
                        * MAX_DRIVER_LAMBDA_DEN;
                assert((num as int) / ((gap * gap * gap) as int) <= num as int)
                    by (nonlinear_arith)
                    requires num >= 0 && gap * gap * gap >= 1;
            }
            let den = (gap as u128) * (gap as u128) * (gap as u128);
            (num / den) as i128
        },
    }
}

/// The analytic queue-length variance,
/// `(r^2 + r^3 - r^4) / (1 - r)^2`, scaled by `VAR_SCALE` (rounded down).
pub fn analytic_variance_nq(lambda_num: u64, lambda_den: u64) -> (r: i128)
    requires
        1 <= lambda_num < lambda_den <= MAX_DRIVER_LAMBDA_DEN,
    ensures
        r == ((lambda_num * lambda_num * lambda_den * lambda_den + lambda_num * lambda_num
            * lambda_num * lambda_den - lambda_num * lambda_num * lambda_num * lambda_num)
            * VAR_SCALE) / ((lambda_den * lambda_den) * ((lambda_den - lambda_num) * (lambda_den
            - lambda_num))),
        r >= 0,
{
    let ln = lambda_num;
    let ld = lambda_den;
    let gap = lambda_den - lambda_num;
    proof {
        assert(ln * ln <= MAX_DRIVER_LAMBDA_DEN * MAX_DRIVER_LAMBDA_DEN && ln * ln * ld
            <= MAX_DRIVER_LAMBDA_DEN * MAX_DRIVER_LAMBDA_DEN * MAX_DRIVER_LAMBDA_DEN && ln * ln
            * ld * ld <= MAX_DRIVER_LAMBDA_DEN * MAX_DRIVER_LAMBDA_DEN * MAX_DRIVER_LAMBDA_DEN
            * MAX_DRIVER_LAMBDA_DEN && ln * ln * ln <= MAX_DRIVER_LAMBDA_DEN
            * MAX_DRIVER_LAMBDA_DEN * MAX_DRIVER_LAMBDA_DEN && ln * ln * ln * ld
            <= MAX_DRIVER_LAMBDA_DEN * MAX_DRIVER_LAMBDA_DEN * MAX_DRIVER_LAMBDA_DEN
            * MAX_DRIVER_LAMBDA_DEN && ln * ln * ld * ld + ln * ln * ln * ld <= 2
            * MAX_DRIVER_LAMBDA_DEN * MAX_DRIVER_LAMBDA_DEN * MAX_DRIVER_LAMBDA_DEN
            * MAX_DRIVER_LAMBDA_DEN && ln * ln * ln * ln <= ln * ln * ln * ld && 1 <= ld * ld
            && 1 <= gap * gap && ld * ld <= MAX_DRIVER_LAMBDA_DEN * MAX_DRIVER_LAMBDA_DEN && gap
            * gap <= MAX_DRIVER_LAMBDA_DEN * MAX_DRIVER_LAMBDA_DEN) by (nonlinear_arith)
            requires
                1 <= ln < ld <= MAX_DRIVER_LAMBDA_DEN,
                gap == ld - ln,
        ;
    }
    let base = ln * ln * ld * ld + ln * ln * ln * ld - ln * ln * ln * ln;
    let num = (base as u128) * (VAR_SCALE as u128);
    proof {
        assert((base as int) * (VAR_SCALE as int) <= (2 * MAX_DRIVER_LAMBDA_DEN
            * MAX_DRIVER_LAMBDA_DEN * MAX_DRIVER_LAMBDA_DEN * MAX_DRIVER_LAMBDA_DEN) * VAR_SCALE)
            by (nonlinear_arith)
            requires base <= 2 * MAX_DRIVER_LAMBDA_DEN * MAX_DRIVER_LAMBDA_DEN
                * MAX_DRIVER_LAMBDA_DEN * MAX_DRIVER_LAMBDA_DEN;
        assert(((ld * ld) as int) * ((gap * gap) as int) >= 1 && ((ld * ld) as int) * ((gap
            * gap) as int) <= u128::MAX) by (nonlinear_arith)
            requires 1 <= ld * ld <= MAX_DRIVER_LAMBDA_DEN * MAX_DRIVER_LAMBDA_DEN && 1 <= gap
                * gap <= MAX_DRIVER_LAMBDA_DEN * MAX_DRIVER_LAMBDA_DEN;
        assert((num as int) / (((ld * ld) as int) * ((gap * gap) as int)) <= num as int)
            by (nonlinear_arith)
            requires num >= 0 && ((ld * ld) as int) * ((gap * gap) as int) >= 1;
    }
    let den = ((ld * ld) as u128) * ((gap * gap) as u128);
    (num / den) as i128
}

} // verus!
