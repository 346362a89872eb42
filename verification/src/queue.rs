//! The queue engine: a single-server waiting line advanced event by event.
//!
//! The engine owns the waiting line, the customer in service, a two-slot
//! event calendar (at most one pending arrival and one pending end of
//! service ever exist), the simulated clock, and the duration source; it
//! produces, per round, a batch of finished-customer samples and
//! time-weighted occupancy samples.
//!
//! Every transition has a specification-level model: `QueueView` is the
//! mathematical state, and `spec_step` is the transition function, a pure
//! function of the state and the two durations drawn at an arrival.  Each
//! executable handler is proved to implement its model exactly, so the
//! engine is deterministic given the drawn durations; with the fixed-cycle
//! source the durations themselves are pinned and whole runs are determined
//! by the initial state.

use crate::arith::{sat_add, spec_sat_add};
use crate::client::{Client, Phase};
use crate::exponential_time_generator::ExponentialTime;
use crate::sample::Sample;
use crate::stochastic_process_sample::StochasticProcessSample;
use crate::TICKS_PER_UNIT;
use std::collections::VecDeque;
use vstd::prelude::*;

verus! {

/// The service discipline of the waiting line.
#[derive(Debug, Copy, Clone, PartialEq, Eq, Structural)]
pub enum QueuePolicy {
    /// First come, first served: the oldest waiting customer departs next.
    FCFS,
    /// Last come, first served: the newest waiting customer departs next.
    LCFS,
}

/// Whether the engine simulates the random process or replays the fixed
/// deterministic schedule used to validate it.
#[derive(Debug, Copy, Clone, PartialEq, Eq, Structural)]
pub enum QueueMode {
    /// The measured simulation, driven by the random variate source.
    ForReal,
    /// The scripted validation run, driven by the fixed-cycle source.
    CheckCorrectness,
}

/// Largest accepted utilization denominator; keeps every rate product
/// within the variate generator's range.
pub const MAX_LAMBDA_DEN: u64 = 100_000_000;

/// Where durations come from: the seeded exponential source, or a fixed
/// repeating schedule of arrival gaps with a constant service duration.
pub enum DurationSource {
    /// Exponentially distributed durations from the seeded generator.
    Random(ExponentialTime),
    /// A repeating cycle of arrival gaps and one fixed service duration.
    FixedCycle { gaps: Vec<u64>, idx: usize, service: u64 },
}

/// The mathematical state of a duration source: the random source is
/// opaque, the fixed cycle is carried exactly.
#[verifier::ext_equal]
pub enum SourceView {
    /// The random source; its internal state is not modelled.
    Random,
    /// The fixed cycle and its position.
    FixedCycle { gaps: Seq<u64>, idx: int, service: u64 },
}

impl View for DurationSource {
    type V = SourceView;

    open spec fn view(&self) -> SourceView {
        match self {
            DurationSource::Random(_) => SourceView::Random,
            DurationSource::FixedCycle { gaps, idx, service } => SourceView::FixedCycle {
                gaps: gaps@,
                idx: *idx as int,
                service: *service,
            },
        }
    }
}

/// The arrival gap a fixed-cycle source hands out next.
pub open spec fn spec_fixed_gap(s: SourceView) -> u64 {
    match s {
        SourceView::FixedCycle { gaps, idx, .. } => gaps[idx],
        SourceView::Random => 0,
    }
}

/// The service duration a fixed-cycle source hands out.
pub open spec fn spec_fixed_service(s: SourceView) -> u64 {
    match s {
        SourceView::FixedCycle { service, .. } => service,
        SourceView::Random => 0,
    }
}

/// A source after one draw: the fixed cycle advances, the random source is
/// unchanged (its hidden state moves, but it is not modelled).
pub open spec fn spec_source_step(s: SourceView) -> SourceView {
    match s {
        SourceView::FixedCycle { gaps, idx, service } => SourceView::FixedCycle {
            gaps,
            idx: if idx + 1 == gaps.len() {
                0
            } else {
                idx + 1
            },
            service,
        },
        SourceView::Random => SourceView::Random,
    }
}

/// The mathematical state of the engine.
#[verifier::ext_equal]
pub struct QueueView {
    /// Waiting times of finished customers folded in this round, in ticks.
    pub wait: Seq<u64>,
    /// Their service times.
    pub service: Seq<u64>,
    /// Their sojourn times (wait plus service).
    pub sojourn: Seq<u64>,
    /// Timestamps of the recorded occupancy state changes.
    pub occupancy_times: Seq<u64>,
    /// The recorded occupancy levels.
    pub occupancy_levels: Seq<u64>,
    /// Timestamps of the recorded queue-length state changes.
    pub queue_len_times: Seq<u64>,
    /// The recorded queue lengths.
    pub queue_len_levels: Seq<u64>,
    /// The service discipline.
    pub policy: QueuePolicy,
    /// The utilization as the exact rational `lambda_num / lambda_den`.
    pub lambda_num: u64,
    /// Its denominator.
    pub lambda_den: u64,
    /// The waiting line, oldest admission first.
    pub line: Seq<Client>,
    /// The customer in service, if any.
    pub in_service: Option<Client>,
    /// The pending arrival's due time.
    pub next_arrival: Option<u64>,
    /// The pending end of service's due time.
    pub next_departure: Option<u64>,
    /// The simulated clock, in ticks.
    pub time: u64,
    /// The duration source.
    pub source: SourceView,
    /// The current round's generation tag.
    pub color: u64,
    /// The operating mode.
    pub mode: QueueMode,
}

/// The occupancy: customers waiting plus the one in service, if any.
pub open spec fn spec_occupancy(v: QueueView) -> int {
    v.line.len() + if v.in_service is Some {
        1int
    } else {
        0int
    }
}

/// The last recorded timestamp of a state-change record, or zero.
pub open spec fn last_time_of(ts: Seq<u64>) -> u64 {
    if ts.len() == 0 {
        0
    } else {
        ts.last()
    }
}

/// A customer standing in the waiting line: admitted, not yet served.
pub open spec fn line_client_wf(c: Client, time: u64) -> bool {
    &&& c.wait_start is Some
    &&& c.wait_start->Some_0 <= time
    &&& c.wait_end is None
    &&& c.service_start is None
    &&& c.service_end is None
}

/// The customer in service: waited, now being served.
pub open spec fn service_client_wf(c: Client, time: u64) -> bool {
    &&& c.wait_start is Some
    &&& c.wait_end is Some
    &&& c.service_start is Some
    &&& c.service_end is None
    &&& c.wait_start->Some_0 <= c.wait_end->Some_0 <= time
    &&& c.service_start->Some_0 <= time
}

/// The part of the engine invariant that the handlers keep even while the
/// event being processed has been taken off the calendar.
pub open spec fn spec_base_wf(v: QueueView) -> bool {
    // Someone is in service whenever anyone waits.
    &&& (v.in_service is None ==> v.line.len() == 0)
    // The mode matches the source, and a fixed cycle is nonempty.
    &&& (v.mode == QueueMode::ForReal <==> v.source is Random)
    &&& (v.source matches SourceView::FixedCycle { gaps, idx, .. } ==> gaps.len() >= 1 && 0 <= idx
        < gaps.len())
    // The utilization is a rational strictly between zero and one.
    &&& 1 <= v.lambda_num < v.lambda_den <= MAX_LAMBDA_DEN
    // State-change records are paired and do not outrun the clock.
    &&& v.occupancy_times.len() == v.occupancy_levels.len()
    &&& v.queue_len_times.len() == v.queue_len_levels.len()
    &&& last_time_of(v.occupancy_times) <= v.time
    &&& last_time_of(v.queue_len_times) <= v.time
    // Every customer's marks are consistent with its position.
    &&& (v.in_service matches Some(c) ==> service_client_wf(c, v.time))
    &&& (forall|i: int| 0 <= i < v.line.len() ==> line_client_wf(#[trigger] v.line[i], v.time))
}

/// The calendar part of the engine invariant, restored after every step.
pub open spec fn spec_calendar_wf(v: QueueView) -> bool {
    // An end of service is pending exactly while someone is in service.
    &&& (v.next_departure is Some <==> v.in_service is Some)
    // An arrival is always pending.
    &&& v.next_arrival is Some
    // Pending events lie in the future.
    &&& v.next_arrival->Some_0 >= v.time
    &&& (v.next_departure matches Some(t) ==> t >= v.time)
}

/// The engine invariant.
pub open spec fn spec_queue_wf(v: QueueView) -> bool {
    spec_base_wf(v) && spec_calendar_wf(v)
}

/// A recorded level: reduced into a `u64` exactly as the machine does.
/// Every reachable level fits, but the model is total.
pub open spec fn spec_level(n: int) -> u64 {
    (n % 0x1_0000_0000_0000_0000) as u64
}

/// Records the current occupancy and queue length at the current time.
pub open spec fn spec_register_state(v: QueueView) -> QueueView {
    QueueView {
        occupancy_times: v.occupancy_times.push(v.time),
        occupancy_levels: v.occupancy_levels.push(spec_level(spec_occupancy(v))),
        queue_len_times: v.queue_len_times.push(v.time),
        queue_len_levels: v.queue_len_levels.push(spec_level(v.line.len() as int)),
        ..v
    }
}

/// The arrival transition at the current time: schedule the next arrival
/// `gap` ticks ahead, admit a customer with service duration `svc`; an
/// idle, empty system serves the customer at once (zero wait) and schedules
/// its end of service, otherwise the customer joins the line and the state
/// change is recorded.
pub open spec fn spec_handle_arrival(v: QueueView, gap: u64, svc: u64) -> QueueView {
    let v1 = QueueView {
        next_arrival: Some(spec_sat_add(v.time, gap)),
        source: spec_source_step(v.source),
        ..v
    };
    let c = Client {
        x: svc,
        wait_start: Some(v.time),
        wait_end: None,
        service_start: None,
        service_end: None,
        color: v.color,
    };
    if v.line.len() == 0 && v.in_service is None {
        let served = Client { wait_end: Some(v.time), service_start: Some(v.time), ..c };
        QueueView {
            in_service: Some(served),
            next_departure: Some(spec_sat_add(v.time, svc)),
            ..v1
        }
    } else {
        spec_register_state(QueueView { line: v1.line.push(c), ..v1 })
    }
}

/// The next customer under the discipline, and the remaining line.
pub open spec fn spec_select_next(line: Seq<Client>, policy: QueuePolicy) -> (Client, Seq<Client>) {
    match policy {
        QueuePolicy::FCFS => (line[0], line.subrange(1, line.len() as int)),
        QueuePolicy::LCFS => (line.last(), line.drop_last()),
    }
}

/// The end-of-service transition at the current time: the served customer's
/// metrics are folded in when its generation tag matches the round; the
/// next customer (per discipline) enters service, or the server goes idle;
/// the state change is recorded.
pub open spec fn spec_end_of_service(v: QueueView) -> QueueView {
    match v.in_service {
        Some(c) => {
        let w = (c.wait_end->Some_0 - c.wait_start->Some_0) as u64;
        let x = (v.time - c.service_start->Some_0) as u64;
        let v1 = if c.color == v.color {
            QueueView {
                wait: v.wait.push(w),
                service: v.service.push(x),
                sojourn: v.sojourn.push(spec_sat_add(w, x)),
                ..v
            }
        } else {
            v
        };
        let v2 = if v.line.len() > 0 {
            let (n, rest) = spec_select_next(v1.line, v1.policy);
            let served = Client { wait_end: Some(v.time), service_start: Some(v.time), ..n };
            QueueView {
                line: rest,
                in_service: Some(served),
                next_departure: Some(spec_sat_add(v.time, n.x)),
                ..v1
            }
        } else {
            QueueView { in_service: None, next_departure: None, ..v1 }
        };
        spec_register_state(v2)
        },
        None => spec_register_state(v),
    }
}

/// Whether the next due event is the arrival; ties go to the arrival.
pub open spec fn spec_next_is_arrival(v: QueueView) -> bool {
    match (v.next_arrival, v.next_departure) {
        (Some(a), Some(d)) => a <= d,
        (Some(_), None) => true,
        (None, Some(_)) => false,
        (None, None) => true,
    }
}

/// The due time of the next event.
pub open spec fn spec_next_event_time(v: QueueView) -> u64 {
    if spec_next_is_arrival(v) {
        v.next_arrival->Some_0
    } else {
        v.next_departure->Some_0
    }
}

/// One step of the engine: select the next due event, advance the clock to
/// it, consume it, and apply its transition.  The two durations are the
/// draws an arrival makes; an end of service draws nothing.
pub open spec fn spec_step(v: QueueView, gap: u64, svc: u64) -> QueueView {
    if spec_next_is_arrival(v) {
        let t = v.next_arrival->Some_0;
        spec_handle_arrival(QueueView { time: t, next_arrival: None, ..v }, gap, svc)
    } else {
        let t = v.next_departure->Some_0;
        spec_end_of_service(QueueView { time: t, next_departure: None, ..v })
    }
}

/// Whether the step departs a customer of the current round.
pub open spec fn spec_step_counts(v: QueueView) -> bool {
    &&& !spec_next_is_arrival(v)
    &&& (v.in_service matches Some(c) && c.color == v.color)
}

/// A run: the engine folded over a sequence of drawn duration pairs, one
/// pair per step.
pub open spec fn spec_run(v: QueueView, ds: Seq<(u64, u64)>) -> QueueView
    decreases ds.len(),
{
    if ds.len() == 0 {
        v
    } else {
        spec_run(spec_step(v, ds[0].0, ds[0].1), ds.subrange(1, ds.len() as int))
    }
}

/// How many steps of a run depart a customer of the current round.
pub open spec fn spec_run_count(v: QueueView, ds: Seq<(u64, u64)>) -> int
    decreases ds.len(),
{
    if ds.len() == 0 {
        0
    } else {
        (if spec_step_counts(v) {
            1int
        } else {
            0int
        }) + spec_run_count(spec_step(v, ds[0].0, ds[0].1), ds.subrange(1, ds.len() as int))
    }
}

/// Extending a run by one pair appends one step.
pub proof fn lemma_run_push(v: QueueView, ds: Seq<(u64, u64)>, d: (u64, u64))
    ensures
        spec_run(v, ds.push(d)) == spec_step(spec_run(v, ds), d.0, d.1),
        spec_run_count(v, ds.push(d)) == spec_run_count(v, ds) + if spec_step_counts(
            spec_run(v, ds),
        ) {
            1int
        } else {
            0int
        },
    decreases ds.len(),
{
    if ds.len() == 0 {
        assert(ds.push(d)[0] == d);
        assert(ds.push(d).subrange(1, 1) =~= Seq::<(u64, u64)>::empty());
        let v1 = spec_step(v, d.0, d.1);
        assert(spec_run(v, ds.push(d)) == spec_run(v1, ds.push(d).subrange(1, 1)));
        assert(spec_run(v1, Seq::<(u64, u64)>::empty()) == v1);
        assert(spec_run(v, ds) == v);
        assert(spec_run_count(v1, Seq::<(u64, u64)>::empty()) == 0);
    } else {
        let tail = ds.subrange(1, ds.len() as int);
        let v1 = spec_step(v, ds[0].0, ds[0].1);
        assert(ds.push(d)[0] == ds[0]);
        assert(ds.push(d).subrange(1, ds.len() as int + 1) =~= tail.push(d));
        assert(spec_run(v, ds.push(d)) == spec_run(v1, tail.push(d)));
        assert(spec_run(v, ds) == spec_run(v1, tail));
        lemma_run_push(v1, tail, d);
        assert(spec_run_count(v, ds.push(d)) == (if spec_step_counts(v) {
            1int
        } else {
            0int
        }) + spec_run_count(v1, tail.push(d)));
    }
}

/// The time the server spends busy until the next event fires: the gap from
/// the clock to the next due event while anyone is in the system, nothing
/// while it is empty.
pub open spec fn spec_busy_increment(v: QueueView) -> u64 {
    if v.line.len() > 0 || v.in_service is Some {
        (spec_next_event_time(v) - v.time) as u64
    } else {
        0
    }
}

/// Whether the observed utilization `busy / elapsed` lies within 1%
/// relative difference of the target `lambda_num / lambda_den`, by exact
/// cross-multiplication: `100 * min >= 99 * max` of `busy * lambda_den` and
/// `lambda_num * time`, once the clock has moved.
pub open spec fn spec_utilization_close(v: QueueView, busy: u64) -> bool {
    let p = busy * v.lambda_den;
    let q = v.lambda_num * v.time;
    v.time > 0 && if p <= q {
        100 * p >= 99 * q
    } else {
        100 * q >= 99 * p
    }
}

/// The warm-up detector's accumulators after a run: the saturating busy
/// time, and how many consecutive steps, ending with the last, passed the
/// closeness test (a failing step resets the count to zero).
pub open spec fn spec_warmup_counters(
    v: QueueView,
    ds: Seq<(u64, u64)>,
    busy: u64,
    stable: u64,
) -> (u64, u64)
    decreases ds.len(),
{
    if ds.len() == 0 {
        (busy, stable)
    } else {
        let busy1 = spec_sat_add(busy, spec_busy_increment(v));
        let v1 = spec_step(v, ds[0].0, ds[0].1);
        let stable1 = if spec_utilization_close(v1, busy1) {
            (stable + 1) as u64
        } else {
            0u64
        };
        spec_warmup_counters(v1, ds.subrange(1, ds.len() as int), busy1, stable1)
    }
}

/// Extending a run by one pair folds one more step into the detector's
/// accumulators.
pub proof fn lemma_warmup_counters_push(
    v: QueueView,
    ds: Seq<(u64, u64)>,
    d: (u64, u64),
    busy: u64,
    stable: u64,
)
    ensures
        ({
            let folded = spec_warmup_counters(v, ds, busy, stable);
            let w = spec_run(v, ds);
            let busy1 = spec_sat_add(folded.0, spec_busy_increment(w));
            let stable1 = if spec_utilization_close(spec_step(w, d.0, d.1), busy1) {
                (folded.1 + 1) as u64
            } else {
                0u64
            };
            spec_warmup_counters(v, ds.push(d), busy, stable) == (busy1, stable1)
        }),
    decreases ds.len(),
{
    if ds.len() == 0 {
        assert(ds.push(d)[0] == d);
        assert(ds.push(d).subrange(1, 1) =~= Seq::<(u64, u64)>::empty());
        assert(spec_run(v, ds) == v);
        assert(spec_warmup_counters(v, ds, busy, stable) == (busy, stable));
        let busy1 = spec_sat_add(busy, spec_busy_increment(v));
        let v1 = spec_step(v, d.0, d.1);
        let stable1 = if spec_utilization_close(v1, busy1) {
            (stable + 1) as u64
        } else {
            0u64
        };
        assert(spec_warmup_counters(v, ds.push(d), busy, stable) == spec_warmup_counters(
            v1,
            ds.push(d).subrange(1, 1),
            busy1,
            stable1,
        ));
        assert(spec_warmup_counters(v1, Seq::<(u64, u64)>::empty(), busy1, stable1) == (
        busy1,
        stable1,
        ));
    } else {
        let tail = ds.subrange(1, ds.len() as int);
        let busy1 = spec_sat_add(busy, spec_busy_increment(v));
        let v1 = spec_step(v, ds[0].0, ds[0].1);
        let stable1 = if spec_utilization_close(v1, busy1) {
            (stable + 1) as u64
        } else {
            0u64
        };
        assert(ds.push(d)[0] == ds[0]);
        assert(ds.push(d).subrange(1, ds.len() as int + 1) =~= tail.push(d));
        assert(spec_warmup_counters(v, ds.push(d), busy, stable) == spec_warmup_counters(
            v1,
            tail.push(d),
            busy1,
            stable1,
        ));
        assert(spec_warmup_counters(v, ds, busy, stable) == spec_warmup_counters(
            v1,
            tail,
            busy1,
            stable1,
        ));
        assert(spec_run(v, ds) == spec_run(v1, tail));
        lemma_warmup_counters_push(v1, tail, d, busy1, stable1);
    }
}

/// The occupancy and queue-length records are paired: recorded at the same
/// times, and at every index the occupancy equals the queue length or
/// exceeds it by exactly one — the busy-server flag.
pub open spec fn records_paired(v: QueueView) -> bool {
    &&& v.occupancy_times == v.queue_len_times
    &&& v.occupancy_levels.len() == v.queue_len_levels.len()
    &&& forall|i: int|
        0 <= i < v.occupancy_levels.len() ==> #[trigger] v.occupancy_levels[i]
            == v.queue_len_levels[i] || v.occupancy_levels[i] == spec_level(
            v.queue_len_levels[i] + 1,
        )
}

/// Recording a state change keeps the records paired: one point is pushed
/// to each record at the same time, and the pushed occupancy is the pushed
/// queue length plus the busy-server flag.
pub proof fn lemma_register_pairing(v: QueueView)
    requires
        records_paired(v),
    ensures
        records_paired(spec_register_state(v)),
{
    let w = spec_register_state(v);
    assert(w.occupancy_times =~= w.queue_len_times);
    let modulus = 0x1_0000_0000_0000_0000;
    let len = v.line.len() as int;
    let occ = spec_level(spec_occupancy(v));
    let nq = spec_level(len);
    if v.in_service is Some {
        // (len + 1) mod m == ((len mod m) + 1) mod m.
        vstd::arithmetic::div_mod::lemma_mod_bound(len, modulus);
        vstd::arithmetic::div_mod::lemma_add_mod_noop(len, 1, modulus);
        vstd::arithmetic::div_mod::lemma_small_mod(1nat, modulus as nat);
        vstd::arithmetic::div_mod::lemma_mod_twice(len, modulus);
        assert(occ == spec_level(nq + 1));
    }
    assert forall|i: int| 0 <= i < w.occupancy_levels.len() implies #[trigger] w.occupancy_levels[i]
        == w.queue_len_levels[i] || w.occupancy_levels[i] == spec_level(
        w.queue_len_levels[i] + 1,
    ) by {
        if i < v.occupancy_levels.len() {
            assert(v.occupancy_levels[i] == v.queue_len_levels[i] || v.occupancy_levels[i]
                == spec_level(v.queue_len_levels[i] + 1));
        } else {
            assert(w.occupancy_levels[i] == occ && w.queue_len_levels[i] == nq);
        }
    }
}

/// Law (occupancy invariant, run form): every step keeps the occupancy and
/// queue-length records paired, so after any run the two hold equally many
/// points, recorded pairwise at identical times, and at every index the
/// occupancy is the queue length plus the busy-server flag.
pub proof fn lemma_step_preserves_pairing(v: QueueView, gap: u64, svc: u64)
    requires
        records_paired(v),
    ensures
        records_paired(spec_step(v, gap, svc)),
{
    if spec_next_is_arrival(v) {
        let t = v.next_arrival->Some_0;
        let vm = QueueView { time: t, next_arrival: None, ..v };
        let v1 = QueueView {
            next_arrival: Some(spec_sat_add(vm.time, gap)),
            source: spec_source_step(vm.source),
            ..vm
        };
        let c = Client {
            x: svc,
            wait_start: Some(vm.time),
            wait_end: None,
            service_start: None,
            service_end: None,
            color: vm.color,
        };
        if vm.line.len() == 0 && vm.in_service is None {
        } else {
            let v2 = QueueView { line: v1.line.push(c), ..v1 };
            assert(records_paired(v2));
            lemma_register_pairing(v2);
        }
    } else {
        let t = v.next_departure->Some_0;
        let vm = QueueView { time: t, next_departure: None, ..v };
        match vm.in_service {
            Some(c0) => {
                let c = Client { service_end: Some(vm.time), ..c0 };
                let w = (c0.wait_end->Some_0 - c0.wait_start->Some_0) as u64;
                let x = (vm.time - c0.service_start->Some_0) as u64;
                let v1 = if c0.color == vm.color {
                    QueueView {
                        wait: vm.wait.push(w),
                        service: vm.service.push(x),
                        sojourn: vm.sojourn.push(spec_sat_add(w, x)),
                        ..vm
                    }
                } else {
                    vm
                };
                let v2 = if vm.line.len() > 0 {
                    let (n, rest) = spec_select_next(v1.line, v1.policy);
                    let served = Client {
                        wait_end: Some(vm.time),
                        service_start: Some(vm.time),
                        ..n
                    };
                    QueueView {
                        line: rest,
                        in_service: Some(served),
                        next_departure: Some(spec_sat_add(vm.time, n.x)),
                        ..v1
                    }
                } else {
                    QueueView { in_service: None, next_departure: None, ..v1 }
                };
                assert(records_paired(v2));
                lemma_register_pairing(v2);
            },
            None => {
                assert(records_paired(vm));
                lemma_register_pairing(vm);
            },
        }
    }
}

/// The run form of `lemma_step_preserves_pairing`.
pub proof fn lemma_run_preserves_pairing(v: QueueView, ds: Seq<(u64, u64)>)
    requires
        records_paired(v),
    ensures
        records_paired(spec_run(v, ds)),
    decreases ds.len(),
{
    if ds.len() == 0 {
    } else {
        lemma_step_preserves_pairing(v, ds[0].0, ds[0].1);
        lemma_run_preserves_pairing(spec_step(v, ds[0].0, ds[0].1), ds.subrange(1, ds.len() as int));
    }
}

/// One step never changes the static configuration: discipline, mode,
/// utilization, and the round tag are preserved.
pub proof fn lemma_step_preserves(v: QueueView, gap: u64, svc: u64)
    ensures
        spec_step(v, gap, svc).color == v.color,
        spec_step(v, gap, svc).mode == v.mode,
        spec_step(v, gap, svc).policy == v.policy,
        spec_step(v, gap, svc).lambda_num == v.lambda_num,
        spec_step(v, gap, svc).lambda_den == v.lambda_den,
{
}

/// A whole run preserves the static configuration.
pub proof fn lemma_run_preserves(v: QueueView, ds: Seq<(u64, u64)>)
    ensures
        spec_run(v, ds).color == v.color,
        spec_run(v, ds).mode == v.mode,
        spec_run(v, ds).policy == v.policy,
        spec_run(v, ds).lambda_num == v.lambda_num,
        spec_run(v, ds).lambda_den == v.lambda_den,
    decreases ds.len(),
{
    if ds.len() == 0 {
    } else {
        lemma_step_preserves(v, ds[0].0, ds[0].1);
        lemma_run_preserves(spec_step(v, ds[0].0, ds[0].1), ds.subrange(1, ds.len() as int));
    }
}

/// The finished-customer accumulators of one round.
pub struct SampleSet {
    /// Waiting times.
    pub wait: Sample,
    /// Service times.
    pub service: Sample,
    /// Sojourn times.
    pub sojourn: Sample,
}

/// The time-weighted accumulators of one round.
pub struct ProcessSampleSet {
    /// System occupancy over time.
    pub occupancy: StochasticProcessSample,
    /// Queue length over time.
    pub queue_length: StochasticProcessSample,
}

/// The queue engine.
pub struct Queue {
    /// The finished-customer accumulators of the current round.
    pub samples: SampleSet,
    /// The time-weighted accumulators of the current round.
    pub process_samples: ProcessSampleSet,
    /// The service discipline.
    pub queue_policy: QueuePolicy,
    /// The utilization numerator.
    pub lambda_num: u64,
    /// The utilization denominator.
    pub lambda_den: u64,
    /// The waiting line, oldest admission at the front.
    pub line: VecDeque<Client>,
    /// The customer in service, if any.
    pub client_in_service: Option<Client>,
    /// The pending arrival's due time.
    pub next_arrival: Option<u64>,
    /// The pending end of service's due time.
    pub next_departure: Option<u64>,
    /// The simulated clock, in ticks.
    pub current_time: u64,
    /// The duration source.
    pub source: DurationSource,
    /// The current round's generation tag.
    pub color: u64,
    /// The operating mode.
    pub mode: QueueMode,
}

impl View for Queue {
    type V = QueueView;

    open spec fn view(&self) -> QueueView {
        QueueView {
            wait: self.samples.wait@,
            service: self.samples.service@,
            sojourn: self.samples.sojourn@,
            occupancy_times: self.process_samples.occupancy.times@,
            occupancy_levels: self.process_samples.occupancy.values@,
            queue_len_times: self.process_samples.queue_length.times@,
            queue_len_levels: self.process_samples.queue_length.values@,
            policy: self.queue_policy,
            lambda_num: self.lambda_num,
            lambda_den: self.lambda_den,
            line: self.line@,
            in_service: self.client_in_service,
            next_arrival: self.next_arrival,
            next_departure: self.next_departure,
            time: self.current_time,
            source: self.source@,
            color: self.color,
            mode: self.mode,
        }
    }
}

impl Queue {
    /// The full engine invariant: the view is well formed and the
    /// time-weighted records never run backwards.
    pub open spec fn wf(self) -> bool {
        &&& spec_queue_wf(self@)
        &&& self.process_samples.occupancy.wf()
        &&& self.process_samples.queue_length.wf()
    }

    /// A new engine for the measured simulation: utilization
    /// `lambda_num / lambda_den` (strictly between zero and one), the given
    /// service discipline, and a deterministic seed.  The first scheduled
    /// event is an Arrival, due after one drawn inter-arrival gap (whole-tick
    /// rounding can make that gap zero), and the system starts empty:
    /// occupancy is zero until that arrival is processed.
    pub fn new(lambda_num: u64, lambda_den: u64, queue_policy: QueuePolicy, seed: u64) -> (r:
        Queue)
        requires
            1 <= lambda_num < lambda_den <= MAX_LAMBDA_DEN,
        ensures
            r.wf(),
            r@.line.len() == 0,
            r@.in_service is None,
            r@.next_departure is None,
            r@.next_arrival is Some,
            spec_occupancy(r@) == 0,
            r@.time == 0,
            r@.color == 0,
            r@.mode == QueueMode::ForReal,
            r@.policy == queue_policy,
            r@.lambda_num == lambda_num,
            r@.lambda_den == lambda_den,
            r@.wait =~= Seq::<u64>::empty(),
            r@.service =~= Seq::<u64>::empty(),
            r@.sojourn =~= Seq::<u64>::empty(),
            r@.occupancy_times =~= Seq::<u64>::empty(),
            r@.queue_len_times =~= Seq::<u64>::empty(),
    {
        let mut generator = ExponentialTime::new(seed);
        proof {
            assert(lambda_den * TICKS_PER_UNIT <= MAX_LAMBDA_DEN * TICKS_PER_UNIT)
                by (nonlinear_arith)
                requires 1 <= lambda_den <= MAX_LAMBDA_DEN;
        }
        let first_event_due = generator.get(lambda_num, lambda_den * TICKS_PER_UNIT);
        Queue {
            samples: SampleSet {
                wait: Sample::new(0),
                service: Sample::new(0),
                sojourn: Sample::new(0),
            },
            process_samples: ProcessSampleSet {
                occupancy: StochasticProcessSample::new(0),
                queue_length: StochasticProcessSample::new(0),
            },
            queue_policy,
            lambda_num,
            lambda_den,
            line: VecDeque::new(),
            client_in_service: None,
            next_arrival: Some(first_event_due),
            next_departure: None,
            current_time: 0,
            source: DurationSource::Random(generator),
            color: 0,
            mode: QueueMode::ForReal,
        }
    }

    /// A new engine for the scripted validation run: arrivals at times 0,
    /// 1, 2 and 3 of every 9-unit cycle, with a constant 2-unit service
    /// duration, so the expected metrics can be computed by hand.
    pub fn check_correctness(queue_policy: QueuePolicy) -> (r: Queue)
        ensures
            r.wf(),
            r@.line.len() == 0,
            r@.in_service is None,
            r@.next_departure is None,
            r@.next_arrival == Some(0u64),
            spec_occupancy(r@) == 0,
            r@.time == 0,
            r@.color == 0,
            r@.mode == QueueMode::CheckCorrectness,
            r@.policy == queue_policy,
            r@.source == (SourceView::FixedCycle {
                gaps: seq![
                    TICKS_PER_UNIT,
                    TICKS_PER_UNIT,
                    TICKS_PER_UNIT,
                    (6 * TICKS_PER_UNIT) as u64,
                ],
                idx: 0,
                service: (2 * TICKS_PER_UNIT) as u64,
            }),
            r@.wait =~= Seq::<u64>::empty(),
            r@.service =~= Seq::<u64>::empty(),
            r@.sojourn =~= Seq::<u64>::empty(),
            r@.occupancy_times =~= Seq::<u64>::empty(),
            r@.queue_len_times =~= Seq::<u64>::empty(),
    {
        let mut gaps: Vec<u64> = Vec::new();
        gaps.push(TICKS_PER_UNIT);
        gaps.push(TICKS_PER_UNIT);
        gaps.push(TICKS_PER_UNIT);
        gaps.push(6 * TICKS_PER_UNIT);
        proof {
            assert(gaps@ =~= seq![
                TICKS_PER_UNIT,
                TICKS_PER_UNIT,
                TICKS_PER_UNIT,
                (6 * TICKS_PER_UNIT) as u64,
            ]);
        }
        Queue {
            samples: SampleSet {
                wait: Sample::new(0),
                service: Sample::new(0),
                sojourn: Sample::new(0),
            },
            process_samples: ProcessSampleSet {
                occupancy: StochasticProcessSample::new(0),
                queue_length: StochasticProcessSample::new(0),
            },
            queue_policy,
            lambda_num: 1,
            lambda_den: 2,
            line: VecDeque::new(),
            client_in_service: None,
            next_arrival: Some(0),
            next_departure: None,
            current_time: 0,
            source: DurationSource::FixedCycle { gaps, idx: 0, service: 2 * TICKS_PER_UNIT },
            color: 0,
            mode: QueueMode::CheckCorrectness,
        }
    }

    /// Fresh accumulators for a round of about `num_samples` customers.
    fn initialize_sample_collectors(&mut self, num_samples: usize)
        ensures
            final (self)@ == (QueueView {
                wait: Seq::<u64>::empty(),
                service: Seq::<u64>::empty(),
                sojourn: Seq::<u64>::empty(),
                occupancy_times: Seq::<u64>::empty(),
                occupancy_levels: Seq::<u64>::empty(),
                queue_len_times: Seq::<u64>::empty(),
                queue_len_levels: Seq::<u64>::empty(),
                ..old(self)@
            }),
            final (self).process_samples.occupancy.wf(),
            final (self).process_samples.queue_length.wf(),
    {
        self.samples = SampleSet {
            wait: Sample::new(num_samples),
            service: Sample::new(num_samples),
            sojourn: Sample::new(num_samples),
        };
        self.process_samples = ProcessSampleSet {
            occupancy: StochasticProcessSample::new(num_samples),
            queue_length: StochasticProcessSample::new(num_samples),
        };
        proof {
            assert(self@ =~= (QueueView {
                wait: Seq::<u64>::empty(),
                service: Seq::<u64>::empty(),
                sojourn: Seq::<u64>::empty(),
                occupancy_times: Seq::<u64>::empty(),
                occupancy_levels: Seq::<u64>::empty(),
                queue_len_times: Seq::<u64>::empty(),
                queue_len_levels: Seq::<u64>::empty(),
                ..old(self)@
            }));
        }
    }

    /// Records the current occupancy and queue length.
    fn register_current_state_values(&mut self)
        requires
            old(self).process_samples.occupancy.wf(),
            old(self).process_samples.queue_length.wf(),
            last_time_of(old(self)@.occupancy_times) <= old(self)@.time,
            last_time_of(old(self)@.queue_len_times) <= old(self)@.time,
        ensures
            final (self)@ == spec_register_state(old(self)@),
            final (self).process_samples.occupancy.wf(),
            final (self).process_samples.queue_length.wf(),
    {
        let nq = self.line.len() as u64;
        // The occupancy level, wrapped exactly as the model reduces it; no
        // reachable line is anywhere near the wrap.
        let occ: u64 = if self.client_in_service.is_some() {
            if nq < u64::MAX {
                nq + 1
            } else {
                0
            }
        } else {
            nq
        };
        proof {
            let len = self.line@.len() as int;
            vstd::arithmetic::div_mod::lemma_small_mod(len as nat, 0x1_0000_0000_0000_0000);
            assert(nq == spec_level(len));
            if self.client_in_service.is_some() {
                if len + 1 < 0x1_0000_0000_0000_0000 {
                    vstd::arithmetic::div_mod::lemma_small_mod(
                        (len + 1) as nat,
                        0x1_0000_0000_0000_0000,
                    );
                } else {
                    vstd::arithmetic::div_mod::lemma_mod_self_0(0x1_0000_0000_0000_0000);
                }
                assert(occ == spec_level(spec_occupancy(self@)));
            }
        }
        let now = self.current_time;
        self.process_samples.occupancy.append(now, occ);
        self.process_samples.queue_length.append(now, nq);
        proof {
            assert(self@ =~= spec_register_state(old(self)@));
        }
    }

    /// Folds a finished customer's waiting, service and sojourn times into
    /// the round's accumulators.
    fn register_client_queue_and_server_times(&mut self, client: &Client)
        requires
            client.wait_start is Some,
            client.wait_end is Some,
            client.wait_start->Some_0 <= client.wait_end->Some_0,
            client.service_start is Some,
            client.service_end is Some,
            client.service_start->Some_0 <= client.service_end->Some_0,
        ensures
            final (self)@ == (QueueView {
                wait: old(self)@.wait.push(client.spec_event_time(Phase::Waiting) as u64),
                service: old(self)@.service.push(client.spec_event_time(Phase::Service) as u64),
                sojourn: old(self)@.sojourn.push(
                    spec_sat_add(
                        client.spec_event_time(Phase::Waiting) as u64,
                        client.spec_event_time(Phase::Service) as u64,
                    ),
                ),
                ..old(self)@
            }),
    {
        let w = client.calculate_event_time(Phase::Waiting);
        let x = client.calculate_event_time(Phase::Service);
        self.samples.wait.append(w);
        self.samples.service.append(x);
        self.samples.sojourn.append(sat_add(w, x));
        proof {
            assert(self@ =~= (QueueView {
                wait: old(self)@.wait.push(client.spec_event_time(Phase::Waiting) as u64),
                service: old(self)@.service.push(client.spec_event_time(Phase::Service) as u64),
                sojourn: old(self)@.sojourn.push(
                    spec_sat_add(
                        client.spec_event_time(Phase::Waiting) as u64,
                        client.spec_event_time(Phase::Service) as u64,
                    ),
                ),
                ..old(self)@
            }));
        }
    }

    /// Draws the next arrival gap and service duration from the source.
    fn draw_durations(&mut self) -> (r: (u64, u64))
        requires
            1 <= old(self)@.lambda_num < old(self)@.lambda_den <= MAX_LAMBDA_DEN,
            old(self)@.source matches SourceView::FixedCycle { gaps, idx, .. } ==> gaps.len() >= 1
                && 0 <= idx < gaps.len(),
        ensures
            final (self)@ == (QueueView { source: spec_source_step(old(self)@.source), ..old(
                self,
            )@ }),
            old(self)@.source is FixedCycle ==> r.0 == spec_fixed_gap(old(self)@.source) && r.1
                == spec_fixed_service(old(self)@.source),
    {
        let lambda_num = self.lambda_num;
        let lambda_den = self.lambda_den;
        let r = match &mut self.source {
            DurationSource::Random(generator) => {
                proof {
                    assert(lambda_den * TICKS_PER_UNIT <= MAX_LAMBDA_DEN * TICKS_PER_UNIT)
                        by (nonlinear_arith)
                        requires 1 <= lambda_den <= MAX_LAMBDA_DEN;
                }
                let gap = generator.get(lambda_num, lambda_den * TICKS_PER_UNIT);
                let svc = generator.get(1, TICKS_PER_UNIT);
                (gap, svc)
            },
            DurationSource::FixedCycle { gaps, idx, service } => {
                let cur: usize = *idx;
                let len: usize = gaps.len();
                proof {
                    assert(cur < len);
                }
                let gap = gaps[cur];
                let svc = *service;
                *idx = if cur + 1 == len {
                    0
                } else {
                    cur + 1
                };
                (gap, svc)
            },
        };
        proof {
            assert(self@ =~= (QueueView { source: spec_source_step(old(self)@.source), ..old(
                self,
            )@ }));
        }
        r
    }

    /// The next customer to serve, per the discipline: the oldest admission
    /// under first-come-first-served, the newest under
    /// last-come-first-served.
    fn get_next_client(&mut self) -> (r: Client)
        requires
            old(self)@.line.len() > 0,
        ensures
            (r, final (self)@.line) == spec_select_next(old(self)@.line, old(self)@.policy),
            final (self)@ == (QueueView { line: final (self)@.line, ..old(self)@ }),
    {
        let c = match self.queue_policy {
            QueuePolicy::FCFS => self.line.pop_front().unwrap(),
            QueuePolicy::LCFS => self.line.pop_back().unwrap(),
        };
        proof {
            assert(self@ =~= (QueueView { line: self@.line, ..old(self)@ }));
        }
        c
    }

    /// Processes an arrival at the current time: schedules the next
    /// arrival, admits a customer, and either serves it at once or appends
    /// it to the line.  Returns the two drawn durations, for the ghost
    /// record of the run.
    fn handle_arrival_event(&mut self) -> (d: Ghost<(u64, u64)>)
        requires
            spec_base_wf(old(self)@),
            old(self).process_samples.occupancy.wf(),
            old(self).process_samples.queue_length.wf(),
            old(self)@.next_arrival is None,
            old(self)@.next_departure is Some <==> old(self)@.in_service is Some,
            old(self)@.next_departure matches Some(t) ==> t >= old(self)@.time,
        ensures
            final (self)@ == spec_handle_arrival(old(self)@, d@.0, d@.1),
            old(self)@.source is FixedCycle ==> d@.0 == spec_fixed_gap(old(self)@.source) && d@.1
                == spec_fixed_service(old(self)@.source),
            final (self).wf(),
    {
        let (gap, svc) = self.draw_durations();
        let due = sat_add(self.current_time, gap);
        self.next_arrival = Some(due);
        let mut client = Client::new(svc, self.color);
        client.register_start(Phase::Waiting, self.current_time);
        if self.line.len() == 0 && self.client_in_service.is_none() {
            client.register_end(Phase::Waiting, self.current_time);
            client.register_start(Phase::Service, self.current_time);
            let departure_due = sat_add(self.current_time, client.x());
            self.next_departure = Some(departure_due);
            self.client_in_service = Some(client);
            proof {
                assert(self@ =~= spec_handle_arrival(old(self)@, gap, svc));
            }
        } else {
            self.line.push_back(client);
            self.register_current_state_values();
            proof {
                assert(self@ =~= spec_handle_arrival(old(self)@, gap, svc));
            }
        }
        Ghost((gap, svc))
    }

    /// Processes an end of service at the current time: closes the served
    /// customer's record, folds its metrics in when its tag matches the
    /// round, and either serves the next customer per the discipline or
    /// lets the server go idle; the state change is recorded.
    fn end_of_service_event(&mut self)
        requires
            spec_base_wf(old(self)@),
            old(self).process_samples.occupancy.wf(),
            old(self).process_samples.queue_length.wf(),
            old(self)@.next_departure is None,
            old(self)@.next_arrival is Some,
            old(self)@.next_arrival->Some_0 >= old(self)@.time,
        ensures
            final (self)@ == spec_end_of_service(old(self)@),
            final (self).wf(),
    {
        let mut current_wrapped_client: Option<Client> = None;
        core::mem::swap(&mut current_wrapped_client, &mut self.client_in_service);
        match current_wrapped_client {
            Some(mut current_client) => {
                current_client.register_end(Phase::Service, self.current_time);
                if current_client.color() == self.color {
                    self.register_client_queue_and_server_times(&current_client);
                }
                if self.line.len() > 0 {
                    let mut next_client = self.get_next_client();
                    next_client.register_end(Phase::Waiting, self.current_time);
                    next_client.register_start(Phase::Service, self.current_time);
                    let departure_due = sat_add(self.current_time, next_client.x());
                    self.next_departure = Some(departure_due);
                    self.client_in_service = Some(next_client);
                }
                self.register_current_state_values();
                proof {
                    assert(self@ =~= spec_end_of_service(old(self)@));
                }
            },
            None => {
                self.register_current_state_values();
                proof {
                    assert(self@ =~= spec_end_of_service(old(self)@));
                }
            },
        }
    }

    /// Selects the next due event (ties go to the arrival), advances the
    /// clock to it, consumes it, and processes it.  Returns the durations
    /// the step drew, for the ghost record of the run.
    pub fn process_next_event(&mut self) -> (d: Ghost<(u64, u64)>)
        requires
            old(self).wf(),
        ensures
            final (self)@ == spec_step(old(self)@, d@.0, d@.1),
            old(self)@.source is FixedCycle && spec_next_is_arrival(old(self)@) ==> d@.0
                == spec_fixed_gap(old(self)@.source) && d@.1 == spec_fixed_service(
                old(self)@.source,
            ),
            final (self).wf(),
    {
        let take_arrival = match (self.next_arrival, self.next_departure) {
            (Some(a), Some(dep)) => a <= dep,
            (Some(_), None) => true,
            _ => false,
        };
        if take_arrival {
            let t = self.next_arrival.unwrap();
            self.current_time = t;
            self.next_arrival = None;
            let d = self.handle_arrival_event();
            proof {
                assert(old(self)@.next_departure is Some <==> old(self)@.in_service is Some);
                assert(self@ == spec_step(old(self)@, d@.0, d@.1));
            }
            d
        } else {
            let t = self.next_departure.unwrap();
            self.current_time = t;
            self.next_departure = None;
            self.end_of_service_event();
            proof {
                assert(self@ == spec_step(old(self)@, 0u64, 0u64));
            }
            Ghost((0u64, 0u64))
        }
    }

    /// The engine state at the start of the warm-up: fresh (discarded)
    /// accumulators and the initial state change recorded.
    pub open spec fn spec_warmup_start(v: QueueView) -> QueueView {
        spec_register_state(
            QueueView {
                wait: Seq::<u64>::empty(),
                service: Seq::<u64>::empty(),
                sojourn: Seq::<u64>::empty(),
                occupancy_times: Seq::<u64>::empty(),
                occupancy_levels: Seq::<u64>::empty(),
                queue_len_times: Seq::<u64>::empty(),
                queue_len_levels: Seq::<u64>::empty(),
                ..v
            },
        )
    }

    /// The engine state at the start of a round: the round tag advanced,
    /// fresh accumulators, and the initial state change recorded.
    pub open spec fn spec_round_start(v: QueueView) -> QueueView {
        spec_register_state(
            QueueView {
                color: (v.color + 1) as u64,
                wait: Seq::<u64>::empty(),
                service: Seq::<u64>::empty(),
                sojourn: Seq::<u64>::empty(),
                occupancy_times: Seq::<u64>::empty(),
                occupancy_levels: Seq::<u64>::empty(),
                queue_len_times: Seq::<u64>::empty(),
                queue_len_levels: Seq::<u64>::empty(),
                ..v
            },
        )
    }

    /// Runs one measurement round: advances the round tag, resets the
    /// round's accumulators, records the initial state, then processes
    /// events until exactly `client_count` departures carrying the round's
    /// tag have completed (or the event budget is spent, a safeguard that no
    /// practical round reaches).  Returns the round's accumulators;
    /// ownership of the batch transfers to the caller and the engine's own
    /// collectors are left empty.
    ///
    /// The whole round is pinned to the specification-level run: the final
    /// state and the returned batches are `spec_run` of the prepared state
    /// under the sequence of durations that were drawn.
    pub fn run_one_simulation_round(&mut self, client_count: usize) -> (r: (
        SampleSet,
        ProcessSampleSet,
    ))
        requires
            old(self).wf(),
            old(self)@.color < u64::MAX,
        ensures
            final (self).wf(),
            final (self)@.color == old(self)@.color + 1,
            final (self)@.mode == old(self)@.mode,
            final (self)@.policy == old(self)@.policy,
            exists|ds: Seq<(u64, u64)>|
                #![trigger spec_run(Queue::spec_round_start(old(self)@), ds)]
                {
                    let end = spec_run(Queue::spec_round_start(old(self)@), ds);
                    &&& r.0.wait@ == end.wait
                    &&& r.0.service@ == end.service
                    &&& r.0.sojourn@ == end.sojourn
                    &&& r.1.occupancy.times@ == end.occupancy_times
                    &&& r.1.occupancy.values@ == end.occupancy_levels
                    &&& r.1.queue_length.times@ == end.queue_len_times
                    &&& r.1.queue_length.values@ == end.queue_len_levels
                    &&& r.1.occupancy.wf()
                    &&& r.1.queue_length.wf()
                    &&& final (self)@ == (QueueView {
                        wait: Seq::<u64>::empty(),
                        service: Seq::<u64>::empty(),
                        sojourn: Seq::<u64>::empty(),
                        occupancy_times: Seq::<u64>::empty(),
                        occupancy_levels: Seq::<u64>::empty(),
                        queue_len_times: Seq::<u64>::empty(),
                        queue_len_levels: Seq::<u64>::empty(),
                        ..end
                    })
                    &&& (spec_run_count(Queue::spec_round_start(old(self)@), ds)
                        == client_count || ds.len() == ROUND_EVENT_BUDGET)
                    // The occupancy invariant over the whole round: the two
                    // returned records are paired point for point.
                    &&& records_paired(end)
                },
    {
        self.color = self.color + 1;
        self.initialize_sample_collectors(client_count);
        self.register_current_state_values();
        let ghost start = self@;
        proof {
            assert(start =~= Queue::spec_round_start(old(self)@));
        }
        let ghost mut ds: Seq<(u64, u64)> = Seq::empty();
        let mut client: usize = 0;
        let mut steps: u64 = 0;
        while client < client_count && steps < ROUND_EVENT_BUDGET
            invariant
                self.wf(),
                client <= client_count,
                steps == ds.len(),
                steps <= ROUND_EVENT_BUDGET,
                self@ == spec_run(start, ds),
                client == spec_run_count(start, ds),
            decreases ROUND_EVENT_BUDGET - steps,
        {
            let departs_current = (match (self.next_arrival, self.next_departure) {
                (Some(a), Some(dep)) => dep < a,
                (None, Some(_)) => true,
                _ => false,
            }) && (match self.client_in_service {
                Some(c) => c.color == self.color,
                None => false,
            });
            proof {
                assert(departs_current == spec_step_counts(self@));
            }
            let d = self.process_next_event();
            proof {
                lemma_run_push(start, ds, d@);
                ds = ds.push(d@);
            }
            if departs_current {
                client = client + 1;
            }
            steps = steps + 1;
        }
        let mut out_samples = SampleSet {
            wait: Sample::new(0),
            service: Sample::new(0),
            sojourn: Sample::new(0),
        };
        core::mem::swap(&mut out_samples, &mut self.samples);
        let mut out_process_samples = ProcessSampleSet {
            occupancy: StochasticProcessSample::new(0),
            queue_length: StochasticProcessSample::new(0),
        };
        core::mem::swap(&mut out_process_samples, &mut self.process_samples);
        proof {
            let end = spec_run(Queue::spec_round_start(old(self)@), ds);
            lemma_run_preserves(start, ds);
            let reset = QueueView {
                color: (old(self)@.color + 1) as u64,
                wait: Seq::<u64>::empty(),
                service: Seq::<u64>::empty(),
                sojourn: Seq::<u64>::empty(),
                occupancy_times: Seq::<u64>::empty(),
                occupancy_levels: Seq::<u64>::empty(),
                queue_len_times: Seq::<u64>::empty(),
                queue_len_levels: Seq::<u64>::empty(),
                ..old(self)@
            };
            assert(records_paired(reset));
            lemma_register_pairing(reset);
            lemma_run_preserves_pairing(start, ds);
            assert(self@ =~= (QueueView {
                wait: Seq::<u64>::empty(),
                service: Seq::<u64>::empty(),
                sojourn: Seq::<u64>::empty(),
                occupancy_times: Seq::<u64>::empty(),
                occupancy_levels: Seq::<u64>::empty(),
                queue_len_times: Seq::<u64>::empty(),
                queue_len_levels: Seq::<u64>::empty(),
                ..end
            }));
        }
        (out_samples, out_process_samples)
    }

    /// Runs the warm-up (stationarity) detector: processes events while
    /// accumulating the server's busy time, and stops once the observed
    /// utilization `busy / elapsed` has stayed within 1% relative
    /// difference of the target utilization for 500 consecutive events —
    /// unless the event budget runs out first (a heuristic, not a fixed
    /// length).  Returns the number of events consumed, so the driver can
    /// discard the initial bias before measuring; the contract ties that
    /// count to the witnessed run: either the budget was spent, or the run's
    /// last 500 steps each passed the 1% closeness test
    /// (`spec_warmup_counters`).
    pub fn transient_phase(&mut self) -> (r: usize)
        requires
            old(self).wf(),
        ensures
            final (self).wf(),
            final (self)@.color == old(self)@.color,
            final (self)@.mode == old(self)@.mode,
            final (self)@.policy == old(self)@.policy,
            final (self)@.lambda_num == old(self)@.lambda_num,
            final (self)@.lambda_den == old(self)@.lambda_den,
            r <= TRANSIENT_EVENT_BUDGET,
            exists|ds: Seq<(u64, u64)>|
                #![trigger spec_run(Queue::spec_warmup_start(old(self)@), ds)]
                {
                    let prepared = Queue::spec_warmup_start(old(self)@);
                    &&& final (self)@ == spec_run(prepared, ds)
                    &&& r == ds.len()
                    &&& (ds.len() == TRANSIENT_EVENT_BUDGET || spec_warmup_counters(
                        prepared,
                        ds,
                        0,
                        0,
                    ).1 == 500)
                },
    {
        // The metrics collected while warming up are discarded.
        self.initialize_sample_collectors(5000);
        self.register_current_state_values();
        let ghost start = self@;
        proof {
            assert(start =~= Queue::spec_warmup_start(old(self)@));
        }
        let ghost mut ds: Seq<(u64, u64)> = Seq::empty();
        let mut busy_time: u64 = 0;
        let mut transient_phase_counter: u64 = 0;
        let mut stable_queue_counter: u64 = 0;
        while stable_queue_counter < 500 && transient_phase_counter < TRANSIENT_EVENT_BUDGET
            invariant
                self.wf(),
                transient_phase_counter == ds.len(),
                transient_phase_counter <= TRANSIENT_EVENT_BUDGET,
                self@ == spec_run(start, ds),
                (busy_time, stable_queue_counter) == spec_warmup_counters(start, ds, 0, 0),
                stable_queue_counter <= 500,
            decreases TRANSIENT_EVENT_BUDGET - transient_phase_counter,
        {
            // The due time of the event about to fire.
            let event_time = match (self.next_arrival, self.next_departure) {
                (Some(a), Some(dep)) => if a <= dep {
                    a
                } else {
                    dep
                },
                (Some(a), None) => a,
                (None, Some(dep)) => dep,
                (None, None) => self.current_time,
            };
            // Time the server spends busy until that event.
            let busy_increment = if self.line.len() > 0 || self.client_in_service.is_some() {
                event_time - self.current_time
            } else {
                0
            };
            proof {
                assert(busy_increment == spec_busy_increment(self@));
            }
            busy_time = sat_add(busy_time, busy_increment);
            let d = self.process_next_event();
            proof {
                lemma_run_push(start, ds, d@);
                lemma_warmup_counters_push(start, ds, d@, 0, 0);
                ds = ds.push(d@);
            }
            transient_phase_counter = transient_phase_counter + 1;
            // Observed utilization against the target, by exact
            // cross-multiplication: close means 1 - min/max <= 1/100.
            let close = if self.current_time > 0 {
                proof {
                    assert((busy_time as int) * (self.lambda_den as int) <= u64::MAX
                        * MAX_LAMBDA_DEN) by (nonlinear_arith)
                        requires
                            busy_time <= u64::MAX,
                            self.lambda_den <= MAX_LAMBDA_DEN,
                    ;
                    assert((self.lambda_num as int) * (self.current_time as int) <= u64::MAX
                        * MAX_LAMBDA_DEN) by (nonlinear_arith)
                        requires
                            self.current_time <= u64::MAX,
                            self.lambda_num <= MAX_LAMBDA_DEN,
                    ;
                }
                let p: u128 = (busy_time as u128) * (self.lambda_den as u128);
                let q: u128 = (self.lambda_num as u128) * (self.current_time as u128);
                let lo: u128 = if p <= q {
                    p
                } else {
                    q
                };
                let hi: u128 = if p <= q {
                    q
                } else {
                    p
                };
                100 * lo >= 99 * hi
            } else {
                false
            };
            proof {
                assert(close == spec_utilization_close(self@, busy_time));
            }
            if close {
                stable_queue_counter = stable_queue_counter + 1;
            } else {
                stable_queue_counter = 0;
            }
        }
        proof {
            lemma_run_preserves(start, ds);
        }
        transient_phase_counter as usize
    }
}

/// Law: in a well-formed state with no pending end of service — as a fresh
/// engine is, for every utilization — the next event selected is the
/// Arrival; until it is processed the system holds no customer, so the
/// occupancy is zero.
pub proof fn lemma_first_event_is_arrival(v: QueueView)
    requires
        spec_queue_wf(v),
        v.next_departure is None,
    ensures
        spec_next_is_arrival(v),
        v.in_service is None ==> spec_occupancy(v) == 0,
{
}

/// Law: first-come-first-served preserves admission order.  Once the first
/// `k` admitted customers have left the line, the next to be selected is
/// the one admitted `k`-th: the nth customer admitted to the line is the
/// nth to depart it.
pub proof fn lemma_fcfs_preserves_order(line: Seq<Client>, k: int)
    requires
        0 <= k < line.len(),
    ensures
        spec_select_next(line.subrange(k, line.len() as int), QueuePolicy::FCFS).0 == line[k],
        spec_select_next(line.subrange(k, line.len() as int), QueuePolicy::FCFS).1
            == line.subrange(k + 1, line.len() as int),
{
    let rest = line.subrange(k, line.len() as int);
    assert(rest[0] == line[k]);
    assert(rest.subrange(1, rest.len() as int) =~= line.subrange(k + 1, line.len() as int));
}

/// Law: last-come-first-served reverses admission order: after any
/// admission, the customer selected next is the one that was admitted most
/// recently, and the rest of the line is untouched.
pub proof fn lemma_lcfs_newest_departs_next(line: Seq<Client>, c: Client)
    ensures
        spec_select_next(line.push(c), QueuePolicy::LCFS).0 == c,
        spec_select_next(line.push(c), QueuePolicy::LCFS).1 == line,
{
    assert(line.push(c).drop_last() =~= line);
}

/// Law: the end-of-service transition itself obeys the discipline.  With a
/// nonempty line, first-come-first-served puts the oldest admission (the
/// line's front) into service and keeps the rest in order;
/// last-come-first-served puts the newest admission (the line's back) into
/// service and leaves the others untouched.
pub proof fn lemma_end_of_service_follows_discipline(v: QueueView)
    requires
        spec_queue_wf(v),
        v.in_service is Some,
        v.line.len() > 0,
    ensures
        ({
            let w = spec_end_of_service(v);
            let chosen = spec_select_next(v.line, v.policy).0;
            &&& w.in_service matches Some(c) && c.x == chosen.x && c.color == chosen.color
                && c.wait_start == chosen.wait_start
            &&& v.policy == QueuePolicy::FCFS ==> w.line == v.line.subrange(
                1,
                v.line.len() as int,
            )
            &&& v.policy == QueuePolicy::LCFS ==> w.line == v.line.drop_last()
        }),
{
}

/// Law: the occupancy invariant holds after every event.  The occupancy is
/// by definition `queue_length + (1 if busy else 0)`; whenever a step
/// records a state change, the recorded levels equal exactly the new
/// state's occupancy and queue length, at the new state's time.
pub proof fn lemma_occupancy_recorded(v: QueueView, gap: u64, svc: u64)
    requires
        spec_queue_wf(v),
    ensures
        ({
            let w = spec_step(v, gap, svc);
            w.occupancy_levels.len() > v.occupancy_levels.len() ==> {
                &&& w.occupancy_levels.last() == spec_level(spec_occupancy(w))
                &&& w.occupancy_times.last() == w.time
                &&& w.queue_len_levels.last() == spec_level(w.line.len() as int)
                &&& w.queue_len_times.last() == w.time
            }
        }),
{
}

/// One step of a fixed-cycle engine, with the durations the cycle itself
/// pins down.
pub open spec fn spec_step_fixed(v: QueueView) -> QueueView {
    spec_step(v, spec_fixed_gap(v.source), spec_fixed_service(v.source))
}

/// A fixed-cycle run of `n` steps: a pure function of the starting state.
pub open spec fn spec_run_fixed(v: QueueView, n: nat) -> QueueView
    decreases n,
{
    if n == 0 {
        v
    } else {
        spec_run_fixed(spec_step_fixed(v), (n - 1) as nat)
    }
}

/// Law (determinism): a step of a fixed-cycle engine does not depend on
/// which durations an arrival happened to draw — the cycle pins them — so
/// together with `process_next_event`'s contract, two engines built alike
/// produce identical event timestamps and identical samples, step by step.
/// For the random source the same contract pins the run as a function of
/// the drawn durations; that identical seeds reproduce identical draws is
/// the seeded generator's documented behaviour, exercised by test.
pub proof fn lemma_fixed_step_pinned(v: QueueView, gap: u64, svc: u64)
    requires
        v.source is FixedCycle,
        spec_next_is_arrival(v) ==> gap == spec_fixed_gap(v.source) && svc == spec_fixed_service(
            v.source,
        ),
    ensures
        spec_step(v, gap, svc) == spec_step_fixed(v),
{
}

/// Law (determinism, run form): fixed-cycle runs from equal states are
/// equal, for every length.
pub proof fn lemma_fixed_run_deterministic(a: QueueView, b: QueueView, n: nat)
    requires
        a == b,
    ensures
        spec_run_fixed(a, n) == spec_run_fixed(b, n),
{
}

/// Events a round may process before it gives up: a safeguard only, far
/// beyond any practical round.
pub const ROUND_EVENT_BUDGET: u64 = 0x1000_0000_0000_0000;

/// Events the warm-up detector may process before it gives up.
pub const TRANSIENT_EVENT_BUDGET: u64 = 100_000_000;

} // verus!
