//! The queue engine: the first scheduled event, the service disciplines,
//! the occupancy invariant, determinism, and the scripted validation cycle.

use mm1_sim::arith::isqrt_u128;
use mm1_sim::client::Client;
use mm1_sim::exponential_time_generator::ExponentialTime;
use mm1_sim::queue::{Queue, QueuePolicy};
use mm1_sim::TICKS_PER_UNIT;

const T: u64 = TICKS_PER_UNIT;

#[test]
fn first_scheduled_event_is_an_arrival() {
    // For several utilizations: a fresh engine has exactly one pending
    // event, an Arrival, and holds no customer (occupancy zero).
    for (num, den) in [(1u64, 2u64), (1, 1000), (9, 10), (999, 1000)] {
        let q = Queue::new(num, den, QueuePolicy::FCFS, 7);
        assert!(q.next_arrival.is_some());
        assert!(q.next_departure.is_none());
        assert!(q.client_in_service.is_none());
        assert_eq!(q.line.len(), 0);
        assert_eq!(q.current_time, 0);
    }
    let q = Queue::check_correctness(QueuePolicy::LCFS);
    assert_eq!(q.next_arrival, Some(0));
    assert!(q.next_departure.is_none());
    assert!(q.client_in_service.is_none());
    assert_eq!(q.line.len(), 0);
}

#[test]
fn occupancy_stays_zero_until_first_arrival() {
    let mut q = Queue::check_correctness(QueuePolicy::FCFS);
    // Before any event: empty.
    assert_eq!(q.line.len(), 0);
    assert!(q.client_in_service.is_none());
    // The first processed event is the arrival, after which the customer
    // is in service.
    let _ = q.process_next_event();
    assert!(q.client_in_service.is_some());
}

#[test]
fn fcfs_departs_in_admission_order() {
    // The scripted cycle admits at 0, 1, 2, 3 with 2-unit service: under
    // first-come-first-served the waiting times come out 0, 1, 2, 3 units,
    // in admission order.
    let mut q = Queue::check_correctness(QueuePolicy::FCFS);
    let (samples, _) = q.run_one_simulation_round(4);
    assert_eq!(samples.wait.values, vec![0, T, 2 * T, 3 * T]);
    assert_eq!(samples.service.values, vec![2 * T, 2 * T, 2 * T, 2 * T]);
    assert_eq!(samples.sojourn.values, vec![2 * T, 3 * T, 4 * T, 5 * T]);
}

#[test]
fn lcfs_departs_newest_first() {
    // Same cycle under last-come-first-served: the first departure waited
    // 0; at each end of service the most recently admitted waiting
    // customer is taken, so the waits come out 0, 0, 1, 5 units.
    let mut q = Queue::check_correctness(QueuePolicy::LCFS);
    let (samples, _) = q.run_one_simulation_round(4);
    assert_eq!(samples.wait.values, vec![0, 0, T, 5 * T]);
}

#[test]
fn occupancy_invariant_after_every_event() {
    // After every processed event, the last recorded occupancy level (when
    // one was recorded) equals queue length plus one if the server is
    // busy; the recorded queue length matches the line.
    let mut q = Queue::new(3, 4, QueuePolicy::FCFS, 11);
    let mut last_len = q.process_samples.occupancy.values.len();
    for _ in 0..300 {
        let _ = q.process_next_event();
        let occ_now =
            q.line.len() as u64 + if q.client_in_service.is_some() { 1 } else { 0 };
        let recorded = &q.process_samples.occupancy;
        if recorded.values.len() > last_len {
            assert_eq!(*recorded.values.last().unwrap(), occ_now);
            assert_eq!(*recorded.times.last().unwrap(), q.current_time);
            assert_eq!(
                *q.process_samples.queue_length.values.last().unwrap(),
                q.line.len() as u64
            );
        }
        last_len = recorded.values.len();
    }
}

#[test]
fn identical_seeds_reproduce_identical_runs() {
    // Two engines with the same seed, utilization and discipline produce
    // identical event timestamps, step by step, and identical samples.
    let mut a = Queue::new(1, 2, QueuePolicy::FCFS, 12345);
    let mut b = Queue::new(1, 2, QueuePolicy::FCFS, 12345);
    for _ in 0..2000 {
        let _ = a.process_next_event();
        let _ = b.process_next_event();
        assert_eq!(a.current_time, b.current_time);
        assert_eq!(a.line.len(), b.line.len());
    }
    let (sa, pa) = a.run_one_simulation_round(200);
    let (sb, pb) = b.run_one_simulation_round(200);
    assert_eq!(sa.wait.values, sb.wait.values);
    assert_eq!(sa.sojourn.values, sb.sojourn.values);
    assert_eq!(pa.occupancy.times, pb.occupancy.times);
    assert_eq!(pa.occupancy.values, pb.occupancy.values);
    assert_eq!(pb.queue_length.values, pa.queue_length.values);
}

#[test]
fn scripted_runs_are_deterministic() {
    let mut a = Queue::check_correctness(QueuePolicy::LCFS);
    let mut b = Queue::check_correctness(QueuePolicy::LCFS);
    let (sa, _) = a.run_one_simulation_round(40);
    let (sb, _) = b.run_one_simulation_round(40);
    assert_eq!(sa.wait.values, sb.wait.values);
}

#[test]
fn round_tags_exclude_customers_of_earlier_rounds() {
    // Exactly the requested number of tagged departures is sampled each
    // round.
    let mut q = Queue::check_correctness(QueuePolicy::FCFS);
    let (s1, _) = q.run_one_simulation_round(8);
    assert_eq!(s1.wait.values.len(), 8);
    let (s2, _) = q.run_one_simulation_round(8);
    assert_eq!(s2.wait.values.len(), 8);
}

#[test]
fn client_phase_bookkeeping() {
    let mut c = Client::new(250, 3);
    assert_eq!(c.x(), 250);
    assert_eq!(c.color(), 3);
    c.register_start(mm1_sim::client::Phase::Waiting, 100);
    c.register_end(mm1_sim::client::Phase::Waiting, 140);
    c.register_start(mm1_sim::client::Phase::Service, 140);
    c.register_end(mm1_sim::client::Phase::Service, 390);
    assert_eq!(c.calculate_event_time(mm1_sim::client::Phase::Waiting), 40);
    assert_eq!(c.calculate_event_time(mm1_sim::client::Phase::Service), 250);
}

#[test]
fn exponential_generator_is_seed_deterministic_and_calibrated() {
    let mut g1 = ExponentialTime::new(99);
    let mut g2 = ExponentialTime::new(99);
    for _ in 0..100 {
        assert_eq!(g1.get(1, T), g2.get(1, T));
    }
    // The empirical mean of draws at rate 1 per unit stays within 5% of
    // one unit (deterministic for this seed).
    let mut g = ExponentialTime::new(4242);
    let mut total: u128 = 0;
    let n = 20000u128;
    for _ in 0..n {
        total += g.get(1, T) as u128;
    }
    let mean = total / n;
    assert!(mean > (T as u128) * 95 / 100, "mean too small: {mean}");
    assert!(mean < (T as u128) * 105 / 100, "mean too large: {mean}");
}

#[test]
fn integer_square_root_is_exact() {
    assert_eq!(isqrt_u128(0), 0);
    assert_eq!(isqrt_u128(1), 1);
    assert_eq!(isqrt_u128(3), 1);
    assert_eq!(isqrt_u128(4), 2);
    assert_eq!(isqrt_u128(403618), 635);
    assert_eq!(isqrt_u128(u128::MAX), (1u128 << 64) - 1);
}
