//! A single-server waiting-line simulator with verified bookkeeping.
//!
//! The simulated clock runs in integer ticks (`TICKS_PER_UNIT` ticks make one
//! time unit), so every statistic the library reports is exact integer or
//! rational arithmetic: sample means and variances, time-weighted means and
//! variances of occupancy processes, and the confidence intervals derived
//! from them.  Randomness enters only through the exponential variate
//! generator, which draws from a seeded pseudo-random source.

use vstd::prelude::*;

pub mod arith;
pub mod client;
pub mod confidence_interval;
pub mod driver;
pub mod exponential_time_generator;
pub mod queue;
pub mod ratio;
pub mod sample;
pub mod stochastic_process_sample;

verus! {

/// Number of clock ticks in one simulated time unit.
pub const TICKS_PER_UNIT: u64 = 1_000_000;

} // verus!
