//! The variate generator: a seeded pseudo-random source of exponentially
//! distributed durations, measured in ticks.
//!
//! Only uniform 64-bit words are taken from the `rand` crate, behind a
//! trusted wrapper.  The exponential transform itself is verified code: von
//! Neumann's comparison method draws an `Exp(1)` variate `k + x / 2^64`
//! using nothing but uniform words and comparisons (a candidate `x` is
//! accepted exactly when the maximal decreasing run of fresh words below it
//! has even length, which happens with probability `e^(-x)`), and the
//! variate is then rescaled to the requested rate in exact fixed-point
//! arithmetic.

use vstd::prelude::*;

verus! {

#[verifier::external_type_specification]
#[verifier::external_body]
/// Declares `rand::rngs::StdRng` so that a generator can be held in a
/// field; the value is opaque to the verifier.
pub struct ExStdRng(rand::rngs::StdRng);

/// Relies on `rand::SeedableRng::seed_from_u64` for `rand::rngs::StdRng`:
/// builds the pseudo-random generator from a seed, deterministically.
#[verifier::external_body]
fn rng_from_seed(seed: u64) -> rand::rngs::StdRng {
    <rand::rngs::StdRng as rand::SeedableRng>::seed_from_u64(seed)
}

/// Relies on `rand::RngCore::next_u64`: the next uniformly distributed
/// 64-bit word of the seeded stream.  Nothing can be promised of a random
/// value; callers must be correct for every outcome.
#[verifier::external_body]
fn next_u64(rng: &mut rand::rngs::StdRng) -> u64 {
    rand::RngCore::next_u64(rng)
}

/// Outer rejection rounds attempted before the draw gives up and returns
/// the capped value; the probability of ever reaching the cap is about
/// `e^(-EXP_ROUNDS)`.
pub const EXP_ROUNDS: u64 = 1024;

/// One word is 2^64; the unit interval is represented in 1/2^64 steps.
pub const WORD_SCALE: u128 = 0x1_0000_0000_0000_0000;

/// Largest accepted rate denominator, so that the fixed-point rescaling
/// never overflows a `u128`.
pub const MAX_RATE_DEN: u64 = 0x1_0000_0000_0000;

/// The rescaled duration in ticks: `(k + x/2^64) * rate_den / rate_num`,
/// rounded down.
pub open spec fn spec_ticks_of(k: u64, x: u64, rate_num: u64, rate_den: u64) -> int {
    (((k * WORD_SCALE + x) * rate_den) / rate_num as int) / WORD_SCALE as int
}

/// Rescales an `Exp(1)` fixed-point variate `k + x/2^64` to a duration in
/// ticks at rate `rate_num / rate_den` per tick, exactly.
fn ticks_from_sample(k: u64, x: u64, rate_num: u64, rate_den: u64) -> (r: u64)
    requires
        rate_num >= 1,
        1 <= rate_den <= MAX_RATE_DEN,
        k <= EXP_ROUNDS,
    ensures
        r == spec_ticks_of(k, x, rate_num, rate_den),
        r <= (k + 1) * rate_den,
{
    proof {
        assert((k as int) * WORD_SCALE + x < (EXP_ROUNDS + 1) * WORD_SCALE) by (nonlinear_arith)
            requires k <= EXP_ROUNDS && x < WORD_SCALE;
        assert(((EXP_ROUNDS + 1) * WORD_SCALE) * MAX_RATE_DEN <= u128::MAX);
        assert(((k as int) * WORD_SCALE + x) * rate_den <= ((EXP_ROUNDS + 1) * WORD_SCALE)
            * MAX_RATE_DEN) by (nonlinear_arith)
            requires
                0 <= (k as int) * WORD_SCALE + x < (EXP_ROUNDS + 1) * WORD_SCALE,
                1 <= rate_den <= MAX_RATE_DEN,
        ;
    }
    let e: u128 = (k as u128) * WORD_SCALE + (x as u128);
    let scaled: u128 = e * (rate_den as u128);
    let q: u128 = scaled / (rate_num as u128);
    let t: u128 = q / WORD_SCALE;
    proof {
        let bound = ((k + 1) * rate_den) as int;
        assert(bound * (WORD_SCALE as int) <= ((EXP_ROUNDS + 1) * MAX_RATE_DEN) * WORD_SCALE
            && scaled <= bound * (WORD_SCALE as int)) by (nonlinear_arith)
            requires
                scaled == ((k as int) * WORD_SCALE + x) * rate_den,
                0 <= (k as int) * WORD_SCALE + x < (k + 1) * WORD_SCALE,
                bound == (k + 1) * rate_den,
                k <= EXP_ROUNDS,
                1 <= rate_den <= MAX_RATE_DEN,
        ;
        vstd::arithmetic::div_mod::lemma_div_is_ordered(
            q as int,
            bound * (WORD_SCALE as int),
            WORD_SCALE as int,
        );
        vstd::arithmetic::div_mod::lemma_div_is_ordered(
            scaled as int,
            bound * (WORD_SCALE as int),
            rate_num as int,
        );
        vstd::arithmetic::div_mod::lemma_div_by_multiple(bound, WORD_SCALE as int);
        assert(q <= bound * (WORD_SCALE as int)) by {
            assert((scaled as int) / (rate_num as int) <= scaled as int) by (nonlinear_arith)
                requires rate_num >= 1 && scaled >= 0;
        }
        assert(t <= bound);
        assert(bound <= ((EXP_ROUNDS + 1) * MAX_RATE_DEN)) by (nonlinear_arith)
            requires
                bound == (k + 1) * rate_den,
                k <= EXP_ROUNDS,
                rate_den <= MAX_RATE_DEN,
        ;
        assert((EXP_ROUNDS + 1) * MAX_RATE_DEN <= u64::MAX);
    }
    t as u64
}

/// A seeded source of exponentially distributed tick counts.
pub struct ExponentialTime {
    rng: rand::rngs::StdRng,
}

impl ExponentialTime {
    /// A generator seeded deterministically: identical seeds reproduce
    /// identical draw sequences.
    pub fn new(seed: u64) -> ExponentialTime {
        ExponentialTime { rng: rng_from_seed(seed) }
    }

    /// One exponentially distributed duration with rate
    /// `rate_num / rate_den` per tick.  Which duration comes back is the
    /// draw's business — callers must be correct for every value — but every
    /// outcome is some rescaled fixed-point variate `k + x/2^64` with at
    /// most `EXP_ROUNDS` whole units, so the result never exceeds
    /// `(EXP_ROUNDS + 1) * rate_den` ticks.
    pub fn get(&mut self, rate_num: u64, rate_den: u64) -> (r: u64)
        requires
            rate_num >= 1,
            1 <= rate_den <= MAX_RATE_DEN,
        ensures
            exists|k: u64, x: u64|
                k <= EXP_ROUNDS && r == #[trigger] spec_ticks_of(k, x, rate_num, rate_den),
            r <= (EXP_ROUNDS + 1) * rate_den,
    {
        let mut k: u64 = 0;
        while k < EXP_ROUNDS
            invariant
                k <= EXP_ROUNDS,
                rate_num >= 1,
                1 <= rate_den <= MAX_RATE_DEN,
            decreases EXP_ROUNDS - k,
        {
            let x = next_u64(&mut self.rng);
            // Length of the maximal strictly decreasing run of fresh words
            // starting below the candidate.
            let mut run: u64 = 0;
            let mut prev: u64 = x;
            while run < 64
                invariant
                    run <= 64,
                decreases 64 - run,
            {
                let u = next_u64(&mut self.rng);
                if u < prev {
                    prev = u;
                    run = run + 1;
                } else {
                    break ;
                }
            }
            if run % 2 == 0 {
                let t = ticks_from_sample(k, x, rate_num, rate_den);
                proof {
                    assert((k + 1) * rate_den <= (EXP_ROUNDS + 1) * rate_den) by (nonlinear_arith)
                        requires k <= EXP_ROUNDS && rate_den >= 1;
                    assert(t == spec_ticks_of(k, x, rate_num, rate_den));
                }
                return t;
            }
            k = k + 1;
        }
        // Never reached in practice; cap the variate at EXP_ROUNDS means.
        let t = ticks_from_sample(EXP_ROUNDS, 0, rate_num, rate_den);
        proof {
            assert(t == spec_ticks_of(EXP_ROUNDS, 0, rate_num, rate_den));
        }
        t
    }
}

} // verus!
