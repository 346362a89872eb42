//! A 95%-confidence interval: lower and upper bound, with the derived
//! center, relative precision, the convergence test between two intervals,
//! and the containment test with a small relative slack at the boundary.
//!
//! Bounds are plain integers in whatever unit the statistic was measured in
//! (ticks, or scaled ticks squared), kept within `CI_BOUND` so that every
//! derived comparison fits comfortably in `i128`.

use crate::ratio::Ratio;
use vstd::prelude::*;

verus! {

/// Magnitude bound on interval ends; generous enough for every statistic the
/// library produces, small enough that `i128` products never overflow.
pub const CI_BOUND: i128 = 1_267_650_600_228_229_401_496_703_205_376;

/// A confidence interval `[lower, upper]`.
#[derive(Clone, Copy, Debug)]
pub struct ConfidenceInterval {
    /// The lower end.
    pub lower: i128,
    /// The upper end.
    pub upper: i128,
}

impl ConfidenceInterval {
    /// Bounds ordered and within range.
    pub open spec fn wf(self) -> bool {
        -CI_BOUND <= self.lower <= self.upper <= CI_BOUND
    }

    pub open spec fn spec_lower(self) -> i128 {
        self.lower
    }

    pub open spec fn spec_upper(self) -> i128 {
        self.upper
    }

    /// Twice the center of an interval, which avoids the halving.
    pub open spec fn twice_center(self) -> int {
        self.lower + self.upper
    }

    /// Builds the interval `[lower, upper]`.
    pub fn new(lower: i128, upper: i128) -> (r: ConfidenceInterval)
        requires
            -CI_BOUND <= lower <= upper <= CI_BOUND,
        ensures
            r.spec_lower() == lower,
            r.spec_upper() == upper,
            r.wf(),
    {
        ConfidenceInterval { lower, upper }
    }

    /// The lower bound.
    pub fn lower_bound(&self) -> (r: i128)
        ensures
            r == self.spec_lower(),
    {
        self.lower
    }

    /// The upper bound.
    pub fn upper_bound(&self) -> (r: i128)
        ensures
            r == self.spec_upper(),
    {
        self.upper
    }

    /// The center `(lower + upper) / 2`, as the exact fraction
    /// `(lower + upper, 2)`.
    pub fn center(&self) -> (r: (i128, i128))
        requires
            self.wf(),
        ensures
            r.0 == self.twice_center(),
            r.1 == 2,
    {
        (self.lower + self.upper, 2)
    }

    /// The relative precision `(upper - lower) / (upper + lower)`, exact.
    /// Defined only when the interval sits in positive territory, as the
    /// intervals around the reported statistics do.
    pub fn precision(&self) -> (r: Ratio)
        requires
            self.wf(),
            self.lower + self.upper >= 1,
        ensures
            r.num == self.upper - self.lower,
            r.den == self.lower + self.upper,
            r.wf(),
    {
        Ratio::new((self.upper - self.lower) as u128, (self.lower + self.upper) as u128)
    }

    /// Whether the relative precision is at most `p_num / p_den`.  An
    /// interval that does not sit in positive territory has no meaningful
    /// relative precision and never passes.
    pub open spec fn spec_precision_at_most(self, p_num: i128, p_den: i128) -> bool {
        self.lower + self.upper >= 1
            && (self.upper - self.lower) * p_den <= (self.lower + self.upper) * p_num
    }

    /// Tests `(upper - lower) / (upper + lower) <= p_num / p_den` exactly.
    pub fn precision_at_most(&self, p_num: i128, p_den: i128) -> (r: bool)
        requires
            self.wf(),
            0 <= p_num <= 0x100000,
            1 <= p_den <= 0x100000,
        ensures
            r == self.spec_precision_at_most(p_num, p_den),
    {
        let s = self.lower + self.upper;
        if s < 1 {
            return false;
        }
        proof {
            assert((self.upper - self.lower) * p_den <= (2 * CI_BOUND) * 0x100000)
                by (nonlinear_arith)
                requires
                    0 <= self.upper - self.lower <= 2 * CI_BOUND,
                    1 <= p_den <= 0x100000,
            ;
            assert(s * p_num <= (2 * CI_BOUND) * 0x100000 && s * p_num >= 0) by (nonlinear_arith)
                requires
                    1 <= s <= 2 * CI_BOUND,
                    0 <= p_num <= 0x100000,
            ;
        }
        (self.upper - self.lower) * p_den <= s * p_num
    }

    /// Convergence of two intervals: each interval's center lies strictly
    /// inside the other interval.
    pub open spec fn spec_convergence(first: ConfidenceInterval, second: ConfidenceInterval) -> bool {
        2 * second.lower < first.twice_center() < 2 * second.upper
            && 2 * first.lower < second.twice_center() < 2 * first.upper
    }

    /// Tests the convergence of two intervals.
    pub fn check_convergence(first: ConfidenceInterval, second: ConfidenceInterval) -> (r: bool)
        requires
            first.wf(),
            second.wf(),
        ensures
            r == ConfidenceInterval::spec_convergence(first, second),
    {
        let fc = first.lower + first.upper;
        let sc = second.lower + second.upper;
        2 * second.lower < fc && fc < 2 * second.upper && 2 * first.lower < sc && sc < 2 * first.upper
    }

    /// Two values are relatively close when the smaller is at least 99% of
    /// the larger: `1 - min/max <= 1/100`.
    pub open spec fn spec_rel_close(a: int, b: int) -> bool {
        if a <= b {
            100 * a >= 99 * b
        } else {
            100 * b >= 99 * a
        }
    }

    /// Whether a value lies within the bounds, tolerating about 1% relative
    /// slack at either boundary.
    pub open spec fn spec_value_is_inside(self, value: i128) -> bool {
        (self.lower <= value || ConfidenceInterval::spec_rel_close(self.lower as int, value as int))
            && (value <= self.upper
                || ConfidenceInterval::spec_rel_close(self.upper as int, value as int))
    }

    /// Tests whether a value lies within the bounds, with the boundary slack.
    pub fn value_is_inside(&self, value: i128) -> (r: bool)
        requires
            self.wf(),
            -CI_BOUND <= value <= CI_BOUND,
        ensures
            r == self.spec_value_is_inside(value),
    {
        let low_ok = self.lower <= value || rel_close(self.lower, value);
        let high_ok = value <= self.upper || rel_close(self.upper, value);
        low_ok && high_ok
    }
}

/// Tests `spec_rel_close` on two bounded values.
fn rel_close(a: i128, b: i128) -> (r: bool)
    requires
        -CI_BOUND <= a <= CI_BOUND,
        -CI_BOUND <= b <= CI_BOUND,
    ensures
        r == ConfidenceInterval::spec_rel_close(a as int, b as int),
{
    if a <= b {
        100 * a >= 99 * b
    } else {
        100 * b >= 99 * a
    }
}

/// Convergence is symmetric: the test does not depend on the order of the
/// two intervals.
pub proof fn lemma_convergence_symmetric(a: ConfidenceInterval, b: ConfidenceInterval)
    ensures
        ConfidenceInterval::spec_convergence(a, b) == ConfidenceInterval::spec_convergence(b, a),
{
}

/// An interval converges with itself whenever its own center lies strictly
/// inside it, which holds exactly for nondegenerate intervals.
pub proof fn lemma_convergence_reflexive(a: ConfidenceInterval)
    requires
        a.wf(),
        a.spec_lower() < a.spec_upper(),
    ensures
        ConfidenceInterval::spec_convergence(a, a),
{
}

} // verus!
