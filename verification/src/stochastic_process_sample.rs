//! The time-weighted sample accumulator: an append-only record of the state
//! changes of an integer-valued, right-continuous step process (occupancy or
//! queue length over time), with exact area-based mean and variance
//! estimators.

use crate::ratio::Ratio;
use vstd::prelude::*;

verus! {

/// Timestamps are nondecreasing.
pub open spec fn times_sorted(ts: Seq<u64>) -> bool {
    forall|i: int, j: int| 0 <= i <= j < ts.len() ==> ts[i] <= ts[j]
}

/// The weighted sum `sum level_i * (t_{i+1} - t_i)`: the area under the step
/// function.
pub open spec fn spec_area(ts: Seq<u64>, vs: Seq<u64>) -> int
    decreases ts.len(),
{
    if ts.len() < 2 {
        0
    } else {
        spec_area(ts.drop_last(), vs.drop_last()) + vs[ts.len() - 2] * (ts.last() - ts[ts.len()
            - 2])
    }
}

/// The weighted sum of squares `sum level_i^2 * (t_{i+1} - t_i)`.
pub open spec fn spec_area_sq(ts: Seq<u64>, vs: Seq<u64>) -> int
    decreases ts.len(),
{
    if ts.len() < 2 {
        0
    } else {
        spec_area_sq(ts.drop_last(), vs.drop_last()) + vs[ts.len() - 2] * vs[ts.len() - 2] * (
        ts.last() - ts[ts.len() - 2])
    }
}

/// The total elapsed time covered by the record.
pub open spec fn spec_elapsed(ts: Seq<u64>) -> int {
    if ts.len() < 2 {
        0
    } else {
        ts.last() - ts[0]
    }
}

/// Both weighted sums are nonnegative and the elapsed time dominates
/// nothing smaller than zero.
pub proof fn lemma_area_bounds(ts: Seq<u64>, vs: Seq<u64>)
    requires
        ts.len() == vs.len(),
        times_sorted(ts),
    ensures
        0 <= spec_area(ts, vs),
        0 <= spec_area_sq(ts, vs),
    decreases ts.len(),
{
    if ts.len() < 2 {
    } else {
        lemma_area_bounds(ts.drop_last(), vs.drop_last());
        let n = ts.len();
        let v = vs[n - 2] as int;
        let d = ts.last() - ts[n - 2];
        assert(d >= 0);
        assert(v * d >= 0) by (nonlinear_arith)
            requires v >= 0 && d >= 0;
        assert(v * v * d >= 0) by (nonlinear_arith)
            requires v >= 0 && d >= 0;
    }
}

/// Dropping the last record never increases a weighted sum.
pub proof fn lemma_area_prefix(ts: Seq<u64>, vs: Seq<u64>, i: int)
    requires
        ts.len() == vs.len(),
        times_sorted(ts),
        0 <= i <= ts.len(),
    ensures
        spec_area(ts.subrange(0, i), vs.subrange(0, i)) <= spec_area(ts, vs),
        spec_area_sq(ts.subrange(0, i), vs.subrange(0, i)) <= spec_area_sq(ts, vs),
    decreases ts.len() - i,
{
    if i == ts.len() {
        assert(ts.subrange(0, i) =~= ts);
        assert(vs.subrange(0, i) =~= vs);
    } else {
        lemma_area_prefix(ts, vs, i + 1);
        let tp = ts.subrange(0, i + 1);
        let vp = vs.subrange(0, i + 1);
        assert(tp.drop_last() =~= ts.subrange(0, i));
        assert(vp.drop_last() =~= vs.subrange(0, i));
        if i + 1 >= 2 {
            let v = vp[i - 1] as int;
            let d = tp.last() - tp[i - 1];
            assert(d >= 0);
            assert(v * d >= 0) by (nonlinear_arith)
                requires v >= 0 && d >= 0;
            assert(v * v * d >= 0) by (nonlinear_arith)
                requires v >= 0 && d >= 0;
        }
    }
}

/// The weighted Cauchy-Schwarz inequality: the square of the area never
/// exceeds the elapsed time times the area of squares, so the time-weighted
/// variance numerator is nonnegative.
pub proof fn lemma_square_of_area_le(ts: Seq<u64>, vs: Seq<u64>)
    requires
        ts.len() == vs.len(),
        times_sorted(ts),
    ensures
        spec_area(ts, vs) * spec_area(ts, vs) <= spec_elapsed(ts) * spec_area_sq(ts, vs),
    decreases ts.len(),
{
    if ts.len() < 2 {
    } else if ts.len() == 2 {
        let v = vs[0] as int;
        let d = ts.last() - ts[0];
        assert(ts.drop_last().len() == 1);
        assert(spec_area(ts.drop_last(), vs.drop_last()) == 0);
        assert(spec_area_sq(ts.drop_last(), vs.drop_last()) == 0);
        assert(spec_area(ts, vs) == v * d);
        assert(spec_area_sq(ts, vs) == v * v * d);
        assert((v * d) * (v * d) <= d * (v * v * d)) by (nonlinear_arith)
            requires 0 <= v && 0 <= d;
    } else {
        let tt = ts.drop_last();
        let tv = vs.drop_last();
        lemma_square_of_area_le(tt, tv);
        lemma_area_bounds(tt, tv);
        let n = ts.len();
        let w1 = spec_area(tt, tv);
        let w2 = spec_area_sq(tt, tv);
        let t0 = tt[0] as int;
        let tl = tt.last() as int;
        let e = tl - t0;
        let v = vs[n - 2] as int;
        let d = ts.last() - ts[n - 2];
        assert(tt.last() == ts[n - 2]);
        assert(e >= 0);
        assert(d >= 0);
        assert(spec_elapsed(ts) == e + d);
        // From (v e - w1)^2 >= 0 and w1^2 <= e w2:
        //   2 v e w1 <= v^2 e^2 + w1^2 <= e (v^2 e + w2),
        // cancel e (or use w1 == 0 when e == 0) and scale by d.
        assert(2 * v * e * w1 <= e * (v * v * e + w2)) by (nonlinear_arith)
            requires
                w1 * w1 <= e * w2,
                0 <= v && 0 <= e && 0 <= w1,
        ;
        assert(2 * v * w1 <= v * v * e + w2) by (nonlinear_arith)
            requires
                2 * v * e * w1 <= e * (v * v * e + w2),
                w1 * w1 <= e * w2,
                0 <= v && 0 <= e && 0 <= w1 && 0 <= w2,
        ;
        assert(2 * v * d * w1 <= d * (v * v * e) + d * w2) by (nonlinear_arith)
            requires
                2 * v * w1 <= v * v * e + w2,
                0 <= d,
        ;
        assert((w1 + v * d) * (w1 + v * d) <= (e + d) * (w2 + v * v * d)) by (nonlinear_arith)
            requires
                w1 * w1 <= e * w2,
                2 * v * d * w1 <= d * (v * v * e) + d * w2,
                0 <= w1 && 0 <= w2 && 0 <= v && 0 <= d && 0 <= e,
        ;
    }
}

/// The numerator of the time-weighted variance
/// `(elapsed * area_sq - area^2) / elapsed^2`.
pub open spec fn spec_tw_var_num(ts: Seq<u64>, vs: Seq<u64>) -> int {
    spec_elapsed(ts) * spec_area_sq(ts, vs) - spec_area(ts, vs) * spec_area(ts, vs)
}

/// Whether the time-weighted variance computation stays within machine
/// bounds.
pub open spec fn spec_tw_var_fits(ts: Seq<u64>, vs: Seq<u64>) -> bool {
    spec_area_sq(ts, vs) <= u128::MAX && spec_elapsed(ts) * spec_area_sq(ts, vs) <= u128::MAX
}

/// An append-only accumulator of `(timestamp, level)` state changes.
#[derive(Debug)]
pub struct StochasticProcessSample {
    /// The timestamps, in ticks, nondecreasing.
    pub times: Vec<u64>,
    /// The level held from each timestamp to the next.
    pub values: Vec<u64>,
}

impl StochasticProcessSample {
    /// Timestamps and levels are paired, and time never runs backwards.
    pub open spec fn wf(self) -> bool {
        self.times@.len() == self.values@.len() && times_sorted(self.times@)
    }

    /// The number of recorded state changes.
    pub open spec fn spec_len(self) -> nat {
        self.times@.len()
    }

    /// The latest recorded timestamp, or zero if nothing was recorded.
    pub open spec fn spec_last_time(self) -> u64 {
        if self.times@.len() == 0 {
            0
        } else {
            self.times@.last()
        }
    }

    /// An empty accumulator; the capacity is only a storage hint.
    pub fn new(capacity: usize) -> (r: StochasticProcessSample)
        ensures
            r.wf(),
            r.spec_len() == 0,
            r.times@ =~= Seq::<u64>::empty(),
            r.values@ =~= Seq::<u64>::empty(),
    {
        StochasticProcessSample {
            times: Vec::with_capacity(capacity),
            values: Vec::with_capacity(capacity),
        }
    }

    /// Records that the process held `value` from `time` on.  Time must not
    /// run backwards.
    pub fn append(&mut self, time: u64, value: u64)
        requires
            old(self).wf(),
            time >= old(self).spec_last_time(),
        ensures
            final (self).wf(),
            final (self).times@ == old(self).times@.push(time),
            final (self).values@ == old(self).values@.push(value),
            final (self).spec_last_time() == time,
    {
        self.times.push(time);
        self.values.push(value);
        proof {
            let ts = self.times@;
            assert forall|i: int, j: int| 0 <= i <= j < ts.len() implies ts[i] <= ts[j] by {
                if j < ts.len() - 1 {
                    assert(old(self).times@[i] <= old(self).times@[j]);
                } else if i < ts.len() - 1 {
                    if old(self).times@.len() > 0 {
                        assert(old(self).times@[i] <= old(self).times@.last());
                    }
                }
            }
        }
    }

    /// The number of recorded state changes.
    pub fn len(&self) -> (r: usize)
        ensures
            r == self.spec_len(),
    {
        self.times.len()
    }

    /// The area under the step function, or `None` if it exceeds
    /// `u128::MAX`; squared levels when `squared` is set.
    #[verifier::rlimit(60)]
    fn area_u128(&self, squared: bool) -> (r: Option<u128>)
        requires
            self.wf(),
        ensures
            match r {
                Some(v) => v == if squared {
                    spec_area_sq(self.times@, self.values@)
                } else {
                    spec_area(self.times@, self.values@)
                },
                None => (if squared {
                    spec_area_sq(self.times@, self.values@)
                } else {
                    spec_area(self.times@, self.values@)
                }) > u128::MAX,
            },
    {
        let n = self.times.len();
        if n < 2 {
            return Some(0);
        }
        let mut acc: u128 = 0;
        let mut i: usize = 0;
        proof {
            assert(self.times@.subrange(0, 1).len() < 2);
        }
        while i < n - 1
            invariant
                i <= n - 1,
                n == self.times@.len(),
                n >= 2,
                self.wf(),
                acc == if squared {
                    spec_area_sq(self.times@.subrange(0, i + 1), self.values@.subrange(0, i + 1))
                } else {
                    spec_area(self.times@.subrange(0, i + 1), self.values@.subrange(0, i + 1))
                },
            decreases n - i,
        {
            let v = self.values[i] as u128;
            let d = (self.times[i + 1] - self.times[i]) as u128;
            proof {
                let tp = self.times@.subrange(0, i + 2);
                let vp = self.values@.subrange(0, i + 2);
                assert(tp.drop_last() =~= self.times@.subrange(0, i + 1));
                assert(vp.drop_last() =~= self.values@.subrange(0, i + 1));
                assert((v as int) * (d as int) <= u128::MAX) by (nonlinear_arith)
                    requires v <= u64::MAX && d <= u64::MAX;
                assert((v as int) * (v as int) * (d as int) >= 0 && (v as int) * (d as int) >= 0)
                    by (nonlinear_arith)
                    requires v >= 0 && d >= 0;
            }
            let term = if squared {
                proof {
                    assert((v as int) * (v as int) <= u64::MAX * u64::MAX) by (nonlinear_arith)
                        requires v <= u64::MAX;
                    assert((v * v) * (d as int) <= u128::MAX || (v * v) * (d as int) > u128::MAX);
                }
                match (v * v).checked_mul(d) {
                    Some(t) => t,
                    None => {
                        proof {
                            lemma_area_prefix(self.times@, self.values@, i + 2);
                        }
                        return None;
                    },
                }
            } else {
                v * d
            };
            if acc > u128::MAX - term {
                proof {
                    lemma_area_prefix(self.times@, self.values@, i + 2);
                }
                return None;
            }
            acc = acc + term;
            i = i + 1;
        }
        proof {
            assert(self.times@.subrange(0, n as int) =~= self.times@);
            assert(self.values@.subrange(0, n as int) =~= self.values@);
        }
        Some(acc)
    }

    /// The time-weighted mean: the exact rational
    /// `area / (t_last - t_first)`.  Fewer than two records, or a record of
    /// zero duration, reports zero; `None` only when the area cannot be held
    /// in a `u128`.
    pub fn mean(&self) -> (r: Option<Ratio>)
        requires
            self.wf(),
        ensures
            self.spec_len() < 2 || spec_elapsed(self.times@) == 0 ==> (r matches Some(v) && v.num
                == 0 && v.den == 1),
            self.spec_len() >= 2 && spec_elapsed(self.times@) > 0 ==> match r {
                Some(v) => {
                    &&& spec_area(self.times@, self.values@) <= u128::MAX
                    &&& v.num == spec_area(self.times@, self.values@)
                    &&& v.den == spec_elapsed(self.times@)
                    &&& v.wf()
                },
                None => spec_area(self.times@, self.values@) > u128::MAX,
            },
    {
        let n = self.times.len();
        if n < 2 {
            return Some(Ratio::zero());
        }
        let elapsed = self.times[n - 1] - self.times[0];
        if elapsed == 0 {
            return Some(Ratio::zero());
        }
        let area = match self.area_u128(false) {
            Some(v) => v,
            None => {
                return None;
            },
        };
        proof {
            lemma_area_bounds(self.times@, self.values@);
        }
        Some(Ratio::new(area, elapsed as u128))
    }

    /// The time-weighted variance: the exact rational
    /// `(elapsed * area_sq - area^2) / elapsed^2`, which is the second
    /// moment of the step function minus the square of its mean.  Fewer
    /// than two records, or a record of zero duration, reports zero; `None`
    /// only when an intermediate cannot be held in a `u128`.
    pub fn variance(&self) -> (r: Option<Ratio>)
        requires
            self.wf(),
        ensures
            self.spec_len() < 2 || spec_elapsed(self.times@) == 0 ==> (r matches Some(v) && v.num
                == 0 && v.den == 1),
            self.spec_len() >= 2 && spec_elapsed(self.times@) > 0 ==> match r {
                Some(v) => {
                    &&& spec_tw_var_fits(self.times@, self.values@)
                    &&& v.num == spec_tw_var_num(self.times@, self.values@)
                    &&& v.den == spec_elapsed(self.times@) * spec_elapsed(self.times@)
                    &&& v.wf()
                },
                None => !spec_tw_var_fits(self.times@, self.values@),
            },
    {
        let n = self.times.len();
        if n < 2 {
            return Some(Ratio::zero());
        }
        let elapsed = self.times[n - 1] - self.times[0];
        if elapsed == 0 {
            return Some(Ratio::zero());
        }
        let area_sq = match self.area_u128(true) {
            Some(v) => v,
            None => {
                proof {
                    assert(spec_elapsed(self.times@) * spec_area_sq(self.times@, self.values@)
                        > u128::MAX) by (nonlinear_arith)
                        requires
                            spec_elapsed(self.times@) >= 1,
                            spec_area_sq(self.times@, self.values@) > u128::MAX,
                    ;
                }
                return None;
            },
        };
        let num_all = match (elapsed as u128).checked_mul(area_sq) {
            Some(v) => v,
            None => {
                return None;
            },
        };
        let area = match self.area_u128(false) {
            Some(v) => v,
            None => {
                proof {
                    lemma_square_of_area_le(self.times@, self.values@);
                    lemma_area_bounds(self.times@, self.values@);
                    assert(false) by (nonlinear_arith)
                        requires
                            spec_area(self.times@, self.values@) > u128::MAX,
                            spec_area(self.times@, self.values@) * spec_area(
                                self.times@,
                                self.values@,
                            ) <= spec_elapsed(self.times@) * spec_area_sq(self.times@, self.values@),
                            spec_elapsed(self.times@) * spec_area_sq(self.times@, self.values@)
                                <= u128::MAX,
                            spec_area(self.times@, self.values@) >= 0,
                    ;
                }
                return None;
            },
        };
        proof {
            lemma_square_of_area_le(self.times@, self.values@);
            lemma_area_bounds(self.times@, self.values@);
        }
        let num = num_all - area * area;
        proof {
            assert((elapsed as int) * (elapsed as int) >= 1 && (elapsed as int) * (elapsed as int)
                <= u128::MAX) by (nonlinear_arith)
                requires 1 <= elapsed <= u64::MAX;
        }
        let den = (elapsed as u128) * (elapsed as u128);
        Some(Ratio::new(num, den))
    }
}

} // verus!
