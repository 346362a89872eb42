//! The scalar sample accumulator: an append-only collection of independent
//! observations (durations in ticks, or scaled per-round statistics) with
//! exact mean and unbiased variance estimators, and the two 95%-confidence
//! interval constructions built on them.

use crate::arith::{isqrt_u128, lemma_isqrt_value, spec_isqrt};
use crate::confidence_interval::{ConfidenceInterval, CI_BOUND};
use crate::ratio::Ratio;
use vstd::arithmetic::div_mod::{lemma_div_is_ordered_by_denominator, lemma_fundamental_div_mod};
use vstd::prelude::*;

verus! {

/// The sum of a sequence of observations.
pub open spec fn seq_sum(s: Seq<u64>) -> int
    decreases s.len(),
{
    if s.len() == 0 {
        0
    } else {
        seq_sum(s.drop_last()) + s.last()
    }
}

/// The sum of the squares of a sequence of observations.
pub open spec fn seq_sum_sq(s: Seq<u64>) -> int
    decreases s.len(),
{
    if s.len() == 0 {
        0
    } else {
        seq_sum_sq(s.drop_last()) + s.last() * s.last()
    }
}

/// Sums of nonnegative observations are nonnegative and bounded by the
/// count times the largest representable observation.
pub proof fn lemma_sum_bounds(s: Seq<u64>)
    ensures
        0 <= seq_sum(s) <= s.len() * u64::MAX,
        0 <= seq_sum_sq(s),
    decreases s.len(),
{
    if s.len() == 0 {
    } else {
        let t = s.drop_last();
        lemma_sum_bounds(t);
        assert(t.len() * u64::MAX + u64::MAX == s.len() * u64::MAX) by (nonlinear_arith)
            requires t.len() + 1 == s.len();
        assert(s.last() * s.last() >= 0) by (nonlinear_arith);
    }
}

/// A prefix never has a larger sum of squares than the whole.
pub proof fn lemma_sum_sq_prefix(s: Seq<u64>, i: int)
    requires
        0 <= i <= s.len(),
    ensures
        seq_sum_sq(s.subrange(0, i)) <= seq_sum_sq(s),
    decreases s.len() - i,
{
    if i == s.len() {
        assert(s.subrange(0, i) =~= s);
    } else {
        lemma_sum_sq_prefix(s, i + 1);
        assert(s.subrange(0, i + 1).drop_last() =~= s.subrange(0, i));
        assert(s.subrange(0, i + 1).last() == s[i]);
        assert(s[i] * s[i] >= 0) by (nonlinear_arith);
    }
}

/// The square of the sum never exceeds the count times the sum of squares,
/// so the variance numerator is nonnegative.
pub proof fn lemma_square_of_sum_le(s: Seq<u64>)
    ensures
        seq_sum(s) * seq_sum(s) <= s.len() * seq_sum_sq(s),
    decreases s.len(),
{
    if s.len() == 0 {
    } else {
        let t = s.drop_last();
        let x = s.last() as int;
        lemma_square_of_sum_le(t);
        lemma_sum_bounds(t);
        let n = t.len() as int;
        let s1 = seq_sum(t);
        let s2 = seq_sum_sq(t);
        assert((s1 + x) * (s1 + x) <= (n + 1) * (s2 + x * x)) by (nonlinear_arith)
            requires
                s1 * s1 <= n * s2,
                0 <= s1,
                0 <= s2,
                0 <= x,
                0 <= n,
        ;
    }
}

/// The numerator of the unbiased sample variance
/// `(n * sum_sq - sum^2) / (n * (n - 1))`.
pub open spec fn spec_var_num(s: Seq<u64>) -> int {
    s.len() * seq_sum_sq(s) - seq_sum(s) * seq_sum(s)
}

/// The denominator of the unbiased sample variance.
pub open spec fn spec_var_den(s: Seq<u64>) -> int {
    s.len() * (s.len() - 1)
}

/// Whether the variance computation stays within machine bounds.
pub open spec fn spec_var_fits(s: Seq<u64>) -> bool {
    s.len() * seq_sum_sq(s) <= u128::MAX
}

/// The mean rounded down to an integer.
pub open spec fn spec_mean_floor(s: Seq<u64>) -> int {
    if s.len() == 0 {
        0
    } else {
        seq_sum(s) / s.len() as int
    }
}

/// Scale of the squared Student-t percentile constants.
pub const T2_SCALE: u64 = 100_000_000;

/// Scale of the chi-square percentile constants.
pub const CHI_SCALE: u64 = 10_000;

/// The square of the 95% two-sided Student-t percentile for the given
/// degrees of freedom, scaled by `T2_SCALE`.  A small table: the row with
/// the largest tabulated degrees of freedom not above `df` applies.
pub open spec fn spec_t2_num(df: int) -> int {
    if df >= 3199 {
        384_436_734
    } else if df >= 999 {
        385_078_220
    } else if df >= 99 {
        393_711_700
    } else if df >= 29 {
        418_296_580
    } else if df >= 9 {
        511_735_430
    } else if df >= 4 {
        770_864_680
    } else if df >= 2 {
        1_851_282_280
    } else {
        16_144_751_840
    }
}

/// Looks up the scaled squared Student-t percentile.
pub fn t2_num(df: usize) -> (r: u64)
    ensures
        r == spec_t2_num(df as int),
{
    if df >= 3199 {
        384_436_734
    } else if df >= 999 {
        385_078_220
    } else if df >= 99 {
        393_711_700
    } else if df >= 29 {
        418_296_580
    } else if df >= 9 {
        511_735_430
    } else if df >= 4 {
        770_864_680
    } else if df >= 2 {
        1_851_282_280
    } else {
        16_144_751_840
    }
}

/// The 2.5% chi-square percentile for the given degrees of freedom, scaled
/// by `CHI_SCALE`; table keyed like `spec_t2_num`.
pub open spec fn spec_chi_lower_num(df: int) -> int {
    if df >= 3199 {
        30_441_302
    } else if df >= 999 {
        9_133_010
    } else if df >= 99 {
        733_611
    } else if df >= 29 {
        160_471
    } else if df >= 9 {
        27_004
    } else if df >= 4 {
        4_844
    } else if df >= 2 {
        506
    } else {
        10
    }
}

/// The 97.5% chi-square percentile for the given degrees of freedom, scaled
/// by `CHI_SCALE`.
pub open spec fn spec_chi_upper_num(df: int) -> int {
    if df >= 3199 {
        33_576_582
    } else if df >= 999 {
        10_884_871
    } else if df >= 99 {
        1_284_220
    } else if df >= 29 {
        457_223
    } else if df >= 9 {
        190_228
    } else if df >= 4 {
        111_433
    } else if df >= 2 {
        73_778
    } else {
        50_239
    }
}

/// Looks up the scaled lower chi-square percentile.
pub fn chi_lower_num(df: usize) -> (r: u64)
    ensures
        r == spec_chi_lower_num(df as int),
{
    if df >= 3199 {
        30_441_302
    } else if df >= 999 {
        9_133_010
    } else if df >= 99 {
        733_611
    } else if df >= 29 {
        160_471
    } else if df >= 9 {
        27_004
    } else if df >= 4 {
        4_844
    } else if df >= 2 {
        506
    } else {
        10
    }
}

/// Looks up the scaled upper chi-square percentile.
pub fn chi_upper_num(df: usize) -> (r: u64)
    ensures
        r == spec_chi_upper_num(df as int),
{
    if df >= 3199 {
        33_576_582
    } else if df >= 999 {
        10_884_871
    } else if df >= 99 {
        1_284_220
    } else if df >= 29 {
        457_223
    } else if df >= 9 {
        190_228
    } else if df >= 4 {
        111_433
    } else if df >= 2 {
        73_778
    } else {
        50_239
    }
}

/// Looks up the tabulated degrees-of-freedom row.
pub fn chi_row_df(df: usize) -> (r: u64)
    ensures
        r == Sample::spec_chi_row_df(df as int),
        1 <= r <= 3199,
{
    if df >= 3199 {
        3199
    } else if df >= 999 {
        999
    } else if df >= 99 {
        99
    } else if df >= 29 {
        29
    } else if df >= 9 {
        9
    } else if df >= 4 {
        4
    } else if df >= 2 {
        2
    } else {
        1
    }
}

/// An append-only accumulator of scalar observations.
#[derive(Debug)]
pub struct Sample {
    /// The recorded observations, in arrival order.
    pub values: Vec<u64>,
}

impl View for Sample {
    type V = Seq<u64>;

    open spec fn view(&self) -> Seq<u64> {
        self.values@
    }
}

impl Sample {
    /// An empty accumulator; the capacity is only a storage hint.
    pub fn new(capacity: usize) -> (r: Sample)
        ensures
            r@ =~= Seq::<u64>::empty(),
    {
        Sample { values: Vec::with_capacity(capacity) }
    }

    /// Records one observation.
    pub fn append(&mut self, value: u64)
        ensures
            final (self)@ == old(self)@.push(value),
    {
        self.values.push(value);
    }

    /// The number of recorded observations.
    pub fn len(&self) -> (r: usize)
        ensures
            r == self@.len(),
    {
        self.values.len()
    }

    /// The sum of all observations; it always fits in a `u128`.
    pub fn sum_u128(&self) -> (r: u128)
        ensures
            r == seq_sum(self@),
    {
        let n = self.values.len();
        let mut acc: u128 = 0;
        let mut i: usize = 0;
        proof {
            assert(self@.subrange(0, 0) =~= Seq::<u64>::empty());
        }
        while i < n
            invariant
                i <= n,
                n == self@.len(),
                acc == seq_sum(self@.subrange(0, i as int)),
                acc <= i * (u64::MAX as int),
            decreases n - i,
        {
            let v = self.values[i];
            proof {
                assert(self@.subrange(0, i + 1).drop_last() =~= self@.subrange(0, i as int));
                assert(self@.subrange(0, i + 1).last() == self@[i as int]);
                assert(i * (u64::MAX as int) + u64::MAX == (i + 1) * (u64::MAX as int))
                    by (nonlinear_arith);
                assert((i + 1) * (u64::MAX as int) <= u128::MAX) by (nonlinear_arith)
                    requires i + 1 <= usize::MAX;
            }
            acc = acc + v as u128;
            i = i + 1;
        }
        proof {
            assert(self@.subrange(0, n as int) =~= self@);
        }
        acc
    }

    /// The mean: the exact rational `sum / count`; an empty accumulator
    /// reports zero.
    pub fn mean(&self) -> (r: Ratio)
        ensures
            r.wf(),
            self@.len() == 0 ==> r.num == 0 && r.den == 1,
            self@.len() > 0 ==> r.num == seq_sum(self@) && r.den == self@.len(),
    {
        let n = self.values.len();
        if n == 0 {
            Ratio::zero()
        } else {
            let total = self.sum_u128();
            proof {
                lemma_sum_bounds(self@);
            }
            Ratio::new(total, n as u128)
        }
    }

    /// The sum of squares, or `None` if it exceeds `u128::MAX`.
    fn sum_sq_u128(&self) -> (r: Option<u128>)
        ensures
            match r {
                Some(v) => v == seq_sum_sq(self@),
                None => seq_sum_sq(self@) > u128::MAX,
            },
    {
        let n = self.values.len();
        let mut acc: u128 = 0;
        let mut i: usize = 0;
        proof {
            assert(self@.subrange(0, 0) =~= Seq::<u64>::empty());
        }
        while i < n
            invariant
                i <= n,
                n == self@.len(),
                acc == seq_sum_sq(self@.subrange(0, i as int)),
            decreases n - i,
        {
            let v = self.values[i] as u128;
            proof {
                assert((v as int) * (v as int) < u128::MAX) by (nonlinear_arith)
                    requires v <= u64::MAX;
                assert(self@.subrange(0, i + 1).drop_last() =~= self@.subrange(0, i as int));
                assert(self@.subrange(0, i + 1).last() == self@[i as int]);
            }
            let sq = v * v;
            if acc > u128::MAX - sq {
                proof {
                    lemma_sum_sq_prefix(self@, i + 1);
                }
                return None;
            }
            acc = acc + sq;
            i = i + 1;
        }
        proof {
            assert(self@.subrange(0, n as int) =~= self@);
        }
        Some(acc)
    }

    /// The unbiased sample variance `(n * sum_sq - sum^2) / (n * (n - 1))`,
    /// exact.  Fewer than two observations report zero; `None` only when the
    /// numerator cannot be held in a `u128`.
    pub fn variance(&self) -> (r: Option<Ratio>)
        ensures
            self@.len() < 2 ==> (r matches Some(v) && v.num == 0 && v.den == 1),
            self@.len() >= 2 ==> match r {
                Some(v) => spec_var_fits(self@) && v.num == spec_var_num(self@) && v.den
                    == spec_var_den(self@) && v.wf(),
                None => !spec_var_fits(self@),
            },
    {
        let n = self.values.len();
        if n < 2 {
            return Some(Ratio::zero());
        }
        let total = self.sum_u128();
        let ssq = match self.sum_sq_u128() {
            Some(v) => v,
            None => {
                proof {
                    assert(self@.len() * seq_sum_sq(self@) > u128::MAX) by (nonlinear_arith)
                        requires
                            self@.len() >= 2,
                            seq_sum_sq(self@) > u128::MAX,
                    ;
                }
                return None;
            },
        };
        let num_all = match (n as u128).checked_mul(ssq) {
            Some(v) => v,
            None => {
                return None;
            },
        };
        proof {
            lemma_square_of_sum_le(self@);
            lemma_sum_bounds(self@);
            assert(total * total <= num_all);
        }
        let sum_sq_of_sum = total * total;
        let num = num_all - sum_sq_of_sum;
        proof {
            assert((n as int) * ((n - 1) as int) < u128::MAX) by (nonlinear_arith)
                requires 2 <= n <= u64::MAX + 1;
            assert((n as int) * ((n - 1) as int) >= 1) by (nonlinear_arith)
                requires n >= 2;
        }
        let den = (n as u128) * ((n - 1) as u128);
        Some(Ratio::new(num, den))
    }

    /// The scaled squared half-width argument of the Student-t interval:
    /// `t^2 * var_num / (T2_SCALE * var_den * n)`, floor.
    pub open spec fn spec_t_q(s: Seq<u64>, df: int) -> int {
        (spec_t2_num(df) * spec_var_num(s)) / (T2_SCALE * spec_var_den(s) * s.len())
    }

    /// The half-width of the Student-t interval.
    pub open spec fn spec_t_hw(s: Seq<u64>, df: int) -> int {
        spec_isqrt(Self::spec_t_q(s, df))
    }

    /// Whether the Student-t interval computation stays within machine
    /// bounds.
    pub open spec fn spec_t_fits(s: Seq<u64>, df: int) -> bool {
        &&& spec_var_fits(s)
        &&& spec_t2_num(df) * spec_var_num(s) <= u128::MAX
        &&& T2_SCALE * spec_var_den(s) * s.len() <= u128::MAX
    }

    /// The 95% Student-t confidence interval around the sample mean:
    /// `mean -/+ t * sqrt(variance / n)`, with the percentile taken from the
    /// table for the given degrees of freedom and every step exact floor
    /// arithmetic.  `None` with fewer than two observations, or when an
    /// intermediate product cannot be held in a `u128`.
    pub fn t_student_95percent(&self, degrees_of_freedom: usize) -> (r: Option<ConfidenceInterval>)
        ensures
            self@.len() < 2 ==> r is None,
            self@.len() >= 2 ==> match r {
                Some(ci) => {
                    &&& Self::spec_t_fits(self@, degrees_of_freedom as int)
                    &&& ci.lower == spec_mean_floor(self@) - Self::spec_t_hw(
                        self@,
                        degrees_of_freedom as int,
                    )
                    &&& ci.upper == spec_mean_floor(self@) + Self::spec_t_hw(
                        self@,
                        degrees_of_freedom as int,
                    )
                    &&& ci.wf()
                },
                None => !Self::spec_t_fits(self@, degrees_of_freedom as int),
            },
    {
        let n = self.values.len();
        if n < 2 {
            return None;
        }
        let total = self.sum_u128();
        proof {
            lemma_sum_bounds(self@);
        }
        let m = total / (n as u128);
        proof {
            lemma_fundamental_div_mod(total as int, n as int);
            assert(m <= u64::MAX) by (nonlinear_arith)
                requires
                    total as int == (n as int) * (m as int) + (total as int) % (n as int),
                    0 <= (total as int) % (n as int),
                    total <= self@.len() * (u64::MAX as int),
                    n == self@.len(),
                    n >= 2,
            ;
        }
        let v = match self.variance() {
            Some(v) => v,
            None => {
                return None;
            },
        };
        let t2n = t2_num(degrees_of_freedom);
        let a = match v.num.checked_mul(t2n as u128) {
            Some(a) => a,
            None => {
                proof {
                    assert(v.num * (t2n as int) == (t2n as int) * v.num) by (nonlinear_arith);
                }
                return None;
            },
        };
        proof {
            assert(v.num * (t2n as int) == (t2n as int) * v.num) by (nonlinear_arith);
        }
        let b1 = match (T2_SCALE as u128).checked_mul(v.den) {
            Some(b1) => b1,
            None => {
                proof {
                    lemma_mul_le_mono(T2_SCALE * v.den, u128::MAX as int + 1, n as int);
                }
                return None;
            },
        };
        let b = match b1.checked_mul(n as u128) {
            Some(b) => b,
            None => {
                return None;
            },
        };
        proof {
            assert(b1 >= 1) by (nonlinear_arith)
                requires b1 == T2_SCALE * v.den && v.den >= 1;
            assert(b >= 1) by (nonlinear_arith)
                requires b == b1 * n && b1 >= 1 && n >= 2;
        }
        let q = a / b;
        let hw = isqrt_u128(q);
        let lower = m as i128 - hw as i128;
        let upper = m as i128 + hw as i128;
        Some(ConfidenceInterval::new(lower, upper))
    }

    /// The tabulated degrees of freedom that apply: the largest row not
    /// above the actual count.
    pub open spec fn spec_chi_row_df(df: int) -> int {
        if df >= 3199 {
            3199
        } else if df >= 999 {
            999
        } else if df >= 99 {
            99
        } else if df >= 29 {
            29
        } else if df >= 9 {
            9
        } else if df >= 4 {
            4
        } else if df >= 2 {
            2
        } else {
            1
        }
    }

    /// The scaled statistic `row_df * variance` the chi-square interval
    /// divides by its percentiles; the row is the one the percentiles were
    /// tabulated for, so the ratio is exact.
    pub open spec fn spec_chi_stat(sample_variance: u64, df: int) -> int {
        Self::spec_chi_row_df(df) * sample_variance * CHI_SCALE
    }

    /// The 95% chi-square confidence interval around a variance estimate:
    /// `[df v / chi_upper, df v / chi_lower]`, with the degrees of freedom
    /// and both percentiles taken from the same table row, exact floor
    /// arithmetic.  `None` only with fewer than two observations.
    pub fn chi_square_95percent(&self, sample_variance: u64, degrees_of_freedom: usize) -> (r:
        Option<ConfidenceInterval>)
        ensures
            self@.len() < 2 ==> r is None,
            self@.len() >= 2 ==> match r {
                Some(ci) => {
                    &&& ci.lower == Self::spec_chi_stat(sample_variance, degrees_of_freedom as int)
                        / spec_chi_upper_num(degrees_of_freedom as int)
                    &&& ci.upper == Self::spec_chi_stat(sample_variance, degrees_of_freedom as int)
                        / spec_chi_lower_num(degrees_of_freedom as int)
                    &&& ci.wf()
                },
                None => false,
            },
    {
        let n = self.values.len();
        if n < 2 {
            return None;
        }
        let row = chi_row_df(degrees_of_freedom);
        proof {
            assert((row as int) * (sample_variance as int) <= 3199 * (u64::MAX as int)
                && (row as int) * (sample_variance as int) >= 0) by (nonlinear_arith)
                requires 1 <= row <= 3199 && sample_variance <= u64::MAX;
            assert((3199 * (u64::MAX as int)) * (CHI_SCALE as int) <= u128::MAX);
            assert(((row as int) * (sample_variance as int)) * (CHI_SCALE as int) <= (3199 * (
            u64::MAX as int)) * (CHI_SCALE as int)) by (nonlinear_arith)
                requires 0 <= (row as int) * (sample_variance as int) <= 3199 * (u64::MAX as int);
        }
        let a = (row as u128) * (sample_variance as u128);
        let stat = a * (CHI_SCALE as u128);
        let lo_num = chi_lower_num(degrees_of_freedom);
        let up_num = chi_upper_num(degrees_of_freedom);
        let lower = stat / (up_num as u128);
        let upper = stat / (lo_num as u128);
        proof {
            lemma_div_is_ordered_by_denominator(stat as int, lo_num as int, up_num as int);
            assert((stat as int) / (lo_num as int) <= stat as int) by (nonlinear_arith)
                requires stat >= 0 && lo_num >= 1;
            assert(stat <= CI_BOUND);
        }
        Some(ConfidenceInterval::new(lower as i128, upper as i128))
    }
}

/// Multiplying by a count of at least one does not shrink a value.
proof fn lemma_mul_le_mono(a: int, b: int, n: int)
    requires
        a >= b,
        n >= 1,
        b >= 0,
    ensures
        a * n >= b,
{
    assert(a * n >= b) by (nonlinear_arith)
        requires a >= b && n >= 1 && b >= 0;
}

} // verus!
