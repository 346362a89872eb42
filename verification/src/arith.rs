//! Small verified arithmetic helpers: saturating clock addition and an
//! integer square root, both used by the engine and the interval builders.

use vstd::prelude::*;

verus! {

/// Saturating addition on the simulated clock: the result is `a + b`, capped
/// at `u64::MAX`.
pub open spec fn spec_sat_add(a: u64, b: u64) -> u64 {
    if a + b <= u64::MAX {
        (a + b) as u64
    } else {
        u64::MAX
    }
}

/// Adds two tick counts, saturating at `u64::MAX`.
pub fn sat_add(a: u64, b: u64) -> (r: u64)
    ensures
        r == spec_sat_add(a, b),
        r >= a,
        r >= b,
{
    if a <= u64::MAX - b {
        a + b
    } else {
        u64::MAX
    }
}

/// Whether `r` is the integer square root of `n`.
pub open spec fn is_isqrt(n: int, r: int) -> bool {
    0 <= r && r * r <= n && (r + 1) * (r + 1) > n
}

/// The integer square root: the largest `r` with `r * r <= n`.
pub open spec fn spec_isqrt(n: int) -> int {
    choose|r: int| #[trigger] is_isqrt(n, r)
}

/// The integer square root is unique.
pub proof fn lemma_isqrt_unique(n: int, a: int, b: int)
    requires
        is_isqrt(n, a),
        is_isqrt(n, b),
    ensures
        a == b,
{
    assert(a == b) by (nonlinear_arith)
        requires
            0 <= a && a * a <= n && (a + 1) * (a + 1) > n,
            0 <= b && b * b <= n && (b + 1) * (b + 1) > n,
    ;
}

/// Identifies a witness with `spec_isqrt`.
pub proof fn lemma_isqrt_value(n: int, r: int)
    requires
        is_isqrt(n, r),
    ensures
        spec_isqrt(n) == r,
{
    assert(is_isqrt(n, spec_isqrt(n))) by {
        assert(exists|x: int| #[trigger] is_isqrt(n, x));
    }
    lemma_isqrt_unique(n, spec_isqrt(n), r);
}

/// The integer square root: the largest `r` with `r * r <= n`.
pub fn isqrt_u128(n: u128) -> (r: u128)
    ensures
        r * r <= n,
        (r + 1) * (r + 1) > n,
        r <= u64::MAX,
        r == spec_isqrt(n as int),
{
    // Binary search over [0, 2^64): the answer fits because
    // (2^64 - 1)^2 >= u128::MAX - 2^65 + 2 covers every u128 input.
    let mut lo: u128 = 0;
    let mut hi: u128 = 0x1_0000_0000_0000_0000;
    proof {
        assert((0x1_0000_0000_0000_0000u128) * (0x1_0000_0000_0000_0000u128) > u128::MAX)
            by (nonlinear_arith);
    }
    while hi - lo > 1
        invariant
            lo < hi,
            hi <= 0x1_0000_0000_0000_0000,
            lo * lo <= n,
            hi * hi > n,
        decreases hi - lo,
    {
        let mid = lo + (hi - lo) / 2;
        proof {
            assert(lo < mid < hi);
            assert(mid <= u64::MAX);
            assert(mid * mid <= u64::MAX * u64::MAX) by (nonlinear_arith)
                requires mid <= u64::MAX;
        }
        if mid * mid <= n {
            proof {
                assert(mid * mid <= n);
            }
            lo = mid;
        } else {
            hi = mid;
        }
    }
    proof {
        assert(hi == lo + 1);
        lemma_isqrt_value(n as int, lo as int);
    }
    lo
}

} // verus!
