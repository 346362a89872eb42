//! Exact nonnegative rational values, used for every statistic the library
//! reports: a `Ratio` is `num / den` with a positive denominator.

use vstd::prelude::*;

verus! {

/// A nonnegative rational number `num / den`.
#[derive(Clone, Copy, Debug)]
pub struct Ratio {
    pub num: u128,
    pub den: u128,
}

impl Ratio {
    /// The denominator is always positive, so the value is defined.
    pub open spec fn wf(self) -> bool {
        self.den >= 1
    }

    /// Builds `num / den`.
    pub fn new(num: u128, den: u128) -> (r: Ratio)
        requires
            den >= 1,
        ensures
            r.num == num,
            r.den == den,
            r.wf(),
    {
        Ratio { num, den }
    }

    /// The rational zero, written `0 / 1`.
    pub fn zero() -> (r: Ratio)
        ensures
            r.num == 0,
            r.den == 1,
            r.wf(),
    {
        Ratio { num: 0, den: 1 }
    }

    /// The integer part of the value: `num / den` rounded toward zero.
    pub fn floor(&self) -> (r: u128)
        requires
            self.wf(),
        ensures
            r == self.num / self.den,
    {
        self.num / self.den
    }

    /// The integer part, if it fits in a `u64`; `None` exactly when the
    /// value is `u64::MAX + 1` or more.
    pub fn floor_u64(&self) -> (r: Option<u64>)
        requires
            self.wf(),
        ensures
            match r {
                Some(v) => v == self.num / self.den && self.num / self.den <= u64::MAX,
                None => self.num / self.den > u64::MAX,
            },
    {
        let q = self.num / self.den;
        if q <= u64::MAX as u128 {
            Some(q as u64)
        } else {
            None
        }
    }
}

} // verus!
