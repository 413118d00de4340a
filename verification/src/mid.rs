//! Exact values between two prices.
use vstd::prelude::*;

use crate::level::Level;

verus! {

/// A price that need not be a whole number of units: `whole + num / den`.
#[derive(Debug, Clone, Copy, PartialEq, Eq, Structural)]
pub struct MidPrice {
    pub whole: u64,
    pub num: u128,
    pub den: u128,
}

impl MidPrice {
    /// This is the quotient of `dividend` and `divisor`, with its fraction over the
    /// divisor.
    pub open spec fn is_quotient(self, dividend: int, divisor: int) -> bool {
        &&& self.den == divisor
        &&& 0 <= self.num < self.den
        &&& self.whole * self.den + self.num == dividend
    }
}

/// Half way between the two prices.
pub(crate) fn halfway(a: u64, b: u64) -> (mid: MidPrice)
    ensures
        mid.is_quotient(a + b, 2),
{
    let sum: u128 = a as u128 + b as u128;
    MidPrice { whole: (sum / 2) as u64, num: sum % 2, den: 2 }
}

/// The mean of `low` and `high` with the given weights.
fn between(low: u64, low_weight: u64, high: u64, high_weight: u64) -> (mid: MidPrice)
    requires
        low <= high,
        low_weight + high_weight > 0,
    ensures
        mid.is_quotient(low * low_weight + high * high_weight, low_weight + high_weight),
{
    let den: u128 = low_weight as u128 + high_weight as u128;
    let gap: u128 = (high - low) as u128;
    assert(gap * high_weight <= u64::MAX * u64::MAX) by (nonlinear_arith)
        requires
            gap <= u64::MAX,
            high_weight <= u64::MAX,
    ;
    let above: u128 = gap * (high_weight as u128);
    let step: u128 = above / den;
    let num: u128 = above % den;
    proof {
        vstd::arithmetic::div_mod::lemma_fundamental_div_mod(above as int, den as int);
        assert(step <= gap) by (nonlinear_arith)
            requires
                above == gap * high_weight,
                above == den * step + num,
                num >= 0,
                den == low_weight + high_weight,
                den > 0,
                low_weight >= 0,
                gap >= 0,
        ;
        assert((low + step) * den + num == low * low_weight + high * high_weight) by (nonlinear_arith)
            requires
                above == gap * high_weight,
                above == den * step + num,
                den == low_weight + high_weight,
                gap == high - low,
        ;
    }
    MidPrice { whole: low + step as u64, num, den }
}

/// The mean of the two prices, each weighted by the size that the other side
/// offers.
pub(crate) fn cross_weighted(bid: &Level, ask: &Level) -> (mid: MidPrice)
    requires
        bid.size + ask.size > 0,
    ensures
        mid.is_quotient(bid.size * ask.price + bid.price * ask.size, bid.size + ask.size),
{
    proof {
        assert(bid.size * ask.price == ask.price * bid.size) by (nonlinear_arith);
    }
    if bid.price <= ask.price {
        between(bid.price, ask.size, ask.price, bid.size)
    } else {
        between(ask.price, bid.size, bid.price, ask.size)
    }
}

} // verus!
