//! What a feed sends, and how prices fall into ticks.
use vstd::prelude::*;

use crate::effects::law_tick_spans_one_tick_size;

verus! {

/// How a price is turned into the tick that its level is filed under.
#[derive(Debug, Clone, Copy, PartialEq, Eq, Structural)]
pub enum TickSizingStrategy {
    /// Every tick spans the same number of price units.
    Fixed,
}

impl TickSizingStrategy {
    /// The tick that `price` falls in. With ticks of no width every price but zero
    /// falls in the last one.
    pub open spec fn tick_of(self, price: u64, tick_size: u64) -> u64 {
        match self {
            TickSizingStrategy::Fixed => if tick_size > 0 {
                price / tick_size
            } else if price == 0 {
                0
            } else {
                u64::MAX
            },
        }
    }

    pub fn price_to_tick(&self, price: u64, tick_size: u64) -> (tick: u64)
        ensures
            tick == self.tick_of(price, tick_size),
            tick_size > 0 ==> tick * tick_size <= price && price < (tick + 1) * tick_size,
            tick_size == 0 && price == 0 ==> tick == 0,
            tick_size == 0 && price != 0 ==> tick == u64::MAX,
    {
        proof {
            law_tick_spans_one_tick_size(*self, price, tick_size);
        }
        match self {
            TickSizingStrategy::Fixed => if tick_size > 0 {
                price / tick_size
            } else if price == 0 {
                0
            } else {
                u64::MAX
            },
        }
    }
}

/// One message of a feed: a new size for a level, or a trade against one.
#[derive(Debug, Clone, Copy, PartialEq, Eq, Structural)]
pub struct Event {
    pub timestamp: u64,
    pub seq: u64,
    pub is_trade: bool,
    pub is_buy: bool,
    pub price: u64,
    pub size: u64,
}

} // verus!
