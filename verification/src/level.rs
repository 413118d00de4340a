//! A single price level.
use vstd::prelude::*;

use crate::event::Event;

verus! {

/// The size offered at one price. A level of size zero has been deleted.
#[derive(Debug, Clone, Copy)]
pub struct Level {
    pub price: u64,
    pub size: u64,
    pub timestamp: u64,
    pub seq: u64,
}

impl Level {
    /// The level that a feed message describes.
    pub open spec fn of_event(event: Event) -> Level {
        Level {
            price: event.price,
            size: event.size,
            timestamp: event.timestamp,
            seq: event.seq,
        }
    }

    /// Both levels show the same quote: the sequence number is bookkeeping and
    /// no part of it.
    pub open spec fn same_quote(self, other: Level) -> bool {
        &&& self.price == other.price
        &&& self.size == other.size
        &&& self.timestamp == other.timestamp
    }
}

/// Two levels are equal when they show the same quote.
impl PartialEq for Level {
    fn eq(&self, other: &Self) -> (equal: bool)
        ensures
            equal <==> {
                &&& self.price == other.price
                &&& self.size == other.size
                &&& self.timestamp == other.timestamp
            },
    {
        self.price == other.price && self.size == other.size && self.timestamp == other.timestamp
    }
}

impl vstd::std_specs::cmp::PartialEqSpecImpl for Level {
    open spec fn obeys_eq_spec() -> bool {
        true
    }

    open spec fn eq_spec(&self, other: &Self) -> bool {
        self.same_quote(*other)
    }
}

impl From<Event> for Level {
    fn from(event: Event) -> (level: Self)
        ensures
            level.price == event.price,
            level.size == event.size,
            level.timestamp == event.timestamp,
            level.seq == event.seq,
    {
        Level {
            price: event.price,
            size: event.size,
            timestamp: event.timestamp,
            seq: event.seq,
        }
    }
}

impl vstd::std_specs::convert::FromSpecImpl<Event> for Level {
    open spec fn obeys_from_spec() -> bool {
        true
    }

    open spec fn from_spec(event: Event) -> Self {
        Level::of_event(event)
    }
}

} // verus!
