//! The mathematical model of the book: what its sides hold and what each
//! operation makes of them.
use vstd::prelude::*;

use crate::event::{Event, TickSizingStrategy};
use crate::level::Level;

verus! {

/// The number of ticks that a side can be filed under.
pub const TICKS: u128 = 0x1_0000_0000_0000_0000;

/// There is a level at `tick` and it has not been deleted.
pub open spec fn live(levels: Map<u64, Level>, tick: u64) -> bool {
    levels.contains_key(tick) && levels[tick].size != 0
}

/// On the buy side a higher tick is better, on the sell side a lower one.
pub open spec fn better(buy: bool, a: u64, b: u64) -> bool {
    if buy {
        a > b
    } else {
        a < b
    }
}

/// The live ticks under `bound`, from the lowest to the highest.
pub open spec fn live_ticks_below(levels: Map<u64, Level>, bound: nat) -> Seq<u64>
    decreases bound,
{
    if bound == 0 {
        Seq::empty()
    } else {
        let tick = (bound - 1) as u64;
        let lower = live_ticks_below(levels, (bound - 1) as nat);
        if live(levels, tick) {
            lower.push(tick)
        } else {
            lower
        }
    }
}

/// The live ticks of a side, from the best to the worst.
pub open spec fn ladder(buy: bool, levels: Map<u64, Level>) -> Seq<u64> {
    let ascending = live_ticks_below(levels, TICKS as nat);
    if buy {
        ascending.reverse()
    } else {
        ascending
    }
}

/// The `n` best live levels of a side, from the best to the worst; all of them
/// where there are fewer.
pub open spec fn top_levels(buy: bool, levels: Map<u64, Level>, n: nat) -> Seq<Level> {
    let ticks = ladder(buy, levels);
    let shown = if n < ticks.len() { n } else { ticks.len() };
    ticks.take(shown as int).map_values(|tick: u64| levels[tick])
}

/// The best live level of a side, if it has a live level.
pub open spec fn top_level(buy: bool, levels: Map<u64, Level>) -> Option<Level> {
    let ticks = ladder(buy, levels);
    if ticks.len() == 0 {
        None
    } else {
        Some(levels[ticks[0]])
    }
}

/// The levels after a trade of `size` at `tick`: the level there shrinks by it, or
/// goes where the trade takes all that was left.
pub open spec fn levels_traded(levels: Map<u64, Level>, tick: u64, size: u64) -> Map<u64, Level> {
    if !levels.contains_key(tick) {
        levels
    } else if size >= levels[tick].size {
        levels.remove(tick)
    } else {
        levels.insert(tick, Level { size: (levels[tick].size - size) as u64, ..levels[tick] })
    }
}

/// The levels at `cutoff` and better that are older than `seq` are deleted, as of
/// `seq`; the others stay.
pub open spec fn levels_cleared(
    buy: bool,
    levels: Map<u64, Level>,
    cutoff: u64,
    seq: u64,
) -> Map<u64, Level> {
    levels.map_entries(
        |tick: u64, level: Level|
            if !better(buy, cutoff, tick) && level.seq < seq {
                Level { size: 0, seq, ..level }
            } else {
                level
            },
    )
}

/// The deleted levels that are older than `threshold` are forgotten.
pub open spec fn levels_collected(levels: Map<u64, Level>, threshold: u64) -> Map<u64, Level> {
    Map::new(
        |tick: u64| levels.contains_key(tick) && (levels[tick].size != 0 || levels[tick].seq >= threshold),
        |tick: u64| levels[tick],
    )
}

/// One side of the book: its levels by tick, deleted ones included, and the level
/// that was last found to be the best.
#[verifier::ext_equal]
pub struct SideView {
    pub levels: Map<u64, Level>,
    pub best: Option<Level>,
}

impl SideView {
    /// A side that has never held a level.
    pub open spec fn empty() -> SideView {
        SideView { levels: Map::empty(), best: None }
    }

    /// The best level is looked up again. A side without a live level keeps the
    /// best that it had last.
    pub open spec fn refreshed(self, buy: bool) -> SideView {
        match top_level(buy, self.levels) {
            Some(level) => SideView { best: Some(level), ..self },
            None => self,
        }
    }

    /// The level at `tick` is newer than the update, or as new and not to be
    /// replaced: at an equal sequence number an update may delete a level or
    /// revive a deleted one, but not change a live one.
    pub open spec fn outdated(self, tick: u64, event: Event) -> bool {
        self.levels.contains_key(tick) && {
            let level = self.levels[tick];
            ||| event.seq < level.seq
            ||| event.seq == level.seq && level.size != 0 && event.size != 0
        }
    }

    /// The update quotes a better price than the best level, and is older than it.
    pub open spec fn overtaken(self, buy: bool, event: Event) -> bool {
        self.best matches Some(best) && better(buy, event.price, best.price) && event.seq < best.seq
    }

    /// The update goes into the book.
    pub open spec fn accepts(self, buy: bool, tick: u64, event: Event) -> bool {
        !self.outdated(tick, event) && !self.overtaken(buy, event)
    }

    /// The side after an update of the level at `tick`.
    pub open spec fn quoted(self, buy: bool, tick: u64, event: Event) -> SideView {
        if self.accepts(buy, tick, event) {
            SideView {
                levels: self.levels.insert(tick, Level::of_event(event)),
                ..self
            }.refreshed(buy)
        } else {
            self
        }
    }

    /// The side after a trade at `tick`. The best level is not looked up again.
    pub open spec fn traded(self, tick: u64, size: u64) -> SideView {
        SideView { levels: levels_traded(self.levels, tick, size), ..self }
    }

    /// The side after the levels at `cutoff` and better that are older than `seq`
    /// were deleted.
    pub open spec fn cleared(self, buy: bool, cutoff: u64, seq: u64) -> SideView {
        SideView { levels: levels_cleared(buy, self.levels, cutoff, seq), ..self }.refreshed(buy)
    }

    /// The side after its old deleted levels were forgotten.
    pub open spec fn collected(self, threshold: u64) -> SideView {
        SideView { levels: levels_collected(self.levels, threshold), ..self }
    }
}

/// The whole book.
#[verifier::ext_equal]
pub struct BookView {
    pub bids: SideView,
    pub asks: SideView,
    pub last_updated: u64,
    pub last_sequence: u64,
    pub tick_size: u64,
    pub tick_strategy: TickSizingStrategy,
}

/// The higher of two values.
pub open spec fn higher(a: u64, b: u64) -> u64 {
    if a >= b {
        a
    } else {
        b
    }
}

/// The lower of two values.
pub open spec fn lower(a: u64, b: u64) -> u64 {
    if a <= b {
        a
    } else {
        b
    }
}

/// The new best bid and ask, where the quote of one of the two has changed.
pub open spec fn quote_change(
    old_bid: Option<Level>,
    old_ask: Option<Level>,
    new_bid: Option<Level>,
    new_ask: Option<Level>,
) -> Option<(Option<Level>, Option<Level>)> {
    if same_best(old_bid, new_bid) && same_best(old_ask, new_ask) {
        None
    } else {
        Some((new_bid, new_ask))
    }
}

/// Both are absent, or both show the same quote.
pub open spec fn same_best(a: Option<Level>, b: Option<Level>) -> bool {
    match (a, b) {
        (Some(a), Some(b)) => a.same_quote(b),
        (None, None) => true,
        _ => false,
    }
}

impl BookView {
    /// A book that has not seen an event.
    pub open spec fn empty(tick_size: u64, tick_strategy: TickSizingStrategy) -> BookView {
        BookView {
            bids: SideView::empty(),
            asks: SideView::empty(),
            last_updated: 0,
            last_sequence: 0,
            tick_size,
            tick_strategy,
        }
    }

    /// The tick that `price` falls in.
    pub open spec fn tick_of(self, price: u64) -> u64 {
        self.tick_strategy.tick_of(price, self.tick_size)
    }

    /// The bids if `buy`, else the asks.
    pub open spec fn side(self, buy: bool) -> SideView {
        if buy {
            self.bids
        } else {
            self.asks
        }
    }

    /// The book with the bids, or the asks, replaced.
    pub open spec fn with_side(self, buy: bool, side: SideView) -> BookView {
        if buy {
            BookView { bids: side, ..self }
        } else {
            BookView { asks: side, ..self }
        }
    }

    /// The book after an event: the side that the event names has taken it, and
    /// the clock and the sequence counter have not gone back.
    pub open spec fn processed(self, event: Event) -> BookView {
        let tick = self.tick_of(event.price);
        let side = if event.is_trade {
            self.side(event.is_buy).traded(tick, event.size)
        } else {
            self.side(event.is_buy).quoted(event.is_buy, tick, event)
        };
        BookView {
            last_updated: higher(self.last_updated, event.timestamp),
            last_sequence: higher(self.last_sequence, event.seq),
            ..self.with_side(event.is_buy, side)
        }
    }

    /// The book after the bids at the lower of the two prices and above it that
    /// are older than `seq` were deleted.
    pub open spec fn bids_cleared(self, p1: u64, p2: u64, seq: u64) -> BookView {
        self.with_side(true, self.bids.cleared(true, self.tick_of(lower(p1, p2)), seq))
    }

    /// The book after the asks at the higher of the two prices and below it that
    /// are older than `seq` were deleted.
    pub open spec fn asks_cleared(self, p1: u64, p2: u64, seq: u64) -> BookView {
        self.with_side(false, self.asks.cleared(false, self.tick_of(higher(p1, p2)), seq))
    }

    /// The book after its old deleted levels were forgotten.
    pub open spec fn collected(self, threshold: u64) -> BookView {
        BookView {
            bids: self.bids.collected(threshold),
            asks: self.asks.collected(threshold),
            ..self
        }
    }

    /// What holds of a side at all times: each level is filed under the tick of its
    /// price, and the best level is one that had a size and that no live level
    /// beats.
    pub open spec fn side_consistent(self, buy: bool) -> bool {
        let side = self.side(buy);
        &&& forall|tick: u64| #[trigger] side.levels.contains_key(tick) ==> self.tick_of(side.levels[tick].price) == tick
        &&& side.best matches Some(best) ==> best.size != 0
        &&& forall|tick: u64| #[trigger] live(side.levels, tick) ==> {
            side.best matches Some(best) && !better(buy, tick, self.tick_of(best.price))
        }
    }

    /// What holds of a book at all times.
    pub open spec fn consistent(self) -> bool {
        self.side_consistent(true) && self.side_consistent(false)
    }
}

} // verus!
