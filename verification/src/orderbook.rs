//! The order book.
use vstd::prelude::*;

use crate::event::{Event, TickSizingStrategy};
use crate::ladder::law_ladder_lists_live_ticks;
use crate::level::Level;
use crate::mid::{cross_weighted, halfway, MidPrice};
use crate::model::{better, ladder, levels_cleared, live, quote_change, top_levels, BookView, SideView};
use crate::side::BookSide;

verus! {

/// Both sides of a market, and how far its feed has come.
#[derive(Debug)]
pub struct Orderbook {
    pub bids: BookSide,
    pub asks: BookSide,
    /// The latest timestamp seen.
    pub last_updated: u64,
    /// The highest sequence number seen.
    pub last_sequence: u64,
    /// How many price units a tick spans.
    pub tick_size: u64,
    pub tick_strategy: TickSizingStrategy,
}

impl View for Orderbook {
    type V = BookView;

    open spec fn view(&self) -> BookView {
        BookView {
            bids: self.bids@,
            asks: self.asks@,
            last_updated: self.last_updated,
            last_sequence: self.last_sequence,
            tick_size: self.tick_size,
            tick_strategy: self.tick_strategy,
        }
    }
}

impl Clone for Orderbook {
    fn clone(&self) -> (copy: Self)
        ensures
            copy@ == self@,
            self.wf() ==> copy.wf(),
            copy.bids@ == self.bids@,
            copy.asks@ == self.asks@,
            copy.last_updated == self.last_updated,
            copy.last_sequence == self.last_sequence,
            copy.tick_size == self.tick_size,
            copy.tick_strategy == self.tick_strategy,
    {
        Orderbook {
            bids: self.bids.clone(),
            asks: self.asks.clone(),
            last_updated: self.last_updated,
            last_sequence: self.last_sequence,
            tick_size: self.tick_size,
            tick_strategy: self.tick_strategy,
        }
    }
}

impl Default for Orderbook {
    /// An empty book with ticks of one unit.
    fn default() -> (book: Self)
        ensures
            book.wf(),
            book@ == BookView::empty(1, TickSizingStrategy::Fixed),
            book.bids@.levels == Map::<u64, Level>::empty(),
            book.asks@.levels == Map::<u64, Level>::empty(),
            book.bids@.best is None,
            book.asks@.best is None,
            book.last_updated == 0,
            book.last_sequence == 0,
            book.tick_size == 1,
            book.tick_strategy == TickSizingStrategy::Fixed,
    {
        Self::new(1)
    }
}

impl Orderbook {
    /// What every operation relies on and keeps.
    pub open spec fn wf(&self) -> bool {
        &&& self.bids.is_buy()
        &&& !self.asks.is_buy()
        &&& self@.consistent()
    }

    /// An empty book with ticks of the given width.
    pub fn new(tick_size: u64) -> (book: Self)
        ensures
            book.wf(),
            book@ == BookView::empty(tick_size, TickSizingStrategy::Fixed),
            book.bids@.levels == Map::<u64, Level>::empty(),
            book.asks@.levels == Map::<u64, Level>::empty(),
            book.bids@.best is None,
            book.asks@.best is None,
            book.last_updated == 0,
            book.last_sequence == 0,
            book.tick_size == tick_size,
            book.tick_strategy == TickSizingStrategy::Fixed,
    {
        Self::new_with_strategy(tick_size, TickSizingStrategy::Fixed)
    }

    /// An empty book whose ticks are sized by the given strategy.
    pub fn new_with_strategy(tick_size: u64, tick_strategy: TickSizingStrategy) -> (book: Self)
        ensures
            book.wf(),
            book@ == BookView::empty(tick_size, tick_strategy),
            book.bids@.levels == Map::<u64, Level>::empty(),
            book.asks@.levels == Map::<u64, Level>::empty(),
            book.bids@.best is None,
            book.asks@.best is None,
            book.last_updated == 0,
            book.last_sequence == 0,
            book.tick_size == tick_size,
            book.tick_strategy == tick_strategy,
    {
        Self {
            bids: BookSide::new(true),
            asks: BookSide::new(false),
            last_updated: 0,
            last_sequence: 0,
            tick_size,
            tick_strategy,
        }
    }

    /// The tick that `price` falls in.
    pub fn get_price_tick(&self, price: u64) -> (tick: u64)
        ensures
            tick == self@.tick_of(price),
            self.tick_size > 0 ==> tick * self.tick_size <= price && price < (tick + 1) * self.tick_size,
            self.tick_size == 0 && price == 0 ==> tick == 0,
            self.tick_size == 0 && price != 0 ==> tick == u64::MAX,
    {
        self.tick_strategy.price_to_tick(price, self.tick_size)
    }

    /// `process` for an event that is given field by field.
    pub fn process_raw(
        &mut self,
        timestamp: u64,
        seq: u64,
        is_trade: bool,
        is_buy: bool,
        price: u64,
        size: u64,
    )
        requires
            old(self).wf(),
        ensures
            final(self).wf(),
            final(self)@ == old(self)@.processed(
                (Event { timestamp, seq, is_trade, is_buy, price, size }),
            ),
    {
        let event = Event { timestamp, seq, is_trade, is_buy, price, size };
        self.process(event);
    }

    /// `process_stream_bbo` for an event that is given field by field.
    pub fn process_stream_bbo_raw(
        &mut self,
        timestamp: u64,
        seq: u64,
        is_trade: bool,
        is_buy: bool,
        price: u64,
        size: u64,
    ) -> (change: Option<(Option<Level>, Option<Level>)>)
        requires
            old(self).wf(),
        ensures
            final(self).wf(),
            final(self)@ == old(self)@.processed(
                (Event { timestamp, seq, is_trade, is_buy, price, size }),
            ),
            change == quote_change(
                old(self)@.bids.best,
                old(self)@.asks.best,
                final(self)@.bids.best,
                final(self)@.asks.best,
            ),
            ({
                let old_bid = old(self)@.bids.best;
                let old_ask = old(self)@.asks.best;
                let new_bid = final(self)@.bids.best;
                let new_ask = final(self)@.asks.best;
                let bid_stays = (old_bid is None && new_bid is None) || (old_bid is Some && new_bid is Some
                    && old_bid->0.price == new_bid->0.price && old_bid->0.size == new_bid->0.size
                    && old_bid->0.timestamp == new_bid->0.timestamp);
                let ask_stays = (old_ask is None && new_ask is None) || (old_ask is Some && new_ask is Some
                    && old_ask->0.price == new_ask->0.price && old_ask->0.size == new_ask->0.size
                    && old_ask->0.timestamp == new_ask->0.timestamp);
                &&& bid_stays && ask_stays ==> change is None
                &&& !bid_stays || !ask_stays ==> change == Some((new_bid, new_ask))
            }),
    {
        let event = Event { timestamp, seq, is_trade, is_buy, price, size };
        self.process_stream_bbo(event)
    }

    /// Takes an event into the book.
    pub fn process(&mut self, event: Event)
        requires
            old(self).wf(),
        ensures
            final(self).wf(),
            final(self)@ == old(self)@.processed(event),
    {
        if event.is_trade {
            self.process_trade(event);
        } else {
            self.process_lvl2(event);
        }
        if event.timestamp > self.last_updated {
            self.last_updated = event.timestamp;
        }
        if event.seq > self.last_sequence {
            self.last_sequence = event.seq;
        }
        proof {
            lemma_processed_consistent(old(self)@, event);
        }
    }

    /// Takes an event into the book, and tells the best bid and ask where one of
    /// the two quotes has changed.
    pub fn process_stream_bbo(&mut self, event: Event) -> (change: Option<(Option<Level>, Option<Level>)>)
        requires
            old(self).wf(),
        ensures
            final(self).wf(),
            final(self)@ == old(self)@.processed(event),
            change == quote_change(
                old(self)@.bids.best,
                old(self)@.asks.best,
                final(self)@.bids.best,
                final(self)@.asks.best,
            ),
            ({
                let old_bid = old(self)@.bids.best;
                let old_ask = old(self)@.asks.best;
                let new_bid = final(self)@.bids.best;
                let new_ask = final(self)@.asks.best;
                let bid_stays = (old_bid is None && new_bid is None) || (old_bid is Some && new_bid is Some
                    && old_bid->0.price == new_bid->0.price && old_bid->0.size == new_bid->0.size
                    && old_bid->0.timestamp == new_bid->0.timestamp);
                let ask_stays = (old_ask is None && new_ask is None) || (old_ask is Some && new_ask is Some
                    && old_ask->0.price == new_ask->0.price && old_ask->0.size == new_ask->0.size
                    && old_ask->0.timestamp == new_ask->0.timestamp);
                &&& bid_stays && ask_stays ==> change is None
                &&& !bid_stays || !ask_stays ==> change == Some((new_bid, new_ask))
            }),
    {
        let old_bid = self.best_bid();
        let old_ask = self.best_ask();
        self.process(event);
        let new_bid = self.best_bid();
        let new_ask = self.best_ask();
        if old_bid != new_bid || old_ask != new_ask {
            Some((new_bid, new_ask))
        } else {
            None
        }
    }

    fn process_lvl2(&mut self, event: Event)
        requires
            old(self).bids.is_buy(),
            !old(self).asks.is_buy(),
        ensures
            final(self).bids.is_buy(),
            !final(self).asks.is_buy(),
            final(self)@ == old(self)@.with_side(
                event.is_buy,
                old(self)@.side(event.is_buy).quoted(
                    event.is_buy,
                    old(self)@.tick_of(event.price),
                    event,
                ),
            ),
    {
        let price_ticks = self.get_price_tick(event.price);
        if event.is_buy {
            self.bids.quote(price_ticks, event);
        } else {
            self.asks.quote(price_ticks, event);
        }
    }

    fn process_trade(&mut self, event: Event)
        ensures
            final(self).bids.is_buy() == old(self).bids.is_buy(),
            final(self).asks.is_buy() == old(self).asks.is_buy(),
            final(self)@ == old(self)@.with_side(
                event.is_buy,
                old(self)@.side(event.is_buy).traded(
                    old(self)@.tick_of(event.price),
                    event.size,
                ),
            ),
    {
        let price_ticks = self.get_price_tick(event.price);
        if event.is_buy {
            self.bids.trade(price_ticks, event.size);
        } else {
            self.asks.trade(price_ticks, event.size);
        }
    }

    /// The best bid as last looked up.
    pub fn best_bid(&self) -> (best: Option<Level>)
        ensures
            best == self@.bids.best,
    {
        self.bids.best()
    }

    /// The best ask as last looked up.
    pub fn best_ask(&self) -> (best: Option<Level>)
        ensures
            best == self@.asks.best,
    {
        self.asks.best()
    }

    /// The `n` best bids, from the highest price to the lowest.
    pub fn top_bids(&self, n: usize) -> (levels: Vec<Level>)
        requires
            self.wf(),
        ensures
            levels@ == top_levels(true, self@.bids.levels, n as nat),
    {
        self.bids.top(n)
    }

    /// The `n` best asks, from the lowest price to the highest.
    pub fn top_asks(&self, n: usize) -> (levels: Vec<Level>)
        requires
            self.wf(),
        ensures
            levels@ == top_levels(false, self@.asks.levels, n as nat),
    {
        self.asks.top(n)
    }

    /// Half way between the best bid and the best ask.
    pub fn midprice(&self) -> (mid: Option<MidPrice>)
        ensures
            match (self@.bids.best, self@.asks.best) {
                (Some(bid), Some(ask)) => mid matches Some(mid) && mid.is_quotient(bid.price + ask.price, 2),
                _ => mid is None,
            },
            mid is Some <==> self@.bids.best is Some && self@.asks.best is Some,
            mid is Some ==> {
                &&& mid->0.den == 2
                &&& mid->0.num < 2
                &&& mid->0.whole * 2 + mid->0.num == self@.bids.best->0.price + self@.asks.best->0.price
            },
    {
        if let (Some(best_bid), Some(best_ask)) = (self.best_bid(), self.best_ask()) {
            return Some(halfway(best_bid.price, best_ask.price));
        }
        None
    }

    /// Between the best bid and the best ask, the closer to either the more is
    /// offered on the other side.
    pub fn weighted_midprice(&self) -> (mid: Option<MidPrice>)
        requires
            self.wf(),
        ensures
            match (self@.bids.best, self@.asks.best) {
                (Some(bid), Some(ask)) => mid matches Some(mid) && mid.is_quotient(
                    bid.size * ask.price + bid.price * ask.size,
                    bid.size + ask.size,
                ),
                _ => mid is None,
            },
            mid is Some <==> self@.bids.best is Some && self@.asks.best is Some,
            mid is Some ==> {
                let bid = self@.bids.best->0;
                let ask = self@.asks.best->0;
                &&& mid->0.den == bid.size + ask.size
                &&& mid->0.num < bid.size + ask.size
                &&& mid->0.whole * (bid.size + ask.size) + mid->0.num == bid.size * ask.price + bid.price
                    * ask.size
            },
    {
        if let (Some(best_bid), Some(best_ask)) = (self.best_bid(), self.best_ask()) {
            return Some(cross_weighted(&best_bid, &best_ask));
        }
        None
    }

    /// Deletes the bids at the lower of the two prices and above it that are older
    /// than `seq`.
    pub fn fm_delete_bid_levels_in_range(&mut self, p1: u64, p2: u64, seq: u64)
        requires
            old(self).wf(),
        ensures
            final(self).wf(),
            final(self)@ == old(self)@.bids_cleared(p1, p2, seq),
    {
        let min_price = if p1 <= p2 { p1 } else { p2 };
        let cutoff_tick = self.get_price_tick(min_price);
        self.bids.clear(cutoff_tick, seq);
        proof {
            lemma_cleared_consistent(old(self)@, true, cutoff_tick, seq);
        }
    }

    /// Deletes the asks at the higher of the two prices and below it that are older
    /// than `seq`.
    pub fn fm_delete_ask_levels_in_range(&mut self, p1: u64, p2: u64, seq: u64)
        requires
            old(self).wf(),
        ensures
            final(self).wf(),
            final(self)@ == old(self)@.asks_cleared(p1, p2, seq),
    {
        let max_price = if p1 >= p2 { p1 } else { p2 };
        let cutoff_tick = self.get_price_tick(max_price);
        self.asks.clear(cutoff_tick, seq);
        proof {
            lemma_cleared_consistent(old(self)@, false, cutoff_tick, seq);
        }
    }

    /// Forgets the deleted levels that are older than the threshold and no longer
    /// needed to tell late updates.
    pub fn fm_gc_zero_size_levels(&mut self, seq_threshold: u64)
        requires
            old(self).wf(),
        ensures
            final(self).wf(),
            final(self)@ == old(self)@.collected(seq_threshold),
    {
        self.bids.collect(seq_threshold);
        self.asks.collect(seq_threshold);
        proof {
            lemma_collected_consistent(old(self)@, seq_threshold);
        }
    }
}

/// The best level of a consistent side, once looked up again, is beaten by none.
proof fn lemma_refreshed(book: BookView, buy: bool)
    requires
        forall|tick: u64| #[trigger] book.side(buy).levels.contains_key(tick)
            ==> book.tick_of(book.side(buy).levels[tick].price) == tick,
        book.side(buy).best matches Some(best) ==> best.size != 0,
    ensures
        book.with_side(buy, book.side(buy).refreshed(buy)).side_consistent(buy),
{
    let side = book.side(buy);
    let ticks = ladder(buy, side.levels);
    law_ladder_lists_live_ticks(buy, side.levels);
    if ticks.len() > 0 {
        assert(ticks.contains(ticks[0]));
    }
    assert forall|tick: u64| #[trigger] live(side.levels, tick) implies {
        side.refreshed(buy).best matches Some(best) && !better(buy, tick, book.tick_of(best.price))
    } by {
        assert(ticks.contains(tick));
        let i = ticks.index_of(tick);
        if i > 0 {
            assert(better(buy, ticks[0], ticks[i]));
        }
    }
}

/// A side stays consistent when levels go or shrink.
proof fn lemma_thinned(book: BookView, buy: bool, left: Map<u64, Level>)
    requires
        book.side_consistent(buy),
        forall|tick: u64| #[trigger] left.contains_key(tick) ==> {
            &&& book.side(buy).levels.contains_key(tick)
            &&& left[tick].price == book.side(buy).levels[tick].price
            &&& left[tick].size <= book.side(buy).levels[tick].size
        },
    ensures
        book.with_side(buy, SideView { levels: left, ..book.side(buy) }).side_consistent(buy),
{
    let levels = book.side(buy).levels;
    assert forall|tick: u64| #[trigger] live(left, tick) implies live(levels, tick) by {}
}

proof fn lemma_processed_consistent(book: BookView, event: Event)
    requires
        book.consistent(),
    ensures
        book.processed(event).consistent(),
{
    let buy = event.is_buy;
    let tick = book.tick_of(event.price);
    let side = book.side(buy);
    let after = book.processed(event);
    if event.is_trade {
        lemma_thinned(book, buy, side.traded(tick, event.size).levels);
    } else if side.accepts(buy, tick, event) {
        let filed = SideView { levels: side.levels.insert(tick, Level::of_event(event)), ..side };
        lemma_refreshed(book.with_side(buy, filed), buy);
    }
    assert(after.side_consistent(buy));
    assert(after.side_consistent(!buy));
}

proof fn lemma_cleared_consistent(book: BookView, buy: bool, cutoff: u64, seq: u64)
    requires
        book.consistent(),
    ensures
        book.with_side(buy, book.side(buy).cleared(buy, cutoff, seq)).consistent(),
{
    let side = book.side(buy);
    let deleted = SideView { levels: levels_cleared(buy, side.levels, cutoff, seq), ..side };
    lemma_refreshed(book.with_side(buy, deleted), buy);
    let after = book.with_side(buy, side.cleared(buy, cutoff, seq));
    assert(after.side_consistent(buy));
    assert(after.side_consistent(!buy));
}

proof fn lemma_collected_consistent(book: BookView, threshold: u64)
    requires
        book.consistent(),
    ensures
        book.collected(threshold).consistent(),
{
    lemma_thinned(book, true, book.bids.collected(threshold).levels);
    lemma_thinned(book, false, book.asks.collected(threshold).levels);
    assert(book.collected(threshold).side_consistent(true));
    assert(book.collected(threshold).side_consistent(false));
}

} // verus!
