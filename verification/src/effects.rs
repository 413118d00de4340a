//! What each operation does, said of the fields of the book alone.
use vstd::prelude::*;

use crate::event::{Event, TickSizingStrategy};
use crate::ladder::law_ladder_lists_live_ticks;
use crate::laws::law_no_live_level_beats_the_best;
use crate::level::Level;
use crate::model::{ladder, live, quote_change, top_levels, BookView, SideView};

verus! {

/// A tick spans one tick size: a price lies at or above the start of its tick and
/// below the start of the next. With ticks of no width zero alone is in the first
/// tick and all else in the last.
pub proof fn law_tick_spans_one_tick_size(strategy: TickSizingStrategy, price: u64, tick_size: u64)
    ensures
        tick_size > 0 ==> {
            &&& strategy.tick_of(price, tick_size) * tick_size <= price
            &&& price < (strategy.tick_of(price, tick_size) + 1) * tick_size
        },
        tick_size == 0 && price == 0 ==> strategy.tick_of(price, tick_size) == 0,
        tick_size == 0 && price != 0 ==> strategy.tick_of(price, tick_size) == u64::MAX,
{
    if tick_size > 0 {
        let tick = price as int / tick_size as int;
        let rest = price as int % tick_size as int;
        vstd::arithmetic::div_mod::lemma_fundamental_div_mod(price as int, tick_size as int);
        vstd::arithmetic::div_mod::lemma_mod_bound(price as int, tick_size as int);
        assert(tick * tick_size <= price < (tick + 1) * tick_size) by (nonlinear_arith)
            requires
                price == tick_size * tick + rest,
                0 <= rest < tick_size,
        ;
    }
}

/// A book sizes its ticks by its own tick size.
pub proof fn law_book_ticks_span_its_tick_size(book: BookView, price: u64)
    ensures
        book.tick_size > 0 ==> {
            &&& book.tick_of(price) * book.tick_size <= price
            &&& price < (book.tick_of(price) + 1) * book.tick_size
        },
        book.tick_size == 0 && price == 0 ==> book.tick_of(price) == 0,
        book.tick_size == 0 && price != 0 ==> book.tick_of(price) == u64::MAX,
{
    law_tick_spans_one_tick_size(book.tick_strategy, price, book.tick_size);
}

/// Two prices that are at least one tick size apart never share a tick, and two
/// that share one are closer than that.
pub proof fn law_distant_prices_share_no_tick(book: BookView, low: u64, high: u64)
    requires
        book.tick_size > 0,
        low + book.tick_size <= high,
    ensures
        book.tick_of(low) < book.tick_of(high),
{
    law_book_ticks_span_its_tick_size(book, low);
    law_book_ticks_span_its_tick_size(book, high);
    let a = book.tick_of(low) as int;
    let b = book.tick_of(high) as int;
    let size = book.tick_size as int;
    assert(a < b) by (nonlinear_arith)
        requires
            a * size <= low,
            high < (b + 1) * size,
            low + size <= high,
            size > 0,
    ;
}

/// A level has the price, size, timestamp and sequence number of the event that it
/// is made from.
pub proof fn law_level_has_the_fields_of_its_event(event: Event)
    ensures
        ({
            let level = <Level as vstd::std_specs::convert::FromSpec<Event>>::from_spec(event);
            &&& level.price == event.price
            &&& level.size == event.size
            &&& level.timestamp == event.timestamp
            &&& level.seq == event.seq
        }),
{
}

/// Two levels are equal exactly when price, size and timestamp agree.
pub proof fn law_levels_are_equal_by_quote(a: Level, b: Level)
    ensures
        vstd::std_specs::cmp::PartialEqSpec::eq_spec(&a, &b) <==> {
            &&& a.price == b.price
            &&& a.size == b.size
            &&& a.timestamp == b.timestamp
        },
{
}

/// Whatever the event, the side that it does not name, the tick size and the
/// strategy stay; the clock and the sequence counter become the higher of what
/// they were and what the event brings.
pub proof fn law_event_keeps_the_rest(book: BookView, event: Event)
    ensures
        event.is_buy ==> book.processed(event).asks == book.asks,
        !event.is_buy ==> book.processed(event).bids == book.bids,
        book.processed(event).tick_size == book.tick_size,
        book.processed(event).tick_strategy == book.tick_strategy,
        book.processed(event).last_updated == if event.timestamp > book.last_updated {
            event.timestamp
        } else {
            book.last_updated
        },
        book.processed(event).last_sequence == if event.seq > book.last_sequence {
            event.seq
        } else {
            book.last_sequence
        },
{
}

/// An update comes too late when the level at its tick has a higher sequence
/// number, or the same one while both have a size, or when it beats the price of
/// the best level with a lower sequence number. It then changes neither a level
/// nor the best quote.
pub proof fn law_late_update_changes_nothing(book: BookView, event: Event)
    requires
        !event.is_trade,
        ({
            let side = if event.is_buy { book.bids } else { book.asks };
            let tick = book.tick_of(event.price);
            ||| side.levels.contains_key(tick) && event.seq < side.levels[tick].seq
            ||| side.levels.contains_key(tick) && event.seq == side.levels[tick].seq
                && side.levels[tick].size != 0 && event.size != 0
            ||| side.best is Some && event.seq < side.best->0.seq && (if event.is_buy {
                event.price > side.best->0.price
            } else {
                event.price < side.best->0.price
            })
        }),
    ensures
        book.processed(event).bids == book.bids,
        book.processed(event).asks == book.asks,
{
}

/// An update that does not come too late is what the book then holds at its tick,
/// field by field. No other tick changes.
pub proof fn law_taken_update_sets_its_level(
    book: BookView,
    event: Event,
    before: SideView,
    after: SideView,
)
    requires
        before == (if event.is_buy { book.bids } else { book.asks }),
        after == (if event.is_buy {
            book.processed(event).bids
        } else {
            book.processed(event).asks
        }),
        !event.is_trade,
        ({
            let tick = book.tick_of(event.price);
            &&& before.levels.contains_key(tick) ==> event.seq > before.levels[tick].seq || (event.seq
                == before.levels[tick].seq && (before.levels[tick].size == 0 || event.size == 0))
            &&& before.best is Some ==> event.seq >= before.best->0.seq || (if event.is_buy {
                event.price <= before.best->0.price
            } else {
                event.price >= before.best->0.price
            })
        }),
    ensures
        ({
            let tick = book.tick_of(event.price);
            &&& after.levels.contains_key(tick)
            &&& after.levels[tick].price == event.price
            &&& after.levels[tick].size == event.size
            &&& after.levels[tick].timestamp == event.timestamp
            &&& after.levels[tick].seq == event.seq
            &&& forall|other: u64| #![trigger after.levels.contains_key(other)] other != tick ==> {
                &&& after.levels.contains_key(other) == before.levels.contains_key(other)
                &&& before.levels.contains_key(other) ==> after.levels[other] == before.levels[other]
            }
        }),
{
}

/// The level with a size that no other level with a size is ahead of.
proof fn lemma_refreshed_best(side: SideView, buy: bool)
    ensures
        (exists|tick: u64| #[trigger] side.levels.contains_key(tick) && side.levels[tick].size != 0)
            ==> exists|tick: u64|
            {
                &&& #[trigger] side.levels.contains_key(tick)
                &&& side.levels[tick].size != 0
                &&& side.refreshed(buy).best == Some(side.levels[tick])
                &&& forall|other: u64| #[trigger]
                    side.levels.contains_key(other) && side.levels[other].size != 0 ==> if buy {
                        other <= tick
                    } else {
                        other >= tick
                    }
            },
        !(exists|tick: u64| #[trigger] side.levels.contains_key(tick) && side.levels[tick].size != 0)
            ==> side.refreshed(buy).best == side.best,
        side.refreshed(buy).levels == side.levels,
{
    let ticks = ladder(buy, side.levels);
    law_ladder_lists_live_ticks(buy, side.levels);
    if ticks.len() > 0 {
        assert(ticks.contains(ticks[0]));
        assert(side.levels.contains_key(ticks[0]));
    }
    assert forall|other: u64| #[trigger]
        side.levels.contains_key(other) && side.levels[other].size != 0 implies ticks.len() > 0 && if buy {
        other <= ticks[0]
    } else {
        other >= ticks[0]
    } by {
        assert(live(side.levels, other));
        assert(ticks.contains(other));
        let i = ticks.index_of(other);
        if i > 0 {
            assert(crate::model::better(buy, ticks[0], ticks[i]));
        }
    }
}

/// After an update that does not come too late the best quote of its side is the
/// level with a size at the highest tick for bids, at the lowest for asks. Where no
/// level with a size is left it stays what it was.
pub proof fn law_taken_update_refreshes_the_best(
    book: BookView,
    event: Event,
    before: SideView,
    after: SideView,
)
    requires
        before == (if event.is_buy { book.bids } else { book.asks }),
        after == (if event.is_buy {
            book.processed(event).bids
        } else {
            book.processed(event).asks
        }),
        !event.is_trade,
        ({
            let tick = book.tick_of(event.price);
            &&& before.levels.contains_key(tick) ==> event.seq > before.levels[tick].seq || (event.seq
                == before.levels[tick].seq && (before.levels[tick].size == 0 || event.size == 0))
            &&& before.best is Some ==> event.seq >= before.best->0.seq || (if event.is_buy {
                event.price <= before.best->0.price
            } else {
                event.price >= before.best->0.price
            })
        }),
    ensures
        ({
            let offered = exists|tick: u64| #[trigger]
                after.levels.contains_key(tick) && after.levels[tick].size != 0;
            &&& !offered ==> after.best == before.best
            &&& offered ==> exists|tick: u64|
                {
                    &&& #[trigger] after.levels.contains_key(tick)
                    &&& after.levels[tick].size != 0
                    &&& after.best == Some(after.levels[tick])
                    &&& forall|other: u64| #[trigger]
                        after.levels.contains_key(other) && after.levels[other].size != 0
                            ==> if event.is_buy {
                            other <= tick
                        } else {
                            other >= tick
                        }
                }
            &&& offered ==> after.best == Some(top_levels(event.is_buy, after.levels, 1)[0])
        }),
{
    let buy = event.is_buy;
    let filed = SideView {
        levels: before.levels.insert(book.tick_of(event.price), Level::of_event(event)),
        ..before
    };
    lemma_refreshed_best(filed, buy);
    let ticks = ladder(buy, filed.levels);
    law_ladder_lists_live_ticks(buy, filed.levels);
    assert forall|tick: u64| #[trigger]
        filed.levels.contains_key(tick) && filed.levels[tick].size != 0 implies ticks.len() > 0 by {
        assert(live(filed.levels, tick));
        assert(ticks.contains(tick));
    }
}

/// The stream tells the best quotes after an event exactly when one of them has come
/// up, gone, or changed in price, size or timestamp.
pub proof fn law_stream_tells_every_quote_change(book: BookView, event: Event)
    ensures
        ({
            let after = book.processed(event);
            let change = quote_change(book.bids.best, book.asks.best, after.bids.best, after.asks.best);
            let bid_stays = (book.bids.best is None && after.bids.best is None) || (book.bids.best is Some
                && after.bids.best is Some && book.bids.best->0.price == after.bids.best->0.price
                && book.bids.best->0.size == after.bids.best->0.size && book.bids.best->0.timestamp
                == after.bids.best->0.timestamp);
            let ask_stays = (book.asks.best is None && after.asks.best is None) || (book.asks.best is Some
                && after.asks.best is Some && book.asks.best->0.price == after.asks.best->0.price
                && book.asks.best->0.size == after.asks.best->0.size && book.asks.best->0.timestamp
                == after.asks.best->0.timestamp);
            &&& bid_stays && ask_stays ==> change is None
            &&& !bid_stays || !ask_stays ==> change == Some((after.bids.best, after.asks.best))
        }),
{
}

/// A trade takes its size off the level at its tick, and the level away where
/// nothing is left of it. Neither the rest of the level, nor another level, nor the
/// best quote changes.
pub proof fn law_trade_changes_one_size(
    book: BookView,
    trade: Event,
    before: SideView,
    after: SideView,
)
    requires
        before == (if trade.is_buy { book.bids } else { book.asks }),
        after == (if trade.is_buy {
            book.processed(trade).bids
        } else {
            book.processed(trade).asks
        }),
        trade.is_trade,
    ensures
        ({
            let tick = book.tick_of(trade.price);
            &&& after.best == before.best
            &&& after.levels.contains_key(tick) <==> before.levels.contains_key(tick) && trade.size
                < before.levels[tick].size
            &&& after.levels.contains_key(tick) ==> {
                &&& after.levels[tick].size == before.levels[tick].size - trade.size
                &&& after.levels[tick].price == before.levels[tick].price
                &&& after.levels[tick].timestamp == before.levels[tick].timestamp
                &&& after.levels[tick].seq == before.levels[tick].seq
            }
            &&& forall|other: u64| #![trigger after.levels.contains_key(other)] other != tick ==> {
                &&& after.levels.contains_key(other) == before.levels.contains_key(other)
                &&& before.levels.contains_key(other) ==> after.levels[other] == before.levels[other]
            }
        }),
{
}

/// Deleting bids in a range concerns those at the tick of the lower price and above
/// whose sequence number is below the given one: they lose their size and take that
/// number. Every other bid, and all the rest of the book, stays.
pub proof fn law_clearing_bids_level_by_level(book: BookView, p1: u64, p2: u64, seq: u64, tick: u64)
    ensures
        ({
            let from = book.tick_of(if p1 < p2 { p1 } else { p2 });
            let before = book.bids.levels;
            let after = book.bids_cleared(p1, p2, seq).bids.levels;
            &&& after.contains_key(tick) <==> before.contains_key(tick)
            &&& before.contains_key(tick) && (tick < from || before[tick].seq >= seq) ==> after[tick]
                == before[tick]
            &&& before.contains_key(tick) && tick >= from && before[tick].seq < seq ==> {
                &&& after[tick].size == 0
                &&& after[tick].seq == seq
                &&& after[tick].price == before[tick].price
                &&& after[tick].timestamp == before[tick].timestamp
            }
        }),
        ({
            let from = book.tick_of(if p1 < p2 { p1 } else { p2 });
            let before = book.bids.levels;
            let after = book.bids_cleared(p1, p2, seq).bids.levels;
            after.contains_key(tick) && after[tick].size != 0 <==> {
                &&& before.contains_key(tick)
                &&& before[tick].size != 0
                &&& tick < from || before[tick].seq >= seq
            }
        }),
        book.bids_cleared(p1, p2, seq).asks == book.asks,
        book.bids_cleared(p1, p2, seq).last_updated == book.last_updated,
        book.bids_cleared(p1, p2, seq).last_sequence == book.last_sequence,
        book.bids_cleared(p1, p2, seq).tick_size == book.tick_size,
        book.bids_cleared(p1, p2, seq).tick_strategy == book.tick_strategy,
{
}

/// Deleting asks in a range concerns those at the tick of the higher price and below
/// whose sequence number is below the given one: they lose their size and take that
/// number. Every other ask, and all the rest of the book, stays.
pub proof fn law_clearing_asks_level_by_level(book: BookView, p1: u64, p2: u64, seq: u64, tick: u64)
    ensures
        ({
            let to = book.tick_of(if p1 > p2 { p1 } else { p2 });
            let before = book.asks.levels;
            let after = book.asks_cleared(p1, p2, seq).asks.levels;
            &&& after.contains_key(tick) <==> before.contains_key(tick)
            &&& before.contains_key(tick) && (tick > to || before[tick].seq >= seq) ==> after[tick]
                == before[tick]
            &&& before.contains_key(tick) && tick <= to && before[tick].seq < seq ==> {
                &&& after[tick].size == 0
                &&& after[tick].seq == seq
                &&& after[tick].price == before[tick].price
                &&& after[tick].timestamp == before[tick].timestamp
            }
        }),
        ({
            let to = book.tick_of(if p1 > p2 { p1 } else { p2 });
            let before = book.asks.levels;
            let after = book.asks_cleared(p1, p2, seq).asks.levels;
            after.contains_key(tick) && after[tick].size != 0 <==> {
                &&& before.contains_key(tick)
                &&& before[tick].size != 0
                &&& tick > to || before[tick].seq >= seq
            }
        }),
        book.asks_cleared(p1, p2, seq).bids == book.bids,
        book.asks_cleared(p1, p2, seq).last_updated == book.last_updated,
        book.asks_cleared(p1, p2, seq).last_sequence == book.last_sequence,
        book.asks_cleared(p1, p2, seq).tick_size == book.tick_size,
        book.asks_cleared(p1, p2, seq).tick_strategy == book.tick_strategy,
{
}

/// After a deletion in a range the best bid is the bid with a size at the highest
/// tick, and the best ask the ask with a size at the lowest. Where none is left it
/// stays what it was.
pub proof fn law_clearing_refreshes_the_best(book: BookView, p1: u64, p2: u64, seq: u64)
    ensures
        ({
            let after = book.bids_cleared(p1, p2, seq).bids;
            let offered = exists|tick: u64| #[trigger]
                after.levels.contains_key(tick) && after.levels[tick].size != 0;
            &&& !offered ==> after.best == book.bids.best
            &&& offered ==> exists|tick: u64|
                {
                    &&& #[trigger] after.levels.contains_key(tick)
                    &&& after.levels[tick].size != 0
                    &&& after.best == Some(after.levels[tick])
                    &&& forall|other: u64| #[trigger]
                        after.levels.contains_key(other) && after.levels[other].size != 0 ==> other <= tick
                }
        }),
        ({
            let after = book.asks_cleared(p1, p2, seq).asks;
            let offered = exists|tick: u64| #[trigger]
                after.levels.contains_key(tick) && after.levels[tick].size != 0;
            &&& !offered ==> after.best == book.asks.best
            &&& offered ==> exists|tick: u64|
                {
                    &&& #[trigger] after.levels.contains_key(tick)
                    &&& after.levels[tick].size != 0
                    &&& after.best == Some(after.levels[tick])
                    &&& forall|other: u64| #[trigger]
                        after.levels.contains_key(other) && after.levels[other].size != 0 ==> other >= tick
                }
        }),
{
    let from = book.tick_of(crate::model::lower(p1, p2));
    let to = book.tick_of(crate::model::higher(p1, p2));
    let bids = SideView {
        levels: crate::model::levels_cleared(true, book.bids.levels, from, seq),
        ..book.bids
    };
    let asks = SideView {
        levels: crate::model::levels_cleared(false, book.asks.levels, to, seq),
        ..book.asks
    };
    lemma_refreshed_best(bids, true);
    lemma_refreshed_best(asks, false);
}

/// Collecting drops the levels without a size whose sequence number is below the
/// threshold, on both sides. Every other level, and all the rest of the book,
/// stays.
pub proof fn law_collecting_level_by_level(book: BookView, threshold: u64, tick: u64)
    ensures
        ({
            let before = book.bids.levels;
            let after = book.collected(threshold).bids.levels;
            &&& after.contains_key(tick) <==> before.contains_key(tick) && (before[tick].size != 0
                || before[tick].seq >= threshold)
            &&& after.contains_key(tick) ==> after[tick] == before[tick]
        }),
        ({
            let before = book.asks.levels;
            let after = book.collected(threshold).asks.levels;
            &&& after.contains_key(tick) <==> before.contains_key(tick) && (before[tick].size != 0
                || before[tick].seq >= threshold)
            &&& after.contains_key(tick) ==> after[tick] == before[tick]
        }),
        book.collected(threshold).bids.best == book.bids.best,
        book.collected(threshold).asks.best == book.asks.best,
        book.collected(threshold).last_updated == book.last_updated,
        book.collected(threshold).last_sequence == book.last_sequence,
        book.collected(threshold).tick_size == book.tick_size,
        book.collected(threshold).tick_strategy == book.tick_strategy,
{
}

/// The top levels are levels with a size, at strictly falling ticks for bids and
/// strictly rising ones for asks. None is passed over: a level with a size is
/// missing only where as many as asked for are shown, and lies behind all of them.
pub proof fn law_top_levels_tick_by_tick(buy: bool, levels: Map<u64, Level>, n: nat)
    ensures
        top_levels(buy, levels, n).len() <= n,
        exists|ticks: Seq<u64>|
            {
                &&& #[trigger] ticks.len() == top_levels(buy, levels, n).len()
                &&& forall|i: int| 0 <= i < ticks.len() ==> {
                    &&& levels.contains_key(#[trigger] ticks[i])
                    &&& levels[ticks[i]].size != 0
                    &&& top_levels(buy, levels, n)[i] == levels[ticks[i]]
                }
                &&& forall|i: int, j: int| 0 <= i < j < ticks.len() ==> if buy {
                    #[trigger] ticks[i] > #[trigger] ticks[j]
                } else {
                    ticks[i] < ticks[j]
                }
                &&& forall|tick: u64| #[trigger]
                    levels.contains_key(tick) && levels[tick].size != 0 && !ticks.contains(tick) ==> {
                        &&& ticks.len() == n
                        &&& forall|i: int| 0 <= i < ticks.len() ==> if buy {
                            #[trigger] ticks[i] > tick
                        } else {
                            ticks[i] < tick
                        }
                    }
            },
{
    let all = ladder(buy, levels);
    let shown = top_levels(buy, levels, n).len() as int;
    let ticks = all.take(shown);
    law_ladder_lists_live_ticks(buy, levels);
    assert forall|i: int| 0 <= i < ticks.len() implies {
        &&& levels.contains_key(#[trigger] ticks[i])
        &&& levels[ticks[i]].size != 0
        &&& top_levels(buy, levels, n)[i] == levels[ticks[i]]
    } by {
        assert(all.contains(all[i]));
    }
    assert forall|i: int, j: int| 0 <= i < j < ticks.len() implies if buy {
        #[trigger] ticks[i] > #[trigger] ticks[j]
    } else {
        ticks[i] < ticks[j]
    } by {
        assert(crate::model::better(buy, all[i], all[j]));
    }
    assert forall|tick: u64| #[trigger]
        levels.contains_key(tick) && levels[tick].size != 0 && !ticks.contains(tick) implies {
        &&& ticks.len() == n
        &&& forall|i: int| 0 <= i < ticks.len() ==> if buy {
            #[trigger] ticks[i] > tick
        } else {
            ticks[i] < tick
        }
    } by {
        assert(live(levels, tick));
        assert(all.contains(tick));
        let j = all.index_of(tick);
        if j < shown {
            assert(ticks[j] == tick);
        }
        assert forall|i: int| 0 <= i < ticks.len() implies if buy {
            #[trigger] ticks[i] > tick
        } else {
            ticks[i] < tick
        } by {
            assert(crate::model::better(buy, all[i], all[j]));
        }
    }
    assert(ticks.len() == top_levels(buy, levels, n).len());
}

/// In a consistent book each level is filed under the tick of its price, a best
/// quote has a size, and a side with a level that has one has a best quote, whose
/// tick is at least as good.
pub proof fn law_consistent_book_in_full(book: BookView, tick: u64)
    requires
        book.consistent(),
    ensures
        book.bids.levels.contains_key(tick) ==> book.tick_of(book.bids.levels[tick].price) == tick,
        book.asks.levels.contains_key(tick) ==> book.tick_of(book.asks.levels[tick].price) == tick,
        book.bids.best is Some ==> book.bids.best->0.size != 0,
        book.asks.best is Some ==> book.asks.best->0.size != 0,
        book.bids.levels.contains_key(tick) && book.bids.levels[tick].size != 0 ==> book.bids.best is Some
            && tick <= book.tick_of(book.bids.best->0.price),
        book.asks.levels.contains_key(tick) && book.asks.levels[tick].size != 0 ==> book.asks.best is Some
            && tick >= book.tick_of(book.asks.best->0.price),
{
    assert(book.side_consistent(true));
    assert(book.side_consistent(false));
    if live(book.bids.levels, tick) {
        law_no_live_level_beats_the_best(book, true, tick);
    }
    if live(book.asks.levels, tick) {
        law_no_live_level_beats_the_best(book, false, tick);
    }
}

} // verus!
