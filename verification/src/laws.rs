//! What holds of the book across operations, whatever the events.
use vstd::prelude::*;

use crate::event::Event;
use crate::ladder::law_ladder_lists_live_ticks;
use crate::level::Level;
use crate::mid::MidPrice;
use crate::model::{
    better, higher, ladder, levels_cleared, live, live_ticks_below, quote_change, top_levels, BookView,
    SideView, TICKS,
};

verus! {

/// The book with nothing changed but its clock and its sequence counter.
pub open spec fn only_noted(book: BookView, event: Event) -> BookView {
    BookView {
        last_updated: higher(book.last_updated, event.timestamp),
        last_sequence: higher(book.last_sequence, event.seq),
        ..book
    }
}

/// An update that is older than the level at its tick, live or deleted, changes
/// no level and no best quote.
pub proof fn law_older_update_is_ignored(book: BookView, event: Event)
    requires
        !event.is_trade,
        book.side(event.is_buy).levels.contains_key(book.tick_of(event.price)),
        event.seq < book.side(event.is_buy).levels[book.tick_of(event.price)].seq,
    ensures
        book.processed(event) == only_noted(book, event),
{
}

/// An update with the sequence number of the live level at its tick does not
/// change its size, unless to delete it.
pub proof fn law_equal_sequence_update_is_ignored(book: BookView, event: Event)
    requires
        !event.is_trade,
        event.size != 0,
        live(book.side(event.is_buy).levels, book.tick_of(event.price)),
        event.seq == book.side(event.is_buy).levels[book.tick_of(event.price)].seq,
    ensures
        book.processed(event) == only_noted(book, event),
{
}

/// An update that would lead its side but is older than the best level changes no
/// level and no best quote.
pub proof fn law_overtaken_update_is_ignored(book: BookView, event: Event, best: Level)
    requires
        !event.is_trade,
        book.side(event.is_buy).best == Some(best),
        better(event.is_buy, event.price, best.price),
        event.seq < best.seq,
    ensures
        book.processed(event) == only_noted(book, event),
{
}

/// An update that is not older than what it replaces nor overtaken by the best
/// level, and that does not change a live level of its own sequence number, is
/// what the book then holds at its tick. It is shown there unless it deletes.
pub proof fn law_fresh_update_is_taken(book: BookView, event: Event)
    requires
        !event.is_trade,
        book.side(event.is_buy).levels.contains_key(book.tick_of(event.price)) ==> {
            let level = book.side(event.is_buy).levels[book.tick_of(event.price)];
            event.seq > level.seq || event.seq == level.seq && (level.size == 0 || event.size == 0)
        },
        book.side(event.is_buy).best matches Some(best) ==> {
            event.seq >= best.seq || !better(event.is_buy, event.price, best.price)
        },
    ensures
        book.processed(event).side(event.is_buy).levels == book.side(event.is_buy).levels.insert(
            book.tick_of(event.price),
            Level::of_event(event),
        ),
        live(book.processed(event).side(event.is_buy).levels, book.tick_of(event.price)) <==> event.size != 0,
{
}

/// Once an update was taken, the best quote of its side is the first of its top
/// levels. A side left without a live level keeps the best quote that it had.
pub proof fn law_best_is_top_after_update(book: BookView, event: Event)
    requires
        !event.is_trade,
        book.side(event.is_buy).accepts(event.is_buy, book.tick_of(event.price), event),
    ensures
        ({
            let before = book.side(event.is_buy);
            let after = book.processed(event).side(event.is_buy);
            let top = top_levels(event.is_buy, after.levels, 1);
            if top.len() == 0 {
                after.best == before.best
            } else {
                after.best == Some(top[0])
            }
        }),
{
}

/// An event leaves the other side as it was.
pub proof fn law_other_side_is_untouched(book: BookView, event: Event)
    ensures
        book.processed(event).side(!event.is_buy) == book.side(!event.is_buy),
{
}

/// An event changes at most the level at its own tick.
pub proof fn law_other_ticks_are_untouched(book: BookView, event: Event, tick: u64)
    requires
        tick != book.tick_of(event.price),
    ensures
        ({
            let before = book.side(event.is_buy).levels;
            let after = book.processed(event).side(event.is_buy).levels;
            &&& after.contains_key(tick) == before.contains_key(tick)
            &&& before.contains_key(tick) ==> after[tick] == before[tick]
        }),
{
}

/// The clock and the sequence counter do not go back, and end at the highest value
/// seen in whatever order two events come.
pub proof fn law_progress_is_highest_seen(book: BookView, first: Event, second: Event)
    ensures
        book.processed(first).last_updated >= book.last_updated,
        book.processed(first).last_updated >= first.timestamp,
        book.processed(first).last_sequence >= book.last_sequence,
        book.processed(first).last_sequence >= first.seq,
        book.processed(first).processed(second).last_updated
            == book.processed(second).processed(first).last_updated,
        book.processed(first).processed(second).last_sequence
            == book.processed(second).processed(first).last_sequence,
{
}

/// Taking the same update again changes nothing.
pub proof fn law_replayed_update_changes_nothing(book: BookView, event: Event)
    requires
        !event.is_trade,
    ensures
        book.processed(event).processed(event) == book.processed(event),
{
    let buy = event.is_buy;
    let tick = book.tick_of(event.price);
    let side = book.side(buy);
    let once = side.quoted(buy, tick, event);
    if side.accepts(buy, tick, event) {
        assert(once.levels.insert(tick, Level::of_event(event)) =~= once.levels);
    }
    assert(once.quoted(buy, tick, event) =~= once);
}

/// Two updates of one level leave the same levels in whichever order they come,
/// as long as taking the older one does not decide whether the newer one is
/// overtaken by the best level. The newer one stays if it is taken at all.
pub proof fn law_newer_update_stays(book: BookView, older: Event, newer: Event)
    requires
        !older.is_trade,
        !newer.is_trade,
        older.is_buy == newer.is_buy,
        book.tick_of(older.price) == book.tick_of(newer.price),
        older.seq < newer.seq,
        ({
            let before = book.side(newer.is_buy);
            let between = book.processed(older).side(newer.is_buy);
            ||| before.outdated(book.tick_of(newer.price), newer)
            ||| before.overtaken(newer.is_buy, newer) == between.overtaken(newer.is_buy, newer)
        }),
    ensures
        book.processed(older).processed(newer).side(newer.is_buy).levels
            == book.processed(newer).processed(older).side(newer.is_buy).levels,
        book.side(newer.is_buy).accepts(newer.is_buy, book.tick_of(newer.price), newer)
            ==> book.processed(newer).processed(older).side(newer.is_buy)
            == book.processed(newer).side(newer.is_buy),
{
    let buy = newer.is_buy;
    let tick = book.tick_of(newer.price);
    let side = book.side(buy);
    assert(book.processed(older).side(buy) == side.quoted(buy, tick, older));
    assert(book.processed(newer).side(buy) == side.quoted(buy, tick, newer));
    if side.accepts(buy, tick, newer) {
        assert(side.levels.insert(tick, Level::of_event(older)).insert(tick, Level::of_event(newer))
            =~= side.levels.insert(tick, Level::of_event(newer)));
    }
}

/// An update that is older than a deletion does not bring the level back.
pub proof fn law_late_update_does_not_revive(book: BookView, deletion: Event, late: Event)
    requires
        !deletion.is_trade,
        deletion.size == 0,
        book.side(deletion.is_buy).accepts(deletion.is_buy, book.tick_of(deletion.price), deletion),
        !late.is_trade,
        late.is_buy == deletion.is_buy,
        book.tick_of(late.price) == book.tick_of(deletion.price),
        late.seq < deletion.seq,
    ensures
        !live(
            book.processed(deletion).processed(late).side(late.is_buy).levels,
            book.tick_of(late.price),
        ),
        book.processed(deletion).processed(late) == only_noted(book.processed(deletion), late),
{
}

/// No update takes a level away or turns its sequence number back.
pub proof fn law_level_sequence_does_not_go_back(book: BookView, event: Event, tick: u64)
    requires
        !event.is_trade,
        book.side(event.is_buy).levels.contains_key(tick),
    ensures
        book.processed(event).side(event.is_buy).levels.contains_key(tick),
        book.processed(event).side(event.is_buy).levels[tick].seq
            >= book.side(event.is_buy).levels[tick].seq,
{
}

/// A trade takes its size from the level at its tick, and all of it where it is at
/// least as large; a level that is not there it does not touch. Price, timestamp
/// and sequence number of the level stay, and so does the best quote.
pub proof fn law_trade_takes_its_size(book: BookView, trade: Event)
    requires
        trade.is_trade,
    ensures
        ({
            let tick = book.tick_of(trade.price);
            let before = book.side(trade.is_buy);
            let after = book.processed(trade).side(trade.is_buy);
            &&& after.best == before.best
            &&& !before.levels.contains_key(tick) ==> after == before
            &&& before.levels.contains_key(tick) ==> (after.levels.contains_key(tick)
                <==> trade.size < before.levels[tick].size)
            &&& after.levels.contains_key(tick) ==> {
                &&& after.levels[tick].size + trade.size == before.levels[tick].size
                &&& after.levels[tick] == (Level {
                    size: after.levels[tick].size,
                    ..before.levels[tick]
                })
            }
        }),
{
}

/// Two trades at one tick do what one trade of both sizes does, if the first left
/// something of the level.
pub proof fn law_trades_add_up(side: SideView, tick: u64, a: u64, b: u64)
    requires
        side.levels.contains_key(tick),
        a < side.levels[tick].size,
        a + b <= u64::MAX,
    ensures
        side.traded(tick, a).traded(tick, b) == side.traded(tick, (a + b) as u64),
{
    assert(side.traded(tick, a).traded(tick, b).levels =~= side.traded(tick, (a + b) as u64).levels);
}

/// A trade never changes the best quotes, so none is reported.
pub proof fn law_trade_reports_no_change(book: BookView, trade: Event)
    requires
        trade.is_trade,
    ensures
        quote_change(
            book.bids.best,
            book.asks.best,
            book.processed(trade).bids.best,
            book.processed(trade).asks.best,
        ) is None,
{
}

/// An update that is not taken reports no change.
pub proof fn law_ignored_update_reports_no_change(book: BookView, event: Event)
    requires
        !event.is_trade,
        !book.side(event.is_buy).accepts(event.is_buy, book.tick_of(event.price), event),
    ensures
        quote_change(
            book.bids.best,
            book.asks.best,
            book.processed(event).bids.best,
            book.processed(event).asks.best,
        ) is None,
{
}

/// Where the same ticks are live the ladder is the same.
proof fn lemma_same_live_ticks(a: Map<u64, Level>, b: Map<u64, Level>, bound: nat)
    requires
        forall|tick: u64| #[trigger] live(a, tick) <==> live(b, tick),
    ensures
        live_ticks_below(a, bound) == live_ticks_below(b, bound),
    decreases bound,
{
    if bound > 0 {
        lemma_same_live_ticks(a, b, (bound - 1) as nat);
        assert(live(a, (bound - 1) as u64) <==> live(b, (bound - 1) as u64));
    }
}

/// Forgetting old deleted levels changes nothing that is shown: the live levels,
/// the top levels of each side and the best quotes stay.
pub proof fn law_collecting_shows_no_change(book: BookView, threshold: u64, buy: bool, n: nat)
    ensures
        forall|tick: u64| #[trigger] live(book.collected(threshold).side(buy).levels, tick)
            <==> live(book.side(buy).levels, tick),
        forall|tick: u64| #[trigger] live(book.side(buy).levels, tick)
            ==> book.collected(threshold).side(buy).levels[tick] == book.side(buy).levels[tick],
        top_levels(buy, book.collected(threshold).side(buy).levels, n)
            == top_levels(buy, book.side(buy).levels, n),
        book.collected(threshold).side(buy).best == book.side(buy).best,
{
    let before = book.side(buy).levels;
    let after = book.collected(threshold).side(buy).levels;
    lemma_same_live_ticks(before, after, TICKS as nat);
    law_ladder_lists_live_ticks(buy, before);
    let ticks = ladder(buy, before);
    assert forall|i: int| 0 <= i < ticks.len() implies before[#[trigger] ticks[i]] == after[ticks[i]] by {
        assert(ticks.contains(ticks[i]));
    }
    assert(top_levels(buy, after, n) =~= top_levels(buy, before, n));
}

/// Collecting forgets the deleted levels that are older than the threshold and
/// nothing else. What was forgotten no longer holds an update off.
pub proof fn law_collecting_forgets_old_deletions(
    book: BookView,
    threshold: u64,
    buy: bool,
    tick: u64,
    event: Event,
)
    requires
        book.side(buy).levels.contains_key(tick),
    ensures
        book.collected(threshold).side(buy).levels.contains_key(tick)
            <==> book.side(buy).levels[tick].size != 0 || book.side(buy).levels[tick].seq >= threshold,
        book.collected(threshold).side(buy).levels.contains_key(tick)
            ==> book.collected(threshold).side(buy).levels[tick] == book.side(buy).levels[tick],
        !book.collected(threshold).side(buy).levels.contains_key(tick)
            ==> !book.collected(threshold).side(buy).outdated(tick, event),
{
}

/// Of two collections the one with the higher threshold decides.
pub proof fn law_collecting_again(book: BookView, a: u64, b: u64)
    ensures
        book.collected(a).collected(b) == book.collected(higher(a, b)),
{
    assert(book.collected(a).collected(b).bids.levels =~= book.collected(higher(a, b)).bids.levels);
    assert(book.collected(a).collected(b).asks.levels =~= book.collected(higher(a, b)).asks.levels);
}

/// Clearing takes the two prices in either order.
pub proof fn law_clearing_takes_prices_in_either_order(book: BookView, p1: u64, p2: u64, seq: u64)
    ensures
        book.bids_cleared(p1, p2, seq) == book.bids_cleared(p2, p1, seq),
        book.asks_cleared(p1, p2, seq) == book.asks_cleared(p2, p1, seq),
{
}

/// After clearing, no live level at the cutoff or better is older than the given
/// sequence number. Newer levels and levels beyond the cutoff are as they were.
pub proof fn law_clearing_deletes_older_levels(side: SideView, buy: bool, cutoff: u64, seq: u64, tick: u64)
    ensures
        side.cleared(buy, cutoff, seq).levels.contains_key(tick) <==> side.levels.contains_key(tick),
        live(side.cleared(buy, cutoff, seq).levels, tick) <==> {
            &&& live(side.levels, tick)
            &&& side.levels[tick].seq >= seq || better(buy, cutoff, tick)
        },
        live(side.cleared(buy, cutoff, seq).levels, tick)
            ==> side.cleared(buy, cutoff, seq).levels[tick] == side.levels[tick],
{
}

/// Clearing turns no sequence number back and leaves the other side as it was.
pub proof fn law_clearing_keeps_the_rest(book: BookView, p1: u64, p2: u64, seq: u64, tick: u64)
    ensures
        book.bids_cleared(p1, p2, seq).asks == book.asks,
        book.asks_cleared(p1, p2, seq).bids == book.bids,
        book.bids.levels.contains_key(tick)
            ==> book.bids_cleared(p1, p2, seq).bids.levels[tick].seq >= book.bids.levels[tick].seq,
        book.asks.levels.contains_key(tick)
            ==> book.asks_cleared(p1, p2, seq).asks.levels[tick].seq >= book.asks.levels[tick].seq,
{
}

/// Once a side was cleared, its best quote is the first of its top levels. A side
/// left without a live level keeps the best quote that it had.
pub proof fn law_best_is_top_after_clearing(side: SideView, buy: bool, cutoff: u64, seq: u64)
    ensures
        ({
            let after = side.cleared(buy, cutoff, seq);
            let top = top_levels(buy, after.levels, 1);
            if top.len() == 0 {
                after.best == side.best
            } else {
                after.best == Some(top[0])
            }
        }),
{
}

/// A level that was cleared takes no update that is older than the clearing.
pub proof fn law_cleared_level_takes_no_older_update(
    side: SideView,
    buy: bool,
    cutoff: u64,
    seq: u64,
    tick: u64,
    event: Event,
)
    requires
        side.levels.contains_key(tick),
        !better(buy, cutoff, tick),
        event.seq < seq,
    ensures
        !side.cleared(buy, cutoff, seq).accepts(buy, tick, event),
        side.cleared(buy, cutoff, seq).quoted(buy, tick, event) == side.cleared(buy, cutoff, seq),
{
}

/// Clearing the same range again changes nothing.
pub proof fn law_clearing_again_changes_nothing(side: SideView, buy: bool, cutoff: u64, seq: u64)
    ensures
        side.cleared(buy, cutoff, seq).cleared(buy, cutoff, seq) == side.cleared(buy, cutoff, seq),
{
    let once = levels_cleared(buy, side.levels, cutoff, seq);
    assert(levels_cleared(buy, once, cutoff, seq) =~= once);
}

/// The tick of a price does not fall as the price rises.
pub proof fn law_ticks_follow_prices(book: BookView, a: u64, b: u64)
    requires
        a <= b,
    ensures
        book.tick_of(a) <= book.tick_of(b),
{
    if book.tick_size > 0 {
        vstd::arithmetic::div_mod::lemma_div_is_ordered(a as int, b as int, book.tick_size as int);
    }
}

/// The top levels of a side are live levels, and there are as many as asked for
/// unless the side has fewer.
pub proof fn law_top_levels_are_live(buy: bool, levels: Map<u64, Level>, n: nat)
    ensures
        top_levels(buy, levels, n).len() == if n <= ladder(buy, levels).len() {
            n
        } else {
            ladder(buy, levels).len()
        },
        forall|i: int| 0 <= i < top_levels(buy, levels, n).len() ==> {
            let level = #[trigger] top_levels(buy, levels, n)[i];
            let tick = ladder(buy, levels)[i];
            live(levels, tick) && levels[tick] == level && level.size != 0
        },
{
    law_ladder_lists_live_ticks(buy, levels);
    let ticks = ladder(buy, levels);
    assert forall|i: int| 0 <= i < ticks.len() implies live(levels, #[trigger] ticks[i]) by {
        assert(ticks.contains(ticks[i]));
    }
}

/// The top levels of a side come with the best price first, no price twice.
pub proof fn law_top_levels_are_in_price_order(book: BookView, buy: bool, n: nat, i: int, j: int)
    requires
        book.consistent(),
        0 <= i < j < top_levels(buy, book.side(buy).levels, n).len(),
    ensures
        better(
            buy,
            top_levels(buy, book.side(buy).levels, n)[i].price,
            top_levels(buy, book.side(buy).levels, n)[j].price,
        ),
{
    let levels = book.side(buy).levels;
    let ticks = ladder(buy, levels);
    law_ladder_lists_live_ticks(buy, levels);
    assert(ticks.contains(ticks[i]) && ticks.contains(ticks[j]));
    assert(better(buy, ticks[i], ticks[j]));
    let a = levels[ticks[i]].price;
    let b = levels[ticks[j]].price;
    assert(book.side_consistent(buy));
    if a <= b {
        law_ticks_follow_prices(book, a, b);
    }
    if b <= a {
        law_ticks_follow_prices(book, b, a);
    }
}

/// A live level that the top levels leave out is worse than each of them.
pub proof fn law_top_levels_pass_over_none(buy: bool, levels: Map<u64, Level>, n: nat, tick: u64, i: int)
    requires
        live(levels, tick),
        !ladder(buy, levels).take(top_levels(buy, levels, n).len() as int).contains(tick),
        0 <= i < top_levels(buy, levels, n).len(),
    ensures
        better(buy, ladder(buy, levels)[i], tick),
{
    let ticks = ladder(buy, levels);
    let shown = ticks.take(top_levels(buy, levels, n).len() as int);
    law_ladder_lists_live_ticks(buy, levels);
    assert(ticks.contains(tick));
    let j = ticks.index_of(tick);
    if j < shown.len() {
        assert(shown[j] == tick);
    }
}

/// Asking for fewer top levels gives the beginning of what asking for more gives.
pub proof fn law_fewer_top_levels_come_first(buy: bool, levels: Map<u64, Level>, few: nat, many: nat)
    requires
        few <= many,
    ensures
        top_levels(buy, levels, few).is_prefix_of(top_levels(buy, levels, many)),
{
    let a = top_levels(buy, levels, few);
    let b = top_levels(buy, levels, many);
    assert(a =~= b.take(a.len() as int));
}

/// As long as a side has a live level it has a best quote, and no live level has a
/// price in a better tick than that quote.
pub proof fn law_no_live_level_beats_the_best(book: BookView, buy: bool, tick: u64)
    requires
        book.consistent(),
        live(book.side(buy).levels, tick),
    ensures
        book.side(buy).best matches Some(best) && !better(
            buy,
            book.tick_of(book.side(buy).levels[tick].price),
            book.tick_of(best.price),
        ),
{
    assert(book.side_consistent(buy));
}

/// A weighted mid price lies between the two prices that it is taken of.
pub proof fn law_weighted_midprice_lies_between(bid: Level, ask: Level, mid: MidPrice)
    requires
        mid.is_quotient(bid.size * ask.price + bid.price * ask.size, bid.size + ask.size),
        bid.price <= ask.price,
    ensures
        bid.price <= mid.whole,
        mid.whole <= ask.price,
        mid.whole == ask.price ==> mid.num == 0,
{
    let low = bid.price as int;
    let high = ask.price as int;
    let b = bid.size as int;
    let a = ask.size as int;
    let whole = mid.whole as int;
    let num = mid.num as int;
    assert(low * (b + a) <= b * high + low * a <= high * (b + a)) by (nonlinear_arith)
        requires
            low <= high,
            0 <= a,
            0 <= b,
    ;
    assert(low <= whole) by (nonlinear_arith)
        requires
            low * (b + a) <= whole * (b + a) + num,
            0 <= num < b + a,
    ;
    assert(whole <= high && (whole == high ==> num == 0)) by (nonlinear_arith)
        requires
            whole * (b + a) + num <= high * (b + a),
            0 <= num < b + a,
    ;
}

/// With the same size on both sides the weighted mid price is the mid price.
pub proof fn law_equal_sizes_weigh_alike(bid: Level, ask: Level, weighted: MidPrice, mid: MidPrice)
    requires
        bid.size == ask.size,
        weighted.is_quotient(bid.size * ask.price + bid.price * ask.size, bid.size + ask.size),
        mid.is_quotient(bid.price + ask.price, 2),
    ensures
        weighted.whole == mid.whole,
        weighted.num * mid.den == mid.num * weighted.den,
{
    let size = bid.size as int;
    let sum = bid.price + ask.price;
    let whole = weighted.whole as int;
    let num = weighted.num as int;
    assert(bid.size * ask.price + bid.price * ask.size == size * sum) by (nonlinear_arith)
        requires
            bid.size == size,
            ask.size == size,
            sum == bid.price + ask.price,
    ;
    assert(whole * (size + size) + num == size * (mid.whole * 2 + mid.num));
    assert(whole == mid.whole && num * 2 == mid.num * (size + size)) by (nonlinear_arith)
        requires
            whole * (size + size) + num == size * (mid.whole * 2 + mid.num),
            0 <= num < size + size,
            0 <= mid.num < 2,
    ;
}

} // verus!
