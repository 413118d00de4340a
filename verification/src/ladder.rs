//! Facts about the ladder of a side.
use vstd::prelude::*;

use crate::level::Level;
use crate::model::{better, ladder, live, live_ticks_below, TICKS};

verus! {

/// Each tick of the sequence is better than those that follow it.
pub open spec fn best_first(buy: bool, ticks: Seq<u64>) -> bool {
    forall|i: int, j: int| 0 <= i < j < ticks.len() ==> better(buy, #[trigger] ticks[i], #[trigger] ticks[j])
}

proof fn lemma_live_ticks_below(levels: Map<u64, Level>, bound: nat)
    requires
        bound <= TICKS,
    ensures
        best_first(false, live_ticks_below(levels, bound)),
        forall|i: int| 0 <= i < live_ticks_below(levels, bound).len() ==> {
            let tick = #[trigger] live_ticks_below(levels, bound)[i];
            tick < bound && live(levels, tick)
        },
        forall|tick: u64| tick < bound && #[trigger] live(levels, tick)
            ==> live_ticks_below(levels, bound).contains(tick),
    decreases bound,
{
    if bound > 0 {
        let below = (bound - 1) as nat;
        let last = below as u64;
        let lower = live_ticks_below(levels, below);
        lemma_live_ticks_below(levels, below);
        assert forall|tick: u64| tick < bound && #[trigger] live(levels, tick)
            implies live_ticks_below(levels, bound).contains(tick) by {
            if tick == last {
                assert(live_ticks_below(levels, bound)[lower.len() as int] == tick);
            } else {
                let i = lower.index_of(tick);
                assert(live_ticks_below(levels, bound)[i] == tick);
            }
        }
    }
}

/// The ladder of a side holds its live ticks and no others, each better than the
/// next.
pub proof fn law_ladder_lists_live_ticks(buy: bool, levels: Map<u64, Level>)
    ensures
        best_first(buy, ladder(buy, levels)),
        forall|tick: u64| #[trigger] ladder(buy, levels).contains(tick) <==> live(levels, tick),
{
    let ascending = live_ticks_below(levels, TICKS as nat);
    lemma_live_ticks_below(levels, TICKS as nat);
    if buy {
        let ticks = ladder(buy, levels);
        assert forall|tick: u64| #[trigger] ticks.contains(tick) <==> live(levels, tick) by {
            if ticks.contains(tick) {
                let i = ticks.index_of(tick);
                assert(ascending[ascending.len() - 1 - i] == tick);
            }
            if live(levels, tick) {
                let i = ascending.index_of(tick);
                assert(ticks[ascending.len() - 1 - i] == tick);
            }
        }
    }
}

/// A best-first sequence of live ticks that passes over none is where the ladder
/// begins.
pub(crate) proof fn lemma_ladder_begins(buy: bool, levels: Map<u64, Level>, ticks: Seq<u64>)
    requires
        best_first(buy, ticks),
        forall|i: int| 0 <= i < ticks.len() ==> live(levels, #[trigger] ticks[i]),
        forall|tick: u64, i: int|
            #![trigger live(levels, tick), ticks[i]]
            live(levels, tick) && !ticks.contains(tick) && 0 <= i < ticks.len() ==> better(buy, ticks[i], tick),
    ensures
        ticks.len() <= ladder(buy, levels).len(),
        ticks == ladder(buy, levels).take(ticks.len() as int),
{
    let all = ladder(buy, levels);
    law_ladder_lists_live_ticks(buy, levels);
    lemma_ladder_agrees(buy, levels, ticks, ticks.len());
}

proof fn lemma_ladder_agrees(buy: bool, levels: Map<u64, Level>, ticks: Seq<u64>, n: nat)
    requires
        best_first(buy, ticks),
        forall|i: int| 0 <= i < ticks.len() ==> live(levels, #[trigger] ticks[i]),
        forall|tick: u64, i: int|
            #![trigger live(levels, tick), ticks[i]]
            live(levels, tick) && !ticks.contains(tick) && 0 <= i < ticks.len() ==> better(buy, ticks[i], tick),
        n <= ticks.len(),
    ensures
        n <= ladder(buy, levels).len(),
        forall|i: int| 0 <= i < n ==> #[trigger] ticks[i] == ladder(buy, levels)[i],
    decreases n,
{
    if n > 0 {
        let last = n - 1;
        let all = ladder(buy, levels);
        law_ladder_lists_live_ticks(buy, levels);
        lemma_ladder_agrees(buy, levels, ticks, last as nat);
        assert(live(levels, ticks[last]));
        assert(all.contains(ticks[last]));
        let j = all.index_of(ticks[last]);
        if j < last {
            assert(ticks[j] == all[j]);
            assert(better(buy, ticks[j], ticks[last]));
            assert(false);
        }
        if j > last {
            let ahead = all[last];
            assert(better(buy, ahead, ticks[last]));
            assert(all.contains(ahead));
            assert(live(levels, ahead));
            if ticks.contains(ahead) {
                let k = ticks.index_of(ahead);
                if k < last {
                    assert(ticks[k] == all[k]);
                    assert(better(buy, all[k], all[last]));
                } else if k > last {
                    assert(better(buy, ticks[last], ticks[k]));
                }
                assert(false);
            } else {
                assert(better(buy, ticks[last], ahead));
                assert(false);
            }
        }
    }
}

} // verus!
