//! One side of the book.
use std::collections::BTreeMap;

use vstd::prelude::*;
use vstd::std_specs::iter::IteratorSpec;

use crate::event::Event;
use crate::ladder::{best_first, law_ladder_lists_live_ticks, lemma_ladder_begins};
use crate::level::Level;
use crate::model::{better, ladder, levels_cleared, levels_collected, live, top_level, top_levels, SideView};

verus! {

/// The levels of one side, by tick, and the best of them as last looked up.
///
/// A deleted level stays behind with size zero, so that updates which are older
/// than its deletion are still told apart from newer ones. It is not shown:
/// `get`, `contains_key` and the walks from the best level pass over it.
#[derive(Debug)]
pub struct BookSide {
    buy: bool,
    best: Option<Level>,
    /// Filed by `slot`, so that the first key is always the best.
    slots: BTreeMap<u64, Level>,
}

/// Where the level of `tick` is filed. Applied twice it gives the tick back.
spec fn slot_of(buy: bool, tick: u64) -> u64 {
    if buy {
        (u64::MAX - tick) as u64
    } else {
        tick
    }
}

fn slot(buy: bool, tick: u64) -> (filed: u64)
    ensures
        filed == slot_of(buy, tick),
{
    if buy {
        u64::MAX - tick
    } else {
        tick
    }
}

impl View for BookSide {
    type V = SideView;

    closed spec fn view(&self) -> SideView {
        SideView {
            levels: Map::new(
                |tick: u64| self.slots@.contains_key(slot_of(self.buy, tick)),
                |tick: u64| self.slots@[slot_of(self.buy, tick)],
            ),
            best: self.best,
        }
    }
}

impl Clone for BookSide {
    fn clone(&self) -> (copy: Self)
        ensures
            copy.is_buy() == self.is_buy(),
            copy@ == self@,
    {
        BookSide { buy: self.buy, best: self.best, slots: self.slots.clone() }
    }
}

impl BookSide {
    /// Whether this is the buy side, where a higher price is better.
    pub closed spec fn is_buy(&self) -> bool {
        self.buy
    }

    /// A side that has never held a level.
    pub(crate) fn new(buy: bool) -> (side: BookSide)
        ensures
            side.is_buy() == buy,
            side@ == SideView::empty(),
    {
        let side = BookSide { buy, best: None, slots: BTreeMap::new() };
        assert(side@.levels =~= Map::<u64, Level>::empty());
        side
    }

    /// The best level as last looked up.
    pub fn best(&self) -> (best: Option<Level>)
        ensures
            best == self@.best,
    {
        self.best
    }

    /// The live level at `tick`.
    pub fn get(&self, tick: &u64) -> (found: Option<&Level>)
        ensures
            found == (if live(self@.levels, *tick) { Some(&self@.levels[*tick]) } else { None }),
            self@.levels.contains_key(*tick) && self@.levels[*tick].size != 0 ==> found
                == Some(&self@.levels[*tick]),
            !self@.levels.contains_key(*tick) || self@.levels[*tick].size == 0 ==> found is None,
    {
        match self.slots.get(&slot(self.buy, *tick)) {
            Some(level) => if level.size != 0 { Some(level) } else { None },
            None => None,
        }
    }

    /// Whether there is a live level at `tick`.
    pub fn contains_key(&self, tick: &u64) -> (found: bool)
        ensures
            found == live(self@.levels, *tick),
            found <==> self@.levels.contains_key(*tick) && self@.levels[*tick].size != 0,
    {
        self.get(tick).is_some()
    }

    /// What is filed at `tick`, deleted or not.
    fn filed(&self, tick: u64) -> (found: Option<Level>)
        ensures
            found == (if self@.levels.contains_key(tick) { Some(self@.levels[tick]) } else { None }),
    {
        match self.slots.get(&slot(self.buy, tick)) {
            Some(level) => Some(*level),
            None => None,
        }
    }

    /// Files `level` at `tick`, in place of what was there.
    fn file(&mut self, tick: u64, level: Level)
        ensures
            final(self).is_buy() == old(self).is_buy(),
            final(self)@ == (SideView { levels: old(self)@.levels.insert(tick, level), ..old(self)@ }),
    {
        self.slots.insert(slot(self.buy, tick), level);
        assert(self@.levels =~= old(self)@.levels.insert(tick, level));
    }

    /// Takes away what is filed at `tick`.
    fn unfile(&mut self, tick: u64)
        ensures
            final(self).is_buy() == old(self).is_buy(),
            final(self)@ == (SideView { levels: old(self)@.levels.remove(tick), ..old(self)@ }),
    {
        self.slots.remove(&slot(self.buy, tick));
        assert(self@.levels =~= old(self)@.levels.remove(tick));
    }

    /// Looks the best level up again. With no live level left the last one stays.
    fn refresh(&mut self)
        ensures
            final(self).is_buy() == old(self).is_buy(),
            final(self)@ == old(self)@.refreshed(old(self).is_buy()),
    {
        if let Some(level) = self.first() {
            self.best = Some(level);
        }
    }

    /// Takes an update of the level at `tick`, unless it comes too late.
    pub(crate) fn quote(&mut self, tick: u64, event: Event)
        ensures
            final(self).is_buy() == old(self).is_buy(),
            final(self)@ == old(self)@.quoted(old(self).is_buy(), tick, event),
    {
        if let Some(existing) = self.filed(tick) {
            if event.seq < existing.seq {
                return;
            }
            // At an equal sequence number only a deletion, or the revival of a
            // deleted level, goes through.
            if event.seq == existing.seq && existing.size != 0 && event.size != 0 {
                return;
            }
        }
        if let Some(best) = self.best {
            let leads = if self.buy {
                event.price > best.price
            } else {
                event.price < best.price
            };
            if leads && event.seq < best.seq {
                return;
            }
        }
        self.file(tick, Level::from(event));
        self.refresh();
    }

    /// Books a trade of `size` against the level at `tick`.
    pub(crate) fn trade(&mut self, tick: u64, size: u64)
        ensures
            final(self).is_buy() == old(self).is_buy(),
            final(self)@ == old(self)@.traded(tick, size),
    {
        if let Some(level) = self.filed(tick) {
            if size >= level.size {
                self.unfile(tick);
            } else {
                self.file(tick, Level { size: level.size - size, ..level });
            }
        }
    }

    /// The ticks at `cutoff` and better whose level is older than `seq`.
    fn older_than(&self, cutoff: u64, seq: u64) -> (ticks: Vec<u64>)
        ensures
            forall|tick: u64| #[trigger] ticks@.contains(tick) <==> {
                &&& self@.levels.contains_key(tick)
                &&& !better(self.is_buy(), cutoff, tick)
                &&& self@.levels[tick].seq < seq
            },
    {
        let last = slot(self.buy, cutoff);
        let mut ticks: Vec<u64> = Vec::new();
        let entries = self.slots.iter();
        let ghost walk = entries.remaining();
        proof {
            lemma_walk(self.slots, walk);
        }
        for (key, level) in it: entries
            invariant
                last == slot_of(self.buy, cutoff),
                it.seq() == walk,
                walks(walk, self.slots@),
                self.listed_older(walk, it.index(), cutoff, seq, ticks@),
        {
            let ghost seen = ticks@;
            if *key > last {
                proof {
                    self.lemma_listed_older(walk, it.index(), cutoff, seq, ticks@);
                }
                return ticks;
            }
            if level.seq < seq {
                ticks.push(slot(self.buy, *key));
            }
            assert(self.listed_older(walk, it.index() + 1, cutoff, seq, ticks@)) by {
                assert forall|i: int| 0 <= i < it.index() + 1 && (#[trigger] walk[i]).1.seq < seq
                    implies ticks@.contains(slot_of(self.buy, *walk[i].0)) by {
                    let tick = slot_of(self.buy, *walk[i].0);
                    if i < it.index() {
                        assert(ticks@[seen.index_of(tick)] == tick);
                    } else {
                        assert(ticks@[seen.len() as int] == tick);
                    }
                }
            }
        }
        proof {
            self.lemma_listed_older(walk, walk.len() as int, cutoff, seq, ticks@);
        }
        ticks
    }

    /// Deletes, as of `seq`, the levels at `cutoff` and better that are older.
    pub(crate) fn clear(&mut self, cutoff: u64, seq: u64)
        ensures
            final(self).is_buy() == old(self).is_buy(),
            final(self)@ == old(self)@.cleared(old(self).is_buy(), cutoff, seq),
    {
        let ticks = self.older_than(cutoff, seq);
        for i in 0..ticks.len()
            invariant
                self.is_buy() == old(self).is_buy(),
                self@.best == old(self)@.best,
                forall|tick: u64| #[trigger] ticks@.contains(tick) ==> old(self)@.levels.contains_key(tick),
                self@.levels == old(self)@.levels.map_entries(
                    |tick: u64, level: Level|
                        if ticks@.take(i as int).contains(tick) {
                            Level { size: 0, seq, ..level }
                        } else {
                            level
                        },
                ),
        {
            let tick = ticks[i];
            assert(ticks@.contains(tick));
            if let Some(level) = self.filed(tick) {
                self.file(tick, Level { size: 0, seq, ..level });
            }
            proof {
                lemma_take_one_more(ticks@, i as int);
            }
            assert(self@.levels =~= old(self)@.levels.map_entries(
                |tick: u64, level: Level|
                    if ticks@.take(i + 1).contains(tick) {
                        Level { size: 0, seq, ..level }
                    } else {
                        level
                    },
            ));
        }
        assert(ticks@.take(ticks.len() as int) =~= ticks@);
        assert(self@.levels =~= levels_cleared(old(self).is_buy(), old(self)@.levels, cutoff, seq));
        self.refresh();
    }

    /// The ticks of the deleted levels that are older than `threshold`.
    fn forgettable(&self, threshold: u64) -> (ticks: Vec<u64>)
        ensures
            forall|tick: u64| #[trigger] ticks@.contains(tick) <==> {
                &&& self@.levels.contains_key(tick)
                &&& self@.levels[tick].size == 0
                &&& self@.levels[tick].seq < threshold
            },
    {
        let mut ticks: Vec<u64> = Vec::new();
        let entries = self.slots.iter();
        let ghost walk = entries.remaining();
        proof {
            lemma_walk(self.slots, walk);
        }
        for (key, level) in it: entries
            invariant
                it.seq() == walk,
                walks(walk, self.slots@),
                forall|i: int| 0 <= i < ticks.len() ==> {
                    let tick = #[trigger] ticks@[i];
                    &&& self@.levels.contains_key(tick)
                    &&& self@.levels[tick].size == 0
                    &&& self@.levels[tick].seq < threshold
                },
                forall|i: int| 0 <= i < it.index() && (#[trigger] walk[i]).1.size == 0 && walk[i].1.seq < threshold
                    ==> ticks@.contains(slot_of(self.buy, *walk[i].0)),
        {
            let ghost seen = ticks@;
            if level.size == 0 && level.seq < threshold {
                ticks.push(slot(self.buy, *key));
            }
            assert forall|i: int|
                0 <= i < it.index() + 1 && (#[trigger] walk[i]).1.size == 0 && walk[i].1.seq < threshold
                implies ticks@.contains(slot_of(self.buy, *walk[i].0)) by {
                let tick = slot_of(self.buy, *walk[i].0);
                if i < it.index() {
                    assert(ticks@[seen.index_of(tick)] == tick);
                } else {
                    assert(ticks@[seen.len() as int] == tick);
                }
            }
        }
        assert forall|tick: u64|
            self@.levels.contains_key(tick) && self@.levels[tick].size == 0 && self@.levels[tick].seq < threshold
            implies #[trigger] ticks@.contains(tick) by {
            let key = slot_of(self.buy, tick);
            assert(self.slots@.contains_key(key));
            let j = choose|j: int| 0 <= j < walk.len() && *(#[trigger] walk[j]).0 == key;
            assert(walk[j].1.size == 0);
        }
        ticks
    }

    /// Forgets the deleted levels that are older than `threshold`.
    pub(crate) fn collect(&mut self, threshold: u64)
        ensures
            final(self).is_buy() == old(self).is_buy(),
            final(self)@ == old(self)@.collected(threshold),
    {
        let ticks = self.forgettable(threshold);
        for i in 0..ticks.len()
            invariant
                self.is_buy() == old(self).is_buy(),
                self@.best == old(self)@.best,
                self@.levels == old(self)@.levels.remove_keys(ticks@.take(i as int).to_set()),
        {
            self.unfile(ticks[i]);
            proof {
                lemma_take_one_more(ticks@, i as int);
            }
            assert(self@.levels =~= old(self)@.levels.remove_keys(ticks@.take(i + 1).to_set()));
        }
        assert(ticks@.take(ticks.len() as int) =~= ticks@);
        assert(self@.levels =~= levels_collected(old(self)@.levels, threshold));
    }

    /// The best live level.
    fn first(&self) -> (best: Option<Level>)
        ensures
            best == top_level(self.is_buy(), self@.levels),
    {
        let ghost none: Seq<u64> = Seq::empty();
        let entries = self.slots.iter();
        let ghost walk = entries.remaining();
        proof {
            lemma_walk(self.slots, walk);
        }
        for (key, level) in it: entries
            invariant
                none == Seq::<u64>::empty(),
                it.seq() == walk,
                walks(walk, self.slots@),
                self.walked(walk, it.index(), none),
        {
            if level.size != 0 {
                proof {
                    let one = none.push(slot_of(self.buy, *key));
                    self.lemma_walked(walk, it.index(), none, one);
                    self.lemma_walked_ladder(walk, it.index() + 1, one);
                    assert(ladder(self.buy, self@.levels)[0] == one[0]);
                }
                return Some(*level);
            }
            proof {
                self.lemma_walked(walk, it.index(), none, none);
            }
        }
        proof {
            self.lemma_walked_ladder(walk, walk.len() as int, none);
        }
        None
    }

    /// The `n` best live levels, from the best to the worst.
    pub(crate) fn top(&self, n: usize) -> (shown: Vec<Level>)
        ensures
            shown@ == top_levels(self.is_buy(), self@.levels, n as nat),
    {
        let mut shown: Vec<Level> = Vec::new();
        if n == 0 {
            assert(shown@ =~= top_levels(self.is_buy(), self@.levels, n as nat));
            return shown;
        }
        let ghost mut ticks: Seq<u64> = Seq::empty();
        let entries = self.slots.iter();
        let ghost walk = entries.remaining();
        proof {
            lemma_walk(self.slots, walk);
        }
        for (key, level) in it: entries
            invariant
                it.seq() == walk,
                walks(walk, self.slots@),
                shown.len() < n,
                shown@ == ticks.map_values(|tick: u64| self@.levels[tick]),
                self.walked(walk, it.index(), ticks),
        {
            let ghost seen = ticks;
            if level.size != 0 {
                proof {
                    ticks = ticks.push(slot_of(self.buy, *key));
                }
                shown.push(*level);
                assert(shown@ =~= ticks.map_values(|tick: u64| self@.levels[tick]));
            }
            proof {
                self.lemma_walked(walk, it.index(), seen, ticks);
            }
            if shown.len() == n {
                proof {
                    self.lemma_walked_ladder(walk, it.index() + 1, ticks);
                    assert(shown@ =~= top_levels(self.is_buy(), self@.levels, n as nat));
                }
                return shown;
            }
        }
        proof {
            self.lemma_walked_ladder(walk, walk.len() as int, ticks);
            assert(shown@ =~= top_levels(self.is_buy(), self@.levels, n as nat));
        }
        shown
    }
}

proof fn lemma_take_one_more(ticks: Seq<u64>, i: int)
    requires
        0 <= i < ticks.len(),
    ensures
        forall|tick: u64| #[trigger] ticks.take(i + 1).contains(tick)
            <==> ticks.take(i).contains(tick) || tick == ticks[i],
{
    let done = ticks.take(i);
    let next = ticks.take(i + 1);
    assert forall|tick: u64| #[trigger] next.contains(tick) <==> done.contains(tick) || tick == ticks[i] by {
        if next.contains(tick) {
            let k = next.index_of(tick);
            if k < i {
                assert(done[k] == tick);
            }
        }
        if done.contains(tick) {
            assert(next[done.index_of(tick)] == tick);
        }
        assert(next[i] == ticks[i]);
    }
}

/// The entries of `slots`, each once and in the order of their keys.
spec fn walks(walk: Seq<(&u64, &Level)>, slots: Map<u64, Level>) -> bool {
    &&& forall|i: int, j: int| 0 <= i < j < walk.len() ==> *(#[trigger] walk[i]).0 < *(#[trigger] walk[j]).0
    &&& forall|i: int| 0 <= i < walk.len() ==> {
        let entry = #[trigger] walk[i];
        slots.contains_key(*entry.0) && slots[*entry.0] == *entry.1
    }
    &&& forall|key: u64| #[trigger] slots.contains_key(key) ==> exists|i: int|
        0 <= i < walk.len() && *(#[trigger] walk[i]).0 == key
}

/// A map hands its entries out as `walks` says.
proof fn lemma_walk(slots: BTreeMap<u64, Level>, walk: Seq<(&u64, &Level)>)
    requires
        walk == slots.iter().remaining(),
        vstd::std_specs::btree::increasing_seq(walk.map_values(|entry: (&u64, &Level)| *entry.0)),
    ensures
        walks(walk, slots@),
{
    broadcast use vstd::laws_cmp::group_laws_cmp;

    let keys = walk.map_values(|entry: (&u64, &Level)| *entry.0);
    assert forall|i: int, j: int| 0 <= i < j < walk.len() implies *(#[trigger] walk[i]).0 < *(#[trigger] walk[j]).0 by {
        assert(vstd::std_specs::cmp::OrdSpec::cmp_spec(&keys[i], &keys[j]) is Less);
    }
    assert forall|key: u64| #[trigger] slots@.contains_key(key) implies exists|i: int|
        0 <= i < walk.len() && *(#[trigger] walk[i]).0 == key by {
        let i = walk.index_of((&key, &slots@[key]));
        assert(*walk[i].0 == key);
    }
}

impl BookSide {
    /// `ticks` holds each of the first `n` entries of the walk whose level is older
    /// than `seq`, and only ticks of such levels at `cutoff` and better.
    spec fn listed_older(
        &self,
        walk: Seq<(&u64, &Level)>,
        n: int,
        cutoff: u64,
        seq: u64,
        ticks: Seq<u64>,
    ) -> bool {
        &&& forall|i: int| 0 <= i < ticks.len() ==> {
            let tick = #[trigger] ticks[i];
            &&& self@.levels.contains_key(tick)
            &&& !better(self.buy, cutoff, tick)
            &&& self@.levels[tick].seq < seq
        }
        &&& forall|i: int| 0 <= i < n && (#[trigger] walk[i]).1.seq < seq
            ==> ticks.contains(slot_of(self.buy, *walk[i].0))
    }

    /// Once the walk is past `cutoff` or at its end, no older level is missing.
    proof fn lemma_listed_older(
        &self,
        walk: Seq<(&u64, &Level)>,
        n: int,
        cutoff: u64,
        seq: u64,
        ticks: Seq<u64>,
    )
        requires
            walks(walk, self.slots@),
            0 <= n <= walk.len(),
            self.listed_older(walk, n, cutoff, seq, ticks),
            n < walk.len() ==> *walk[n].0 > slot_of(self.buy, cutoff),
        ensures
            forall|tick: u64| #[trigger] ticks.contains(tick) <==> {
                &&& self@.levels.contains_key(tick)
                &&& !better(self.buy, cutoff, tick)
                &&& self@.levels[tick].seq < seq
            },
    {
        assert forall|tick: u64|
            self@.levels.contains_key(tick) && !better(self.buy, cutoff, tick) && self@.levels[tick].seq < seq
            implies #[trigger] ticks.contains(tick) by {
            let key = slot_of(self.buy, tick);
            assert(self.slots@.contains_key(key));
            let j = choose|j: int| 0 <= j < walk.len() && *(#[trigger] walk[j]).0 == key;
            assert(walk[j].1.seq < seq);
            if j >= n {
                assert(*walk[n].0 <= *walk[j].0);
            }
        }
    }

    /// `ticks` are the live ticks among the first `n` entries of the walk.
    spec fn walked(&self, walk: Seq<(&u64, &Level)>, n: int, ticks: Seq<u64>) -> bool {
        &&& best_first(self.buy, ticks)
        &&& forall|i: int| 0 <= i < ticks.len() ==> live(self@.levels, #[trigger] ticks[i])
        &&& forall|i: int, j: int| 0 <= i < ticks.len() && n <= j < walk.len()
            ==> slot_of(self.buy, #[trigger] ticks[i]) < *(#[trigger] walk[j]).0
        &&& forall|i: int| 0 <= i < n && (#[trigger] walk[i]).1.size != 0
            ==> ticks.contains(slot_of(self.buy, *walk[i].0))
    }

    /// One more entry of the walk.
    proof fn lemma_walked(&self, walk: Seq<(&u64, &Level)>, n: int, ticks: Seq<u64>, next: Seq<u64>)
        requires
            walks(walk, self.slots@),
            0 <= n < walk.len(),
            self.walked(walk, n, ticks),
            next == (if walk[n].1.size != 0 {
                ticks.push(slot_of(self.buy, *walk[n].0))
            } else {
                ticks
            }),
        ensures
            self.walked(walk, n + 1, next),
    {
        assert forall|i: int| 0 <= i < n + 1 && (#[trigger] walk[i]).1.size != 0
            implies next.contains(slot_of(self.buy, *walk[i].0)) by {
            let tick = slot_of(self.buy, *walk[i].0);
            if i < n {
                let k = ticks.index_of(tick);
                assert(next[k] == tick);
            } else {
                assert(next[ticks.len() as int] == tick);
            }
        }
    }

    /// What was walked is where the ladder begins, and at the end all of it.
    proof fn lemma_walked_ladder(&self, walk: Seq<(&u64, &Level)>, n: int, ticks: Seq<u64>)
        requires
            walks(walk, self.slots@),
            0 <= n <= walk.len(),
            self.walked(walk, n, ticks),
        ensures
            ticks.len() <= ladder(self.buy, self@.levels).len(),
            ticks == ladder(self.buy, self@.levels).take(ticks.len() as int),
            n == walk.len() ==> ticks == ladder(self.buy, self@.levels),
    {
        assert forall|tick: u64, i: int|
            #![trigger live(self@.levels, tick), ticks[i]]
            live(self@.levels, tick) && !ticks.contains(tick) && 0 <= i < ticks.len()
            implies better(self.buy, ticks[i], tick) by {
            let key = slot_of(self.buy, tick);
            assert(self.slots@.contains_key(key));
            let j = choose|j: int| 0 <= j < walk.len() && *(#[trigger] walk[j]).0 == key;
            assert(j >= n);
        }
        lemma_ladder_begins(self.buy, self@.levels, ticks);
        if n == walk.len() {
            let all = ladder(self.buy, self@.levels);
            law_ladder_lists_live_ticks(self.buy, self@.levels);
            if ticks.len() < all.len() {
                let tick = all[ticks.len() as int];
                assert(all.contains(tick));
                let key = slot_of(self.buy, tick);
                assert(self.slots@.contains_key(key));
                let j = choose|j: int| 0 <= j < walk.len() && *(#[trigger] walk[j]).0 == key;
                let k = ticks.index_of(tick);
                assert(all[k] == tick);
                assert(better(self.buy, all[k], all[ticks.len() as int]));
            }
            assert(ticks =~= all);
        }
    }
}

} // verus!
