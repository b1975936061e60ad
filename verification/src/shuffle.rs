//! Shuffle radio mode: random picks from a pool of track IDs that avoid
//! repeating a track until every track of the pool has been played.
use std::collections::HashSet;
use vstd::prelude::*;

verus! {

broadcast use vstd::std_specs::hash::group_hash_axioms;

/// The pool entries that have not been played yet, in pool order.
pub open spec fn unplayed(pool: Seq<u64>, played: Set<u64>) -> Seq<u64> {
    pool.filter(|id: u64| !played.contains(id))
}

/// How many candidates a pick chooses among: the unplayed entries, or the whole
/// pool once every entry has been played.
pub open spec fn pick_range(pool: Seq<u64>, played: Set<u64>) -> nat {
    if unplayed(pool, played).len() > 0 {
        unplayed(pool, played).len()
    } else {
        pool.len()
    }
}

/// The abstract state of a shuffle pool.
pub struct ShuffleModel {
    pub pool: Seq<u64>,
    pub played: Set<u64>,
    pub active: bool,
}

/// One pick with the random number `draw`: the unplayed entry at `draw` modulo
/// their number, recorded as played; once every entry has been played, the
/// played set starts over and the pick is the pool entry at `draw` modulo the
/// pool size. An empty pool gives nothing.
pub open spec fn pick_spec(m: ShuffleModel, draw: u64) -> (Option<u64>, Set<u64>) {
    let avail = unplayed(m.pool, m.played);
    if avail.len() > 0 {
        let id = avail[(draw as int) % (avail.len() as int)];
        (Some(id), m.played.insert(id))
    } else if m.pool.len() == 0 {
        (None, Set::empty())
    } else {
        let id = m.pool[(draw as int) % (m.pool.len() as int)];
        (Some(id), Set::empty().insert(id))
    }
}

/// Picks made one after another with the random numbers `draws`: the IDs
/// picked, in order, and the played set afterwards.
pub open spec fn picks_spec(m: ShuffleModel, draws: Seq<u64>) -> (Seq<u64>, Set<u64>)
    decreases draws.len(),
{
    if draws.len() == 0 {
        (Seq::empty(), m.played)
    } else {
        let (ids, played) = picks_spec(m, draws.drop_last());
        let (p, played2) = pick_spec(ShuffleModel { played, ..m }, draws.last());
        match p {
            Some(id) => (ids.push(id), played2),
            None => (ids, played2),
        }
    }
}

/// Shuffle radio mode — randomly picks tracks from a source pool
pub struct ShufflePool {
    track_pool: Vec<u64>,
    played: HashSet<u64>,
    active: bool,
}

impl View for ShufflePool {
    type V = ShuffleModel;

    open spec fn view(&self) -> ShuffleModel {
        self.model()
    }
}

impl ShufflePool {
    /// The pool, the set of played IDs, and whether shuffle mode is on.
    pub closed spec fn model(&self) -> ShuffleModel {
        ShuffleModel { pool: self.track_pool@, played: self.played@, active: self.active }
    }

    /// An inactive pool with no tracks.
    pub fn new() -> (r: Self)
        ensures
            r@.pool == Seq::<u64>::empty(),
            r@.played == Set::<u64>::empty(),
            !r@.active,
    {
        ShufflePool { track_pool: Vec::new(), played: HashSet::new(), active: false }
    }

    /// Whether shuffle mode is on.
    pub fn is_active(&self) -> (r: bool)
        ensures
            r == self@.active,
    {
        self.active
    }

    /// Number of IDs in the pool.
    pub fn pool_len(&self) -> (r: usize)
        ensures
            r == self@.pool.len(),
    {
        self.track_pool.len()
    }

    /// Number of distinct IDs played since the last reset.
    pub fn played_len(&self) -> (r: usize)
        ensures
            r == self@.played.len(),
    {
        self.played.len()
    }

    /// Turn shuffle mode on over a new pool, forgetting what was played.
    pub fn start(&mut self, track_ids: Vec<u64>)
        ensures
            final(self)@.pool == track_ids@,
            final(self)@.played == Set::<u64>::empty(),
            final(self)@.active,
    {
        self.track_pool = track_ids;
        self.played.clear();
        self.active = true;
    }

    /// Turn shuffle mode off and empty the pool.
    pub fn stop(&mut self)
        ensures
            final(self)@.pool == Seq::<u64>::empty(),
            final(self)@.played == Set::<u64>::empty(),
            !final(self)@.active,
    {
        self.active = false;
        self.track_pool.clear();
        self.played.clear();
    }

    /// The pool entries not played yet, in pool order.
    pub fn available(&self) -> (r: Vec<u64>)
        ensures
            r@ == unplayed(self@.pool, self@.played),
    {
        let ghost pred = |id: u64| !self.played@.contains(id);
        let mut out: Vec<u64> = Vec::new();
        let mut i: usize = 0;
        while i < self.track_pool.len()
            invariant
                i <= self.track_pool.len(),
                pred == (|id: u64| !self.played@.contains(id)),
                out@ == self.track_pool@.take(i as int).filter(pred),
            decreases self.track_pool.len() - i,
        {
            let id = self.track_pool[i];
            proof {
                reveal_with_fuel(Seq::filter, 1);
                assert(self.track_pool@.take(i as int + 1).drop_last() == self.track_pool@.take(
                    i as int,
                ));
            }
            if !self.played.contains(&id) {
                out.push(id);
            }
            i = i + 1;
        }
        assert(self.track_pool@.take(i as int) == self.track_pool@);
        out
    }

    /// Pick the candidate at `choice`: among the unplayed entries, or, once all
    /// have been played, among the whole pool after forgetting what was played.
    /// The picked ID is recorded as played. Returns `None` for an empty pool.
    pub fn pick_next_at(&mut self, choice: usize) -> (r: Option<u64>)
        requires
            old(self)@.pool.len() > 0 ==> choice < pick_range(old(self)@.pool, old(self)@.played),
        ensures
            final(self)@.pool == old(self)@.pool,
            final(self)@.active == old(self)@.active,
            ({
                let avail = unplayed(old(self)@.pool, old(self)@.played);
                if avail.len() > 0 {
                    &&& r == Some(avail[choice as int])
                    &&& final(self)@.played == old(self)@.played.insert(avail[choice as int])
                } else if old(self)@.pool.len() == 0 {
                    &&& r is None
                    &&& final(self)@.played == Set::<u64>::empty()
                } else {
                    &&& r == Some(old(self)@.pool[choice as int])
                    &&& final(self)@.played == Set::<u64>::empty().insert(
                        old(self)@.pool[choice as int],
                    )
                }
            }),
    {
        let available = self.available();
        if available.len() == 0 {
            self.played.clear();
            if self.track_pool.len() == 0 {
                return None;
            }
            let id = self.track_pool[choice];
            self.played.insert(id);
            Some(id)
        } else {
            let id = available[choice];
            self.played.insert(id);
            Some(id)
        }
    }

    /// Pick the next track with the random number `draw` (see `pick_spec`);
    /// the caller draws it, uniformly from all `u64` values for a fair pick.
    pub fn pick_next(&mut self, draw: u64) -> (r: Option<u64>)
        ensures
            final(self)@.pool == old(self)@.pool,
            final(self)@.active == old(self)@.active,
            (r, final(self)@.played) == pick_spec(old(self)@, draw),
    {
        let n = self.available().len();
        let bound = if n > 0 { n } else { self.track_pool.len() };
        if bound == 0 {
            return self.pick_next_at(0);
        }
        let choice = (draw % (bound as u64)) as usize;
        assert(choice as int == (draw as int) % (bound as int));
        self.pick_next_at(choice)
    }
}

/// Every unplayed candidate is an entry of the pool that was not played.
pub proof fn lemma_unplayed_in_pool(pool: Seq<u64>, played: Set<u64>, i: int)
    requires
        0 <= i < unplayed(pool, played).len(),
    ensures
        pool.contains(unplayed(pool, played)[i]),
        !played.contains(unplayed(pool, played)[i]),
{
    let pred = |id: u64| !played.contains(id);
    pool.lemma_filter_pred(pred, i);
    assert(pool.filter(pred).contains(pool.filter(pred)[i]));
    pool.lemma_filter_contains_rev(pred, pool.filter(pred)[i]);
}

/// No repeats before exhaustion: while some pool entry is unplayed, a pick
/// returns an entry that was not played since the last reset.
pub proof fn law_pick_avoids_repeats(pool: Seq<u64>, played: Set<u64>, choice: int)
    requires
        unplayed(pool, played).len() > 0,
        0 <= choice < pick_range(pool, played),
    ensures
        !played.contains(unplayed(pool, played)[choice]),
        pool.contains(unplayed(pool, played)[choice]),
{
    lemma_unplayed_in_pool(pool, played, choice);
}

/// Picks do not repeat while unplayed tracks remain: when no pick finds every
/// pool entry played, the IDs picked are distinct pool entries, none was
/// played before, and the played set grows by exactly the picks.
pub proof fn law_picks_do_not_repeat(m: ShuffleModel, draws: Seq<u64>)
    requires
        forall|k: int|
            0 <= k < draws.len() ==> #[trigger] unplayed(m.pool, picks_spec(m, draws.take(k)).1).len() > 0,
    ensures
        picks_spec(m, draws).0.len() == draws.len(),
        picks_spec(m, draws).0.no_duplicates(),
        forall|i: int| 0 <= i < draws.len() ==> !m.played.contains(#[trigger] picks_spec(m, draws).0[i]),
        forall|i: int| 0 <= i < draws.len() ==> m.pool.contains(#[trigger] picks_spec(m, draws).0[i]),
        forall|x: u64| #[trigger]
            picks_spec(m, draws).1.contains(x) <==> (m.played.contains(x) || picks_spec(m, draws).0.contains(x)),
    decreases draws.len(),
{
    if draws.len() > 0 {
        let d = draws.drop_last();
        assert forall|k: int| 0 <= k < d.len() implies #[trigger] unplayed(m.pool, picks_spec(m, d.take(k)).1).len() > 0 by {
            assert(d.take(k) == draws.take(k));
        }
        law_picks_do_not_repeat(m, d);
        let (ids, played) = picks_spec(m, d);
        assert(draws.take(d.len() as int) == d);
        let avail = unplayed(m.pool, played);
        assert(avail.len() > 0);
        let c = (draws.last() as int) % (avail.len() as int);
        let id = avail[c];
        lemma_unplayed_in_pool(m.pool, played, c);
        assert(!played.contains(id));
        let ids2 = picks_spec(m, draws).0;
        assert(ids2 == ids.push(id));
        assert(!ids.contains(id));
        assert forall|i: int, j: int| 0 <= i < ids2.len() && 0 <= j < ids2.len() && i != j implies ids2[i] != ids2[j] by {
            if i < ids.len() && j < ids.len() {
            } else if i == ids.len() {
                assert(ids.contains(ids[j]));
            } else {
                assert(ids.contains(ids[i]));
            }
        }
        assert forall|i: int| 0 <= i < draws.len() implies !m.played.contains(#[trigger] ids2[i]) by {
            if i < ids.len() {
                assert(ids2[i] == ids[i]);
            }
        }
        assert forall|i: int| 0 <= i < draws.len() implies m.pool.contains(#[trigger] ids2[i]) by {
            if i < ids.len() {
                assert(ids2[i] == ids[i]);
            }
        }
        assert forall|x: u64| #[trigger] picks_spec(m, draws).1.contains(x) <==> (m.played.contains(x) || ids2.contains(x)) by {
            if ids2.contains(x) && x != id {
                let j = choose|j: int| 0 <= j < ids2.len() && ids2[j] == x;
                assert(ids.contains(x)) by {
                    assert(ids[j] == x);
                }
            }
            if ids.contains(x) {
                let j = choose|j: int| 0 <= j < ids.len() && ids[j] == x;
                assert(ids2[j] == x);
            }
            assert(ids2[ids.len() as int] == id);
        }
    }
}

} // verus!
