//! Per-track listening statistics and the listen log.
use std::collections::HashMap;
use vstd::prelude::*;

use crate::types::{ListenEvent, ListenOutcome, QueuedTrack, TrackStats};

verus! {

broadcast use vstd::std_specs::hash::group_hash_axioms;

/// The abstract state: statistics by track ID, and the listen log, oldest first.
pub struct StatsModel {
    pub stats: Map<u64, TrackStats>,
    pub log: Seq<ListenEvent>,
}

/// Every entry is filed under its own track ID.
pub open spec fn stats_wf(m: Map<u64, TrackStats>) -> bool {
    forall|k: u64| #[trigger] m.contains_key(k) ==> m[k].id == k
}

/// The entry after a play of `track` starts at `now`: a fresh entry for a track
/// never played, otherwise one more play, the new time as last play, and the
/// track's current title, artist and album.
pub open spec fn started_entry(prev: Option<TrackStats>, track: QueuedTrack, now: String) -> TrackStats {
    match prev {
        Some(e) => TrackStats {
            play_count: (e.play_count + 1) as u32,
            last_played: now,
            title: track.title,
            artist: track.artist,
            album: track.album,
            ..e
        },
        None => TrackStats {
            id: track.id,
            title: track.title,
            artist: track.artist,
            album: track.album,
            play_count: 1,
            complete_count: 0,
            skip_count: 0,
            total_listen_ms: 0,
            first_played: now,
            last_played: now,
        },
    }
}

/// `a + b`, saturating at the largest `u64`.
pub open spec fn add_sat(a: u64, b: u64) -> u64 {
    if a + b <= u64::MAX {
        (a + b) as u64
    } else {
        u64::MAX
    }
}

/// The entry after a listen of `listened_ms` ends with `outcome`: the time is
/// added, and a completion or a skip is counted (a stop counts neither).
pub open spec fn ended_entry(e: TrackStats, listened_ms: u64, outcome: ListenOutcome) -> TrackStats {
    TrackStats {
        total_listen_ms: add_sat(e.total_listen_ms, listened_ms),
        complete_count: if outcome == ListenOutcome::Complete {
            (e.complete_count + 1) as u32
        } else {
            e.complete_count
        },
        skip_count: if outcome == ListenOutcome::Skip {
            (e.skip_count + 1) as u32
        } else {
            e.skip_count
        },
        ..e
    }
}

/// The store after a listen of `track_id` started at `started_at` ends after
/// `listened_ms` with `outcome`: the track's entry, if any, is updated (see
/// `ended_entry`), and the listen is appended to the log.
pub open spec fn end_spec(
    m: StatsModel,
    track_id: u64,
    started_at: String,
    listened_ms: u64,
    outcome: ListenOutcome,
) -> StatsModel {
    StatsModel {
        stats: if m.stats.contains_key(track_id) {
            m.stats.insert(track_id, ended_entry(m.stats[track_id], listened_ms, outcome))
        } else {
            m.stats
        },
        log: m.log.push(ListenEvent { track_id, started_at, duration_listened_ms: listened_ms, outcome }),
    }
}

/// Whether the counter an outcome bumps has room for one more.
pub open spec fn can_count(e: TrackStats, outcome: ListenOutcome) -> bool {
    match outcome {
        ListenOutcome::Complete => e.complete_count < u32::MAX,
        ListenOutcome::Skip => e.skip_count < u32::MAX,
        ListenOutcome::Stop => true,
    }
}

/// Entries filed by their IDs, a later entry replacing an earlier one.
pub open spec fn entries_map(s: Seq<TrackStats>) -> Map<u64, TrackStats>
    decreases s.len(),
{
    if s.len() == 0 {
        Map::empty()
    } else {
        entries_map(s.drop_last()).insert(s.last().id, s.last())
    }
}

/// The `n` most recent listens, newest first.
pub open spec fn recent_spec(log: Seq<ListenEvent>, n: nat) -> Seq<ListenEvent> {
    let start = if log.len() >= n { log.len() - n } else { 0 };
    log.subrange(start as int, log.len() as int).reverse()
}

/// `r` lists the `k` most played entries of `m`: as many as `k` allows, each
/// entry once, by play count from most to least, and no entry left out has
/// more plays than one listed.
pub open spec fn is_top(r: Seq<TrackStats>, m: Map<u64, TrackStats>, k: nat) -> bool {
    &&& r.len() == (if m.len() < k { m.len() } else { k })
    &&& forall|i: int| 0 <= i < r.len() ==> m.contains_key(#[trigger] r[i].id) && m[r[i].id] == r[i]
    &&& forall|i: int, j: int| 0 <= i < j < r.len() ==> (#[trigger] r[i]).id != (#[trigger] r[j]).id
    &&& forall|i: int, j: int| 0 <= i < j < r.len() ==> (#[trigger] r[i]).play_count >= (#[trigger] r[j]).play_count
    &&& forall|k2: u64, i: int|
        #[trigger] m.contains_key(k2) && 0 <= i < r.len() && (forall|j: int| 0 <= j < r.len() ==> r[j].id != k2)
            ==> m[k2].play_count <= (#[trigger] r[i]).play_count
}

/// Entries ordered by play count, most plays first.
pub open spec fn sorted_by_plays(s: Seq<TrackStats>) -> bool {
    forall|a: int, b: int| 0 <= a < b < s.len() ==> (#[trigger] s[a]).play_count >= (#[trigger] s[b]).play_count
}

/// Each entry is the one `m` files under its ID.
pub open spec fn entries_of(s: Seq<TrackStats>, m: Map<u64, TrackStats>) -> bool {
    forall|a: int| 0 <= a < s.len() ==> m.contains_key(#[trigger] s[a].id) && m[s[a].id] == s[a]
}

/// No two entries share an ID.
pub open spec fn distinct_ids(s: Seq<TrackStats>) -> bool {
    forall|a: int, b: int| 0 <= a < b < s.len() ==> (#[trigger] s[a]).id != (#[trigger] s[b]).id
}

/// Some entry has ID `k`.
pub open spec fn has_id(s: Seq<TrackStats>, k: u64) -> bool {
    exists|a: int| 0 <= a < s.len() && s[a].id == k
}

/// The entries' IDs are exactly the IDs listed in `ids`.
pub open spec fn ids_covered(s: Seq<TrackStats>, ids: Seq<u64>) -> bool {
    &&& forall|j: int| 0 <= j < ids.len() ==> #[trigger] has_id(s, ids[j])
    &&& forall|a: int| 0 <= a < s.len() ==> ids.contains(#[trigger] s[a].id)
}

/// Insert `e` after every entry with at least as many plays; returns the position.
fn insert_by_plays(sorted: &mut Vec<TrackStats>, e: TrackStats) -> (p: usize)
    requires
        sorted_by_plays(old(sorted)@),
    ensures
        p <= old(sorted)@.len(),
        final(sorted)@ == old(sorted)@.insert(p as int, e),
        sorted_by_plays(final(sorted)@),
{
    let mut p: usize = 0;
    while p < sorted.len() && sorted[p].play_count >= e.play_count
        invariant
            p <= sorted@.len(),
            forall|a: int| 0 <= a < p ==> (#[trigger] sorted@[a]).play_count >= e.play_count,
        decreases sorted@.len() - p,
    {
        p = p + 1;
    }
    let ghost old_sorted = sorted@;
    proof {
        if p < old_sorted.len() {
            assert forall|a: int| p <= a < old_sorted.len() implies (#[trigger] old_sorted[a]).play_count < e.play_count by {
                if a > p {
                    assert(old_sorted[p as int].play_count >= old_sorted[a].play_count);
                }
            }
        }
    }
    sorted.insert(p, e);
    proof {
        let ns = sorted@;
        assert forall|a: int, b: int| 0 <= a < b < ns.len() implies (#[trigger] ns[a]).play_count >= (#[trigger] ns[b]).play_count by {
            let oa = if a < p { a } else if a == p { -1 } else { a - 1 };
            let ob = if b < p { b } else if b == p { -1 } else { b - 1 };
            if a != p && b != p {
                assert(ns[a] == old_sorted[oa]);
                assert(ns[b] == old_sorted[ob]);
            } else if a == p {
                assert(ns[b] == old_sorted[ob]);
            } else {
                assert(ns[a] == old_sorted[oa]);
            }
        }
    }
    p
}

/// Position-wise view of an insertion.
proof fn lemma_insert_at(s: Seq<TrackStats>, p: int, e: TrackStats)
    requires
        0 <= p <= s.len(),
    ensures
        forall|a: int| 0 <= a < s.insert(p, e).len() ==> (#[trigger] s.insert(p, e)[a]) == (if a < p {
            s[a]
        } else if a == p {
            e
        } else {
            s[a - 1]
        }),
{
}

/// Inserting the entry for a new ID keeps the entries filed, distinct and
/// covering the IDs seen so far plus the new one.
proof fn lemma_insert_keeps_entries(s: Seq<TrackStats>, p: int, e: TrackStats, m: Map<u64, TrackStats>, ids: Seq<u64>)
    requires
        0 <= p <= s.len(),
        entries_of(s, m),
        distinct_ids(s),
        ids_covered(s, ids),
        m.contains_key(e.id) && m[e.id] == e,
        forall|a: int| 0 <= a < s.len() ==> s[a].id != e.id,
    ensures
        entries_of(s.insert(p, e), m),
        distinct_ids(s.insert(p, e)),
        ids_covered(s.insert(p, e), ids.push(e.id)),
{
    lemma_insert_at(s, p, e);
    lemma_insert_distinct(s, p, e);
    lemma_insert_covers_fwd(s, p, e, ids);
    lemma_insert_covers_back(s, p, e, ids);
}

proof fn lemma_insert_distinct(s: Seq<TrackStats>, p: int, e: TrackStats)
    requires
        0 <= p <= s.len(),
        distinct_ids(s),
        forall|a: int| 0 <= a < s.len() ==> s[a].id != e.id,
    ensures
        distinct_ids(s.insert(p, e)),
{
    lemma_insert_at(s, p, e);
    let ns = s.insert(p, e);
    assert forall|a: int, b: int| 0 <= a < b < ns.len() implies (#[trigger] ns[a]).id != (#[trigger] ns[b]).id by {
        let oa = if a < p { a } else { a - 1 };
        let ob = if b < p { b } else { b - 1 };
        if a != p && b != p {
            assert(ns[a] == s[oa]);
            assert(ns[b] == s[ob]);
        } else if a == p {
            assert(ns[b] == s[ob]);
        } else {
            assert(ns[a] == s[oa]);
        }
    }
}

proof fn lemma_insert_covers_fwd(s: Seq<TrackStats>, p: int, e: TrackStats, ids: Seq<u64>)
    requires
        0 <= p <= s.len(),
        ids_covered(s, ids),
    ensures
        forall|j: int| 0 <= j < ids.push(e.id).len() ==> #[trigger] has_id(s.insert(p, e), ids.push(e.id)[j]),
{
    lemma_insert_at(s, p, e);
    let ns = s.insert(p, e);
    let nids = ids.push(e.id);
    assert forall|j: int| 0 <= j < nids.len() implies #[trigger] has_id(ns, nids[j]) by {
        if j == ids.len() {
            assert(ns[p].id == nids[j]);
        } else {
            assert(nids[j] == ids[j]);
            assert(has_id(s, ids[j]));
            let a = choose|a: int| 0 <= a < s.len() && s[a].id == ids[j];
            if a < p {
                assert(ns[a].id == nids[j]);
            } else {
                assert(ns[a + 1].id == nids[j]);
            }
        }
    }
}

proof fn lemma_insert_covers_back(s: Seq<TrackStats>, p: int, e: TrackStats, ids: Seq<u64>)
    requires
        0 <= p <= s.len(),
        ids_covered(s, ids),
    ensures
        forall|a: int| 0 <= a < s.insert(p, e).len() ==> ids.push(e.id).contains(#[trigger] s.insert(p, e)[a].id),
{
    lemma_insert_at(s, p, e);
    let ns = s.insert(p, e);
    let nids = ids.push(e.id);
    assert forall|a: int| 0 <= a < ns.len() implies nids.contains(#[trigger] ns[a].id) by {
        if a == p {
            assert(nids[ids.len() as int] == ns[a].id);
        } else {
            let oa = if a < p { a } else { a - 1 };
            assert(ns[a] == s[oa]);
            assert(ids.contains(s[oa].id));
            let j = choose|j: int| 0 <= j < ids.len() && ids[j] == s[oa].id;
            assert(nids[j] == ns[a].id);
        }
    }
}

/// Persistent store for per-track stats and listen log
pub struct StatsStore {
    stats: HashMap<u64, TrackStats>,
    listen_log: Vec<ListenEvent>,
}

impl View for StatsStore {
    type V = StatsModel;

    open spec fn view(&self) -> StatsModel {
        self.model()
    }
}

impl StatsStore {
    /// The statistics by track ID and the listen log.
    pub closed spec fn model(&self) -> StatsModel {
        StatsModel { stats: self.stats@, log: self.listen_log@ }
    }

    /// Every entry is filed under its own ID.
    pub closed spec fn wf(&self) -> bool {
        stats_wf(self.stats@)
    }

    /// An empty store.
    pub fn new() -> (r: Self)
        ensures
            r.wf(),
            r@.stats == Map::<u64, TrackStats>::empty(),
            r@.log == Seq::<ListenEvent>::empty(),
    {
        StatsStore { stats: HashMap::new(), listen_log: Vec::new() }
    }

    /// A store holding `entries` (filed by ID, later entries winning) and `log`.
    pub fn from_parts(entries: Vec<TrackStats>, log: Vec<ListenEvent>) -> (r: Self)
        ensures
            r.wf(),
            r@.stats == entries_map(entries@),
            r@.log == log@,
    {
        let mut stats: HashMap<u64, TrackStats> = HashMap::new();
        let mut i: usize = 0;
        while i < entries.len()
            invariant
                i <= entries.len(),
                stats@ == entries_map(entries@.take(i as int)),
                stats_wf(stats@),
            decreases entries.len() - i,
        {
            let e = entries[i].clone();
            proof {
                assert(entries@.take(i as int + 1).drop_last() == entries@.take(i as int));
            }
            stats.insert(e.id, e);
            i = i + 1;
        }
        assert(entries@.take(i as int) == entries@);
        StatsStore { stats, listen_log: log }
    }

    /// Record that `track` started playing at `now` (the caller reads the
    /// clock); returns `now`.
    pub fn record_start(&mut self, track: &QueuedTrack, now: String) -> (r: String)
        requires
            old(self).wf(),
            old(self)@.stats.contains_key(track.id) ==> old(self)@.stats[track.id].play_count < u32::MAX,
        ensures
            final(self).wf(),
            r == now,
            final(self)@.log == old(self)@.log,
            final(self)@.stats == old(self)@.stats.insert(
                track.id,
                started_entry(
                    if old(self)@.stats.contains_key(track.id) {
                        Some(old(self)@.stats[track.id])
                    } else {
                        None
                    },
                    *track,
                    now,
                ),
            ),
    {
        let entry = match self.stats.remove(&track.id) {
            Some(e) => TrackStats {
                play_count: e.play_count + 1,
                last_played: now.clone(),
                title: track.title.clone(),
                artist: track.artist.clone(),
                album: track.album.clone(),
                ..e
            },
            None => TrackStats {
                id: track.id,
                title: track.title.clone(),
                artist: track.artist.clone(),
                album: track.album.clone(),
                play_count: 1,
                complete_count: 0,
                skip_count: 0,
                total_listen_ms: 0,
                first_played: now.clone(),
                last_played: now.clone(),
            },
        };
        self.stats.insert(track.id, entry);
        proof {
            assert(self.stats@ =~= old(self)@.stats.insert(
                track.id,
                started_entry(
                    if old(self)@.stats.contains_key(track.id) {
                        Some(old(self)@.stats[track.id])
                    } else {
                        None
                    },
                    *track,
                    now,
                ),
            ));
        }
        now
    }

    /// Record that a listen of `track_id` started at `started_at` ended after
    /// `listened_ms` with `outcome`: the track's entry (if any) is updated, and
    /// the listen is appended to the log.
    pub fn record_end(
        &mut self,
        track_id: u64,
        started_at: String,
        listened_ms: u64,
        outcome: ListenOutcome,
    )
        requires
            old(self).wf(),
            old(self)@.stats.contains_key(track_id) ==> can_count(old(self)@.stats[track_id], outcome),
        ensures
            final(self).wf(),
            final(self)@ == end_spec(old(self)@, track_id, started_at, listened_ms, outcome),
    {
        if let Some(e) = self.stats.remove(&track_id) {
            let total = if e.total_listen_ms <= u64::MAX - listened_ms {
                e.total_listen_ms + listened_ms
            } else {
                u64::MAX
            };
            let complete_count = match outcome {
                ListenOutcome::Complete => e.complete_count + 1,
                _ => e.complete_count,
            };
            let skip_count = match outcome {
                ListenOutcome::Skip => e.skip_count + 1,
                _ => e.skip_count,
            };
            let updated = TrackStats { total_listen_ms: total, complete_count, skip_count, ..e };
            self.stats.insert(track_id, updated);
            proof {
                assert(self.stats@ =~= old(self)@.stats.insert(
                    track_id,
                    ended_entry(old(self)@.stats[track_id], listened_ms, outcome),
                ));
            }
        }
        let ghost started = started_at;
        self.listen_log.push(
            ListenEvent { track_id, started_at, duration_listened_ms: listened_ms, outcome },
        );
        proof {
            let want = end_spec(old(self)@, track_id, started, listened_ms, outcome);
            assert(self@.stats =~= want.stats);
            assert(self@.log =~= want.log);
        }
    }

    /// The statistics of one track.
    pub fn get_track_stats(&self, id: u64) -> (r: Option<TrackStats>)
        ensures
            r == (if self@.stats.contains_key(id) {
                Some(self@.stats[id])
            } else {
                None
            }),
    {
        match self.stats.get(&id) {
            Some(e) => Some(e.clone()),
            None => None,
        }
    }

    /// The most recent `limit` listens, newest first.
    pub fn get_recent_listens(&self, limit: usize) -> (r: Vec<ListenEvent>)
        ensures
            r@ == recent_spec(self@.log, limit as nat),
    {
        let len = self.listen_log.len();
        let start = if len >= limit { len - limit } else { 0 };
        let mut out: Vec<ListenEvent> = Vec::new();
        let mut i: usize = len;
        while i > start
            invariant
                start <= i <= len,
                len == self.listen_log@.len(),
                out@ == self.listen_log@.subrange(i as int, len as int).reverse(),
            decreases i,
        {
            i = i - 1;
            out.push(self.listen_log[i].clone());
            proof {
                let s = self.listen_log@;
                assert(s.subrange(i as int, len as int) == seq![s[i as int]] + s.subrange(
                    i as int + 1,
                    len as int,
                ));
                assert(s.subrange(i as int, len as int).reverse() =~= s.subrange(
                    i as int + 1,
                    len as int,
                ).reverse().push(s[i as int]));
            }
        }
        out
    }

    /// The full listen log, oldest first.
    pub fn get_listen_log(&self) -> (r: Vec<ListenEvent>)
        ensures
            r@ == self@.log,
    {
        let mut out: Vec<ListenEvent> = Vec::new();
        let mut i: usize = 0;
        while i < self.listen_log.len()
            invariant
                i <= self.listen_log@.len(),
                out@ == self.listen_log@.take(i as int),
            decreases self.listen_log@.len() - i,
        {
            out.push(self.listen_log[i].clone());
            proof {
                assert(self.listen_log@.take(i as int + 1) == self.listen_log@.take(i as int).push(
                    self.listen_log@[i as int],
                ));
            }
            i = i + 1;
        }
        assert(self.listen_log@.take(i as int) == self.listen_log@);
        out
    }

    /// Clear the listen log; the aggregate statistics stay.
    pub fn clear_listen_log(&mut self)
        requires
            old(self).wf(),
        ensures
            final(self).wf(),
            final(self)@.stats == old(self)@.stats,
            final(self)@.log == Seq::<ListenEvent>::empty(),
    {
        self.listen_log.clear();
    }

    /// The IDs that have statistics, each once, in the map's walk order.
    pub fn ids(&self) -> (r: Vec<u64>)
        ensures
            r@.no_duplicates(),
            r@.to_set() == self@.stats.dom(),
            r@.len() == self@.stats.dom().len(),
    {
        let mut out: Vec<u64> = Vec::new();
        for k in it: self.stats.keys()
            invariant
                out@ == it.seq().take(it.index() as int).unref(),
                it.index() == it.seq().len() ==> out@ == it.seq().unref(),
                it.seq().unref().no_duplicates(),
                it.seq().unref().to_set() == self.stats@.dom(),
                it.seq().len() == self.stats@.dom().len(),
        {
            proof {
                assert(it.seq().take(it.index() as int + 1).unref() == it.seq().take(
                    it.index() as int,
                ).unref().push(*it.seq()[it.index() as int]));
            }
            out.push(*k);
            proof {
                assert(it.seq().take(it.seq().len() as int) == it.seq());
            }
        }
        out
    }

    /// The `limit` most played tracks, most plays first (see `is_top`); tracks
    /// with equal play counts come in no promised order.
    #[verifier::rlimit(40)]
    pub fn get_top_tracks(&self, limit: usize) -> (r: Vec<TrackStats>)
        requires
            self.wf(),
        ensures
            is_top(r@, self@.stats, limit as nat),
    {
        let ids = self.ids();
        let ghost m = self.stats@;
        let mut sorted: Vec<TrackStats> = Vec::new();
        let mut i: usize = 0;
        while i < ids.len()
            invariant
                i <= ids.len(),
                m == self.stats@,
                stats_wf(m),
                ids@.no_duplicates(),
                ids@.to_set() == m.dom(),
                sorted@.len() == i,
                sorted_by_plays(sorted@),
                entries_of(sorted@, m),
                distinct_ids(sorted@),
                ids_covered(sorted@, ids@.take(i as int)),
            decreases ids.len() - i,
        {
            let id = ids[i];
            proof {
                assert(ids@.to_set().contains(id));
            }
            let e = match self.stats.get(&id) {
                Some(v) => v.clone(),
                None => {
                    proof {
                        assert(false);
                    }
                    return Vec::new();
                },
            };
            let ghost old_sorted = sorted@;
            proof {
                assert forall|a: int| 0 <= a < old_sorted.len() implies old_sorted[a].id != id by {
                    assert(ids@.take(i as int).contains(old_sorted[a].id));
                    let j = choose|j: int| 0 <= j < i && ids@.take(i as int)[j] == old_sorted[a].id;
                    assert(ids@[j] != ids@[i as int]);
                }
            }
            let p = insert_by_plays(&mut sorted, e);
            proof {
                lemma_insert_keeps_entries(old_sorted, p as int, e, m, ids@.take(i as int));
                assert(ids@.take(i as int + 1) == ids@.take(i as int).push(id));
            }
            i = i + 1;
        }
        proof {
            ids@.unique_seq_to_set();
            assert(ids@.take(i as int) == ids@);
        }
        let n = sorted.len();
        let keep = if n < limit { n } else { limit };
        let ghost full = sorted@;
        sorted.truncate(keep);
        proof {
            let r = sorted@;
            assert(r == full.take(keep as int));
            assert forall|k2: u64, x: int|
                #[trigger] m.contains_key(k2) && 0 <= x < r.len() && (forall|j: int| 0 <= j < r.len() ==> r[j].id != k2)
                implies m[k2].play_count <= (#[trigger] r[x]).play_count by {
                assert(ids@.to_set().contains(k2));
                let j = choose|j: int| 0 <= j < ids@.len() && ids@[j] == k2;
                assert(has_id(full, ids@[j]));
                let a = choose|a: int| 0 <= a < full.len() && full[a].id == ids@[j];
                if a < keep {
                    assert(r[a].id == k2);
                }
                assert(full[x].play_count >= full[a].play_count);
            }
        }
        sorted
    }

}


/// A listen that starts and then plays to the end counts one more play and
/// one more completion, and adds its time; a stop counts neither a completion
/// nor a skip, and a skip counts one more skip.
pub proof fn law_listen_counts(prev: Option<TrackStats>, track: QueuedTrack, now: String, ms: u64)
    requires
        prev matches Some(e) ==> e.id == track.id,
    ensures
        ({
            let s = started_entry(prev, track, now);
            let before_plays: int = match prev { Some(e) => e.play_count as int, None => 0 };
            let before_done: int = match prev { Some(e) => e.complete_count as int, None => 0 };
            let before_skips: int = match prev { Some(e) => e.skip_count as int, None => 0 };
            &&& before_plays < u32::MAX ==> s.play_count == before_plays + 1
            &&& before_done < u32::MAX ==> ended_entry(s, ms, ListenOutcome::Complete).complete_count == before_done + 1
            &&& ended_entry(s, ms, ListenOutcome::Complete).skip_count == before_skips
            &&& ended_entry(s, ms, ListenOutcome::Stop).complete_count == before_done
            &&& ended_entry(s, ms, ListenOutcome::Stop).skip_count == before_skips
            &&& before_skips < u32::MAX ==> ended_entry(s, ms, ListenOutcome::Skip).skip_count == before_skips + 1
            &&& ended_entry(s, ms, ListenOutcome::Skip).play_count == s.play_count
            &&& s.id == track.id
            &&& s.last_played == now
        }),
{
}

/// Recent listens come newest first: the listen just logged heads the list,
/// and the list holds as many listens as asked for, or all of them.
pub proof fn law_recent_newest_first(log: Seq<ListenEvent>, ev: ListenEvent, n: nat)
    ensures
        recent_spec(log, n).len() == (if log.len() < n { log.len() } else { n }),
        n > 0 ==> recent_spec(log.push(ev), n)[0] == ev,
{
    let l2 = log.push(ev);
    let start = if l2.len() >= n { l2.len() - n } else { 0 };
    if n > 0 {
        let sub = l2.subrange(start as int, l2.len() as int);
        assert(sub.reverse()[0] == sub[sub.len() - 1]);
    }
}

} // verus!
