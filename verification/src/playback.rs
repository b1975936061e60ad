//! The playback queue and transport state machine.
//!
//! `PlaybackState` holds what the player decides on: the upcoming queue, the
//! current track, the playback status, the history of played tracks, the start
//! time of the running listen session and the shuffle pool. Each operation is a
//! transition of that state; what must happen outside (decode and play audio,
//! record a listen) is returned to the caller as plain values.
use std::collections::VecDeque;
use vstd::multiset::Multiset;
use vstd::prelude::*;

use crate::shuffle::{ShuffleModel, ShufflePool, law_picks_do_not_repeat, pick_spec, picks_spec, unplayed};
use crate::text::{append_str, decimal, push_decimal};
use crate::stats::{StatsModel, add_sat, end_spec};
use crate::types::{ListenEvent, ListenOutcome, PlayStatus, QueuedTrack};

verus! {

/// The abstract state of the playback engine.
pub struct PlaybackModel {
    pub queue: Seq<QueuedTrack>,
    pub current: Option<QueuedTrack>,
    pub status: PlayStatus,
    pub history: Seq<QueuedTrack>,
    pub listen_started_at: Option<String>,
    pub shuffle: ShuffleModel,
}

/// The state with the current track (if any) moved onto the end of the history.
pub open spec fn retire_spec(m: PlaybackModel) -> PlaybackModel {
    PlaybackModel {
        history: match m.current {
            Some(t) => m.history.push(t),
            None => m.history,
        },
        current: None,
        ..m
    }
}

/// The state once `track` has been loaded for playback with its listen session
/// starting at `started_at`.
pub open spec fn begin_spec(m: PlaybackModel, track: QueuedTrack, started_at: String) -> PlaybackModel {
    PlaybackModel {
        current: Some(track),
        status: PlayStatus::Buffering,
        listen_started_at: Some(started_at),
        ..m
    }
}

/// Skip forward: retire the current track and take the head of the queue; the
/// player goes idle when the queue is empty.
pub open spec fn advance_spec(m: PlaybackModel) -> (PlaybackModel, Option<QueuedTrack>) {
    let r = retire_spec(m);
    if r.queue.len() > 0 {
        (PlaybackModel { queue: r.queue.drop_first(), ..r }, Some(r.queue[0]))
    } else {
        (PlaybackModel { status: PlayStatus::Idle, ..r }, None)
    }
}

/// Skip back: put the current track back at the head of the queue and take
/// the most recent track of the history.
pub open spec fn step_back_spec(m: PlaybackModel) -> (PlaybackModel, Option<QueuedTrack>) {
    let q = match m.current {
        Some(c) => seq![c] + m.queue,
        None => m.queue,
    };
    if m.history.len() > 0 {
        (
            PlaybackModel { queue: q, current: None, history: m.history.drop_last(), ..m },
            Some(m.history.last()),
        )
    } else {
        (PlaybackModel { queue: q, current: None, ..m }, None)
    }
}

/// Pausing affects only a playing or buffering player.
pub open spec fn pause_spec(m: PlaybackModel) -> PlaybackModel {
    if m.status == PlayStatus::Playing || m.status == PlayStatus::Buffering {
        PlaybackModel { status: PlayStatus::Paused, ..m }
    } else {
        m
    }
}

/// Resuming affects only a paused player.
pub open spec fn resume_spec(m: PlaybackModel) -> PlaybackModel {
    if m.status == PlayStatus::Paused {
        PlaybackModel { status: PlayStatus::Playing, ..m }
    } else {
        m
    }
}

/// Stopping retires the current track and marks the player stopped.
pub open spec fn stop_spec(m: PlaybackModel) -> PlaybackModel {
    PlaybackModel { status: PlayStatus::Stopped, ..retire_spec(m) }
}

/// A player with nothing loaded or that was stopped starts new tracks directly
/// instead of queueing them.
pub open spec fn starts_directly(m: PlaybackModel) -> bool {
    m.status == PlayStatus::Idle || m.status == PlayStatus::Stopped
}

/// Add a track at the back of the queue, or hand it back for immediate start.
pub open spec fn enqueue_back_spec(m: PlaybackModel, t: QueuedTrack) -> (PlaybackModel, Option<QueuedTrack>) {
    if starts_directly(m) {
        (m, Some(t))
    } else {
        (PlaybackModel { queue: m.queue.push(t), ..m }, None)
    }
}

/// Add a track at the front of the queue, or hand it back for immediate start.
pub open spec fn enqueue_front_spec(m: PlaybackModel, t: QueuedTrack) -> (PlaybackModel, Option<QueuedTrack>) {
    if starts_directly(m) {
        (m, Some(t))
    } else {
        (PlaybackModel { queue: seq![t] + m.queue, ..m }, None)
    }
}

/// Add several tracks at the back; when the player starts directly, the first
/// is handed back for immediate start and only the rest are queued.
pub open spec fn enqueue_all_spec(m: PlaybackModel, ts: Seq<QueuedTrack>) -> (PlaybackModel, Option<QueuedTrack>) {
    if starts_directly(m) {
        (PlaybackModel { queue: m.queue + ts.drop_first(), ..m }, Some(ts[0]))
    } else {
        (PlaybackModel { queue: m.queue + ts, ..m }, None)
    }
}

/// Move the queue entry at `from` to position `to`.
pub open spec fn reorder_spec(q: Seq<QueuedTrack>, from: int, to: int) -> Seq<QueuedTrack> {
    q.remove(from).insert(to, q[from])
}

/// Every track the engine holds: queued, current and played.
pub open spec fn all_tracks(m: PlaybackModel) -> Multiset<QueuedTrack> {
    let base = m.queue.to_multiset().add(m.history.to_multiset());
    match m.current {
        Some(c) => base.insert(c),
        None => base,
    }
}

/// A listen session that ended because its track played to the end.
pub struct FinishedListen {
    pub track_id: u64,
    pub started_at: String,
    pub listened_ms: u64,
}

/// What to do once the audio output has run dry.
pub enum DrainStep {
    /// Nothing was playing: leave everything as it is.
    Keep,
    /// Start `next`; record `finished` as a complete listen first, if present.
    Advance { finished: Option<FinishedListen>, next: QueuedTrack },
    /// The queue is exhausted and the player went idle; record `finished`, if present.
    Halt { finished: Option<FinishedListen> },
}

/// The audio output ran dry (see `PlaybackState::on_output_drained`): the
/// state afterwards and the step to take.
pub open spec fn drain_spec(m: PlaybackModel) -> (PlaybackModel, DrainStep) {
    if !(m.status == PlayStatus::Playing || m.status == PlayStatus::Failed) {
        (m, DrainStep::Keep)
    } else {
        let m1 = if m.status == PlayStatus::Playing {
            PlaybackModel { listen_started_at: None, ..m }
        } else {
            m
        };
        let finished = if m.status == PlayStatus::Playing {
            match (m.current, m.listen_started_at) {
                (Some(t), Some(s)) => Some(
                    FinishedListen { track_id: t.id, started_at: s, listened_ms: secs_to_ms(t.duration_secs) },
                ),
                _ => None,
            }
        } else {
            None
        };
        let m2 = retire_spec(m1);
        if m2.queue.len() > 0 {
            (
                PlaybackModel { queue: m2.queue.drop_first(), status: PlayStatus::Buffering, ..m2 },
                DrainStep::Advance { finished, next: m2.queue[0] },
            )
        } else {
            (PlaybackModel { status: PlayStatus::Idle, ..m2 }, DrainStep::Halt { finished })
        }
    }
}

/// A queue position that does not exist.
#[derive(Debug, Clone, Copy, PartialEq, Eq, Structural)]
pub enum QueueError {
    /// One of the positions is at or past the end of a queue of `len` tracks.
    OutOfBounds { len: usize },
}

impl QueueError {
    /// The human-readable error text.
    pub fn message(&self) -> (r: String)
        ensures
            match *self {
                QueueError::OutOfBounds { len } => r@ == "index out of bounds (queue has "@ + decimal(len as nat)
                    + " tracks)"@,
            },
    {
        match self {
            QueueError::OutOfBounds { len } => {
                let mut s = "index out of bounds (queue has ".to_owned();
                push_decimal(&mut s, *len as u64);
                append_str(&mut s, " tracks)");
                s
            },
        }
    }
}

/// Starting shuffle mode needs at least one track.
#[derive(Debug, Clone, Copy, PartialEq, Eq, Structural)]
pub enum ShuffleError {
    /// The pool of track IDs was empty.
    EmptyPool,
}

impl ShuffleError {
    /// The human-readable error text.
    pub fn message(&self) -> (r: String)
        ensures
            r@ == "no tracks in shuffle pool"@,
    {
        "no tracks in shuffle pool".to_owned()
    }
}

/// Milliseconds in `secs` seconds, saturating at the largest `u64`.
pub open spec fn secs_to_ms(secs: u64) -> u64 {
    if secs * 1000 <= u64::MAX {
        (secs * 1000) as u64
    } else {
        u64::MAX
    }
}

/// Milliseconds in `secs` seconds, saturating at the largest `u64`.
pub fn secs_to_ms_exec(secs: u64) -> (r: u64)
    ensures
        r == secs_to_ms(secs),
{
    if secs <= u64::MAX / 1000 {
        secs * 1000
    } else {
        u64::MAX
    }
}

/// Playback queue, current track, status and history.
pub struct PlaybackState {
    queue: VecDeque<QueuedTrack>,
    current_track: Option<QueuedTrack>,
    status: PlayStatus,
    history: Vec<QueuedTrack>,
    listen_started_at: Option<String>,
    shuffle: ShufflePool,
}

impl View for PlaybackState {
    type V = PlaybackModel;

    open spec fn view(&self) -> PlaybackModel {
        self.model()
    }
}

/// Copies of the tracks of a sequence.
fn copy_tracks(v: &Vec<QueuedTrack>) -> (r: Vec<QueuedTrack>)
    ensures
        r@ == v@,
{
    let mut out: Vec<QueuedTrack> = Vec::new();
    let mut i: usize = 0;
    while i < v.len()
        invariant
            i <= v.len(),
            out@ == v@.take(i as int),
        decreases v.len() - i,
    {
        out.push(v[i].clone());
        proof {
            assert(v@.take(i as int + 1) == v@.take(i as int).push(v@[i as int]));
        }
        i = i + 1;
    }
    assert(v@.take(i as int) == v@);
    out
}

impl PlaybackState {
    /// The queue, current track, status, history, listen start and shuffle pool.
    pub closed spec fn model(&self) -> PlaybackModel {
        PlaybackModel {
            queue: self.queue@,
            current: self.current_track,
            status: self.status,
            history: self.history@,
            listen_started_at: self.listen_started_at,
            shuffle: self.shuffle@,
        }
    }

    /// An idle player with an empty queue, no history and shuffle mode off.
    pub fn new() -> (r: Self)
        ensures
            r@.queue == Seq::<QueuedTrack>::empty(),
            r@.current is None,
            r@.status == PlayStatus::Idle,
            r@.history == Seq::<QueuedTrack>::empty(),
            r@.listen_started_at is None,
            r@.shuffle.pool == Seq::<u64>::empty(),
            r@.shuffle.played == Set::<u64>::empty(),
            !r@.shuffle.active,
    {
        PlaybackState {
            queue: VecDeque::new(),
            current_track: None,
            status: PlayStatus::Idle,
            history: Vec::new(),
            listen_started_at: None,
            shuffle: ShufflePool::new(),
        }
    }

    /// The playback status.
    pub fn status(&self) -> (r: PlayStatus)
        ensures
            r == self@.status,
    {
        self.status
    }

    /// A copy of the current track.
    pub fn current(&self) -> (r: Option<QueuedTrack>)
        ensures
            r == self@.current,
    {
        match &self.current_track {
            Some(t) => Some(t.clone()),
            None => None,
        }
    }

    /// Number of queued tracks.
    pub fn queue_len(&self) -> (r: usize)
        ensures
            r == self@.queue.len(),
    {
        self.queue.len()
    }

    /// Whether a new track would start directly rather than be queued.
    pub fn starts_directly(&self) -> (r: bool)
        ensures
            r == starts_directly(self@),
    {
        self.status == PlayStatus::Idle || self.status == PlayStatus::Stopped
    }

    /// Whether audio is playing or about to (what a shutdown remembers).
    pub fn was_playing(&self) -> (r: bool)
        ensures
            r == (self@.status == PlayStatus::Playing || self@.status == PlayStatus::Buffering),
    {
        self.status == PlayStatus::Playing || self.status == PlayStatus::Buffering
    }

    /// Whether a play/pause toggle pauses (audio is playing) rather than
    /// resumes (any other status).
    pub fn toggle_pauses(&self) -> (r: bool)
        ensures
            r == (self@.status == PlayStatus::Playing),
    {
        self.status == PlayStatus::Playing
    }

    /// Move the current track, if any, onto the end of the history.
    pub fn retire_current(&mut self)
        ensures
            final(self)@ == retire_spec(old(self)@),
    {
        if let Some(current) = self.current_track.take() {
            self.history.push(current);
        }
    }

    /// Load `track` for playback: it becomes the current track, the status is
    /// buffering, and its listen session starts at `started_at`.
    pub fn begin_playback(&mut self, track: QueuedTrack, started_at: String)
        ensures
            final(self)@ == begin_spec(old(self)@, track, started_at),
    {
        self.listen_started_at = Some(started_at);
        self.current_track = Some(track);
        self.status = PlayStatus::Buffering;
    }

    /// The audio output has started: the status is playing.
    pub fn mark_playing(&mut self)
        ensures
            final(self)@ == (PlaybackModel { status: PlayStatus::Playing, ..old(self)@ }),
    {
        self.status = PlayStatus::Playing;
    }

    /// The track could not be resolved or decoded: the status is failed.
    pub fn mark_failed(&mut self)
        ensures
            final(self)@ == (PlaybackModel { status: PlayStatus::Failed, ..old(self)@ }),
    {
        self.status = PlayStatus::Failed;
    }

    /// A restored track was loaded paused: the status is paused.
    pub fn mark_paused(&mut self)
        ensures
            final(self)@ == (PlaybackModel { status: PlayStatus::Paused, ..old(self)@ }),
    {
        self.status = PlayStatus::Paused;
    }

    /// Pause: a playing or buffering player becomes paused.
    pub fn pause(&mut self)
        ensures
            final(self)@ == pause_spec(old(self)@),
    {
        if self.status == PlayStatus::Playing || self.status == PlayStatus::Buffering {
            self.status = PlayStatus::Paused;
        }
    }

    /// Resume: a paused player becomes playing.
    pub fn resume(&mut self)
        ensures
            final(self)@ == resume_spec(old(self)@),
    {
        if self.status == PlayStatus::Paused {
            self.status = PlayStatus::Playing;
        }
    }

    /// Stop: the current track moves to the history and the status is stopped.
    pub fn stop(&mut self)
        ensures
            final(self)@ == stop_spec(old(self)@),
    {
        self.retire_current();
        self.status = PlayStatus::Stopped;
    }

    /// End the running listen session: the start time is cleared, and when a
    /// track is current and a session was running, its ID and start time are
    /// returned so that the session can be recorded.
    pub fn take_listen(&mut self) -> (r: Option<(u64, String)>)
        ensures
            final(self)@ == (PlaybackModel { listen_started_at: None, ..old(self)@ }),
            r == (match (old(self)@.current, old(self)@.listen_started_at) {
                (Some(t), Some(s)) => Some((t.id, s)),
                _ => None,
            }),
    {
        let started = self.listen_started_at.take();
        match (&self.current_track, started) {
            (Some(t), Some(s)) => Some((t.id, s)),
            _ => None,
        }
    }

    /// Skip forward (see `advance_spec`); returns the track to start, if any.
    pub fn advance(&mut self) -> (r: Option<QueuedTrack>)
        ensures
            (final(self)@, r) == advance_spec(old(self)@),
    {
        self.retire_current();
        let next = self.queue.pop_front();
        if next.is_none() {
            self.status = PlayStatus::Idle;
        }
        next
    }

    /// Skip back (see `step_back_spec`); returns the track to start, if any.
    pub fn step_back(&mut self) -> (r: Option<QueuedTrack>)
        ensures
            (final(self)@, r) == step_back_spec(old(self)@),
    {
        if let Some(current) = self.current_track.take() {
            self.queue.push_front(current);
        }
        self.history.pop()
    }

    /// Whether "previous" restarts the current track instead of going back:
    /// true once playback is more than five seconds into it.
    pub fn restarts_current(position_nanos: u128) -> (r: bool)
        ensures
            r == (position_nanos > 5_000_000_000),
    {
        position_nanos > 5_000_000_000
    }

    /// Queue a track at the back (see `enqueue_back_spec`).
    pub fn enqueue_back(&mut self, track: QueuedTrack) -> (r: Option<QueuedTrack>)
        ensures
            (final(self)@, r) == enqueue_back_spec(old(self)@, track),
    {
        if self.starts_directly() {
            Some(track)
        } else {
            self.queue.push_back(track);
            None
        }
    }

    /// Queue a track at the front, to play next (see `enqueue_front_spec`).
    pub fn enqueue_front(&mut self, track: QueuedTrack) -> (r: Option<QueuedTrack>)
        ensures
            (final(self)@, r) == enqueue_front_spec(old(self)@, track),
    {
        if self.starts_directly() {
            Some(track)
        } else {
            self.queue.push_front(track);
            None
        }
    }

    /// Queue several tracks at the back (see `enqueue_all_spec`).
    pub fn enqueue_all(&mut self, tracks: &Vec<QueuedTrack>) -> (r: Option<QueuedTrack>)
        requires
            tracks.len() > 0,
        ensures
            (final(self)@, r) == enqueue_all_spec(old(self)@, tracks@),
    {
        let direct = self.starts_directly();
        let start: usize = if direct { 1 } else { 0 };
        let ghost q0 = self.queue@;
        let mut i: usize = start;
        while i < tracks.len()
            invariant
                start <= i <= tracks.len(),
                self.queue@ == q0 + tracks@.subrange(start as int, i as int),
                self@ == (PlaybackModel { queue: self.queue@, ..old(self)@ }),
                q0 == old(self)@.queue,
            decreases tracks.len() - i,
        {
            self.queue.push_back(tracks[i].clone());
            proof {
                assert(tracks@.subrange(start as int, i as int + 1) == tracks@.subrange(
                    start as int,
                    i as int,
                ).push(tracks@[i as int]));
            }
            i = i + 1;
        }
        proof {
            assert(tracks@.subrange(1, tracks@.len() as int) == tracks@.drop_first());
            assert(tracks@.subrange(0, tracks@.len() as int) == tracks@);
        }
        if direct {
            Some(tracks[0].clone())
        } else {
            None
        }
    }

    /// Empty the queue; the current track keeps playing.
    pub fn clear_queue(&mut self)
        ensures
            final(self)@ == (PlaybackModel { queue: Seq::empty(), ..old(self)@ }),
    {
        self.queue.clear();
    }

    /// The current track and copies of the queued tracks, in order.
    pub fn queue_snapshot(&self) -> (r: (Option<QueuedTrack>, Vec<QueuedTrack>))
        ensures
            r.0 == self@.current,
            r.1@ == self@.queue,
    {
        let mut out: Vec<QueuedTrack> = Vec::new();
        let mut i: usize = 0;
        while i < self.queue.len()
            invariant
                i <= self.queue@.len(),
                out@ == self.queue@.take(i as int),
            decreases self.queue@.len() - i,
        {
            out.push(self.queue[i].clone());
            proof {
                assert(self.queue@.take(i as int + 1) == self.queue@.take(i as int).push(
                    self.queue@[i as int],
                ));
            }
            i = i + 1;
        }
        assert(self.queue@.take(i as int) == self.queue@);
        (self.current(), out)
    }

    /// Copies of the played tracks, oldest first.
    pub fn history(&self) -> (r: Vec<QueuedTrack>)
        ensures
            r@ == self@.history,
    {
        copy_tracks(&self.history)
    }

    /// Move the queued track at `from` to position `to`. Fails, changing
    /// nothing, when either position is not in the queue.
    pub fn reorder(&mut self, from: usize, to: usize) -> (r: Result<(), QueueError>)
        ensures
            r is Ok <==> (from < old(self)@.queue.len() && to < old(self)@.queue.len()),
            r is Err ==> (r == Err::<(), QueueError>(QueueError::OutOfBounds { len: old(self)@.queue.len() as usize })),
            r is Err ==> final(self)@ == old(self)@,
            r is Ok ==> final(self)@ == (PlaybackModel {
                queue: reorder_spec(old(self)@.queue, from as int, to as int),
                ..old(self)@
            }),
    {
        let len = self.queue.len();
        if from >= len || to >= len {
            return Err(QueueError::OutOfBounds { len });
        }
        match self.queue.remove(from) {
            Some(track) => {
                self.queue.insert(to, track);
                Ok(())
            },
            None => Err(QueueError::OutOfBounds { len }),
        }
    }

    /// Replace queue and history with restored ones.
    pub fn restore(&mut self, queue: Vec<QueuedTrack>, history: Vec<QueuedTrack>)
        ensures
            final(self)@ == (PlaybackModel { queue: queue@, history: history@, ..old(self)@ }),
    {
        let mut q: VecDeque<QueuedTrack> = VecDeque::new();
        let mut i: usize = 0;
        while i < queue.len()
            invariant
                i <= queue.len(),
                q@ == queue@.take(i as int),
            decreases queue.len() - i,
        {
            q.push_back(queue[i].clone());
            proof {
                assert(queue@.take(i as int + 1) == queue@.take(i as int).push(queue@[i as int]));
            }
            i = i + 1;
        }
        assert(queue@.take(i as int) == queue@);
        self.queue = q;
        self.history = history;
    }

    /// The audio output ran dry. A playing or failed player moves on: a playing
    /// track counts as listened to the end (its whole duration), the current
    /// track is retired, and the head of the queue is started; with an empty
    /// queue the player goes idle. Any other player is left as it is.
    pub fn on_output_drained(&mut self) -> (r: DrainStep)
        ensures
            (final(self)@, r) == drain_spec(old(self)@),
    {
        if !(self.status == PlayStatus::Playing || self.status == PlayStatus::Failed) {
            return DrainStep::Keep;
        }
        let mut finished: Option<FinishedListen> = None;
        if self.status == PlayStatus::Playing {
            let started = self.listen_started_at.take();
            match (&self.current_track, started) {
                (Some(t), Some(s)) => {
                    finished = Some(
                        FinishedListen {
                            track_id: t.id,
                            started_at: s,
                            listened_ms: secs_to_ms_exec(t.duration_secs),
                        },
                    );
                },
                _ => {},
            }
        }
        self.retire_current();
        match self.queue.pop_front() {
            Some(next) => {
                self.status = PlayStatus::Buffering;
                DrainStep::Advance { finished, next }
            },
            None => {
                self.status = PlayStatus::Idle;
                DrainStep::Halt { finished }
            },
        }
    }

    /// Up to `limit` queued tracks, in queue order, whose IDs are not in
    /// `prefetched` (tracks whose audio is worth fetching ahead).
    pub fn prefetch_candidates(&self, prefetched: &Vec<u64>, limit: usize) -> (r: Vec<QueuedTrack>)
        ensures
            ({
                let wanted = self@.queue.filter(|t: QueuedTrack| !prefetched@.contains(t.id));
                r@ == wanted.take(if wanted.len() < limit { wanted.len() as int } else { limit as int })
            }),
    {
        let ghost pred = |t: QueuedTrack| !prefetched@.contains(t.id);
        let mut out: Vec<QueuedTrack> = Vec::new();
        let mut i: usize = 0;
        while i < self.queue.len() && out.len() < limit
            invariant
                i <= self.queue@.len(),
                pred == (|t: QueuedTrack| !prefetched@.contains(t.id)),
                out@ == self.queue@.take(i as int).filter(pred),
                out@.len() <= limit,
            decreases self.queue@.len() - i,
        {
            let t = &self.queue[i];
            proof {
                reveal_with_fuel(Seq::filter, 1);
                assert(self.queue@.take(i as int + 1).drop_last() == self.queue@.take(i as int));
            }
            if !contains_id(prefetched, t.id) {
                out.push(t.clone());
            }
            i = i + 1;
        }
        proof {
            let wanted = self@.queue.filter(pred);
            lemma_filter_prefix(self.queue@, pred, i as int);
            if out@.len() < limit {
                assert(self.queue@.take(i as int) == self.queue@);
                assert(out@ == wanted);
                assert(wanted.take(wanted.len() as int) == wanted);
            } else {
                assert(out@.len() == limit);
                assert(out@ == wanted.take(limit as int));
            }
        }
        out
    }

    // --- Shuffle radio mode ---
    /// Start shuffle mode over `track_ids`: the pool is replaced, nothing counts
    /// as played, and the queue is emptied. An empty pool is refused.
    pub fn shuffle_start(&mut self, track_ids: Vec<u64>) -> (r: Result<(), ShuffleError>)
        ensures
            r is Err <==> track_ids@.len() == 0,
            r is Err ==> final(self)@ == old(self)@,
            r is Ok ==> final(self)@ == (PlaybackModel {
                queue: Seq::empty(),
                shuffle: ShuffleModel { pool: track_ids@, played: Set::empty(), active: true },
                ..old(self)@
            }),
    {
        if track_ids.len() == 0 {
            return Err(ShuffleError::EmptyPool);
        }
        self.shuffle.start(track_ids);
        self.queue.clear();
        Ok(())
    }

    /// Stop shuffle mode; the current track and queue are kept.
    pub fn shuffle_stop(&mut self)
        ensures
            final(self)@ == (PlaybackModel {
                shuffle: ShuffleModel { pool: Seq::empty(), played: Set::empty(), active: false },
                ..old(self)@
            }),
    {
        self.shuffle.stop();
    }

    /// Whether shuffle mode is on.
    pub fn shuffle_active(&self) -> (r: bool)
        ensures
            r == self@.shuffle.active,
    {
        self.shuffle.is_active()
    }

    /// Shuffle mode, pool size, and number of distinct IDs played since the last reset.
    pub fn shuffle_status(&self) -> (r: (bool, usize, usize))
        ensures
            r == (self@.shuffle.active, self@.shuffle.pool.len() as usize, self@.shuffle.played.len() as usize),
    {
        (self.shuffle.is_active(), self.shuffle.pool_len(), self.shuffle.played_len())
    }

    /// Pick a track ID from the shuffle pool with the random number `draw`
    /// (see `pick_spec`); only the played set changes.
    pub fn shuffle_pick(&mut self, draw: u64) -> (r: Option<u64>)
        ensures
            final(self)@.queue == old(self)@.queue,
            final(self)@.current == old(self)@.current,
            final(self)@.status == old(self)@.status,
            final(self)@.history == old(self)@.history,
            final(self)@.listen_started_at == old(self)@.listen_started_at,
            final(self)@.shuffle.pool == old(self)@.shuffle.pool,
            final(self)@.shuffle.active == old(self)@.shuffle.active,
            (r, final(self)@.shuffle.played) == pick_spec(old(self)@.shuffle, draw),
    {
        self.shuffle.pick_next(draw)
    }

    /// IDs to queue so that shuffle mode keeps two tracks upcoming: nothing
    /// when shuffle mode is off; otherwise one pick for each missing upcoming
    /// slot, the `k`-th made with `draws[k]` (see `picks_spec`; none when the
    /// pool is empty).
    pub fn shuffle_refill_picks(&mut self, draws: &Vec<u64>) -> (r: Vec<u64>)
        requires
            draws@.len() >= 2,
        ensures
            final(self)@.queue == old(self)@.queue,
            final(self)@.current == old(self)@.current,
            final(self)@.status == old(self)@.status,
            final(self)@.history == old(self)@.history,
            final(self)@.listen_started_at == old(self)@.listen_started_at,
            final(self)@.shuffle.pool == old(self)@.shuffle.pool,
            final(self)@.shuffle.active == old(self)@.shuffle.active,
            !old(self)@.shuffle.active ==> r@.len() == 0 && final(self)@ == old(self)@,
            old(self)@.shuffle.active ==> (r@, final(self)@.shuffle.played) == picks_spec(
                old(self)@.shuffle,
                draws@.take(refill_count(old(self)@.queue.len())),
            ),
            old(self)@.shuffle.active && (forall|k: int|
                0 <= k < refill_count(old(self)@.queue.len()) ==> #[trigger] unplayed(
                    old(self)@.shuffle.pool,
                    picks_spec(old(self)@.shuffle, draws@.take(k)).1,
                ).len() > 0) ==> {
                &&& r@.len() == refill_count(old(self)@.queue.len())
                &&& r@.no_duplicates()
                &&& forall|i: int| 0 <= i < r@.len() ==> old(self)@.shuffle.pool.contains(#[trigger] r@[i])
                    && !old(self)@.shuffle.played.contains(r@[i])
            },
    {
        let mut ids: Vec<u64> = Vec::new();
        if !self.shuffle.is_active() {
            return ids;
        }
        let needed = 2usize.saturating_sub(self.queue.len());
        let ghost m0 = old(self)@.shuffle;
        let mut k: usize = 0;
        while k < needed
            invariant
                k <= needed,
                needed == refill_count(old(self)@.queue.len()),
                needed <= 2,
                draws@.len() >= 2,
                m0 == old(self)@.shuffle,
                self@.queue == old(self)@.queue,
                self@.current == old(self)@.current,
                self@.status == old(self)@.status,
                self@.history == old(self)@.history,
                self@.listen_started_at == old(self)@.listen_started_at,
                self@.shuffle.pool == m0.pool,
                self@.shuffle.active == m0.active,
                (ids@, self@.shuffle.played) == picks_spec(m0, draws@.take(k as int)),
            decreases needed - k,
        {
            let ghost before = self@.shuffle;
            proof {
                assert(draws@.take(k as int + 1).drop_last() == draws@.take(k as int));
                assert(before == (ShuffleModel { played: before.played, ..m0 }));
            }
            if let Some(id) = self.shuffle_pick(draws[k]) {
                ids.push(id);
            }
            k = k + 1;
        }
        proof {
            let n = refill_count(old(self)@.queue.len());
            let d = draws@.take(n);
            if forall|k: int| 0 <= k < n ==> #[trigger] unplayed(m0.pool, picks_spec(m0, draws@.take(k)).1).len() > 0 {
                assert forall|j: int| 0 <= j < d.len() implies #[trigger] unplayed(
                    m0.pool,
                    picks_spec(m0, d.take(j)).1,
                ).len() > 0 by {
                    assert(d.take(j) == draws@.take(j));
                }
                law_picks_do_not_repeat(m0, d);
            }
        }
        ids
    }
}

/// How many picks refill a queue of `len` tracks to two upcoming.
pub open spec fn refill_count(len: nat) -> int {
    if len >= 2 {
        0
    } else {
        2 - len
    }
}

/// Whether `id` occurs in `ids`.
pub fn contains_id(ids: &Vec<u64>, id: u64) -> (r: bool)
    ensures
        r == ids@.contains(id),
{
    let mut i: usize = 0;
    while i < ids.len()
        invariant
            i <= ids.len(),
            forall|j: int| 0 <= j < i ==> ids@[j] != id,
        decreases ids.len() - i,
    {
        if ids[i] == id {
            return true;
        }
        i = i + 1;
    }
    false
}

/// Filtering a prefix gives a prefix of the filtered sequence.
pub proof fn lemma_filter_prefix<A>(s: Seq<A>, pred: spec_fn(A) -> bool, i: int)
    requires
        0 <= i <= s.len(),
    ensures
        s.take(i).filter(pred).len() <= s.filter(pred).len(),
        s.filter(pred).take(s.take(i).filter(pred).len() as int) == s.take(i).filter(pred),
    decreases s.len() - i,
{
    if i < s.len() {
        lemma_filter_prefix(s, pred, i + 1);
        reveal_with_fuel(Seq::filter, 1);
        assert(s.take(i + 1).drop_last() == s.take(i));
        let a = s.take(i).filter(pred);
        let b = s.take(i + 1).filter(pred);
        let f = s.filter(pred);
        assert(b.take(a.len() as int) == a);
        assert(f.take(a.len() as int) == f.take(b.len() as int).take(a.len() as int));
    } else {
        assert(s.take(i) == s);
    }
}


/// The tracks a returned "next" or "previous" track stands for.
pub open spec fn opt_tracks(t: Option<QueuedTrack>) -> Multiset<QueuedTrack> {
    match t {
        Some(x) => Multiset::empty().insert(x),
        None => Multiset::empty(),
    }
}

/// Previous undoes next: skipping forward to the head of a non-empty queue and
/// then going back restores the queue, the history and the current track.
pub proof fn law_previous_undoes_next(m: PlaybackModel, ts1: String, ts2: String)
    requires
        m.current is Some,
        m.queue.len() > 0,
    ensures
        ({
            let (m1, n) = advance_spec(m);
            let m2 = begin_spec(m1, n->0, ts1);
            let (m3, p) = step_back_spec(m2);
            let m4 = begin_spec(m3, p->0, ts2);
            &&& n is Some
            &&& p == m.current
            &&& m4.queue == m.queue
            &&& m4.history == m.history
            &&& m4.current == m.current
        }),
{
    let (m1, n) = advance_spec(m);
    let m2 = begin_spec(m1, n->0, ts1);
    let (m3, p) = step_back_spec(m2);
    assert(m3.queue == seq![m.queue[0]] + m.queue.drop_first());
    assert(m3.queue =~= m.queue);
    assert(m3.history =~= m.history);
}

/// Moving the current track into the history keeps every track.
pub proof fn law_retire_keeps_tracks(m: PlaybackModel)
    ensures
        all_tracks(retire_spec(m)) == all_tracks(m),
{
    broadcast use vstd::seq_lib::group_to_multiset_ensures, vstd::multiset::group_multiset_axioms;
    let r = retire_spec(m);
    match m.current {
        Some(c) => {
            assert(r.history.to_multiset() =~= m.history.to_multiset().insert(c));
            assert(all_tracks(r) =~= all_tracks(m));
        },
        None => {},
    }
}

/// Skipping forward loses no track: what the engine holds afterwards plus the
/// track handed out to play is what it held before.
pub proof fn law_advance_keeps_tracks(m: PlaybackModel)
    ensures
        all_tracks(advance_spec(m).0).add(opt_tracks(advance_spec(m).1)) == all_tracks(m),
{
    broadcast use vstd::seq_lib::group_to_multiset_ensures, vstd::multiset::group_multiset_axioms;
    law_retire_keeps_tracks(m);
    let r = retire_spec(m);
    if r.queue.len() > 0 {
        assert(r.queue =~= seq![r.queue[0]] + r.queue.drop_first());
        vstd::seq_lib::lemma_multiset_commutative(seq![r.queue[0]], r.queue.drop_first());
        assert(seq![r.queue[0]] =~= Seq::<QueuedTrack>::empty().push(r.queue[0]));
        assert(seq![r.queue[0]].to_multiset() =~= Multiset::empty().insert(r.queue[0]));
        assert(all_tracks(advance_spec(m).0).add(opt_tracks(advance_spec(m).1)) =~= all_tracks(r));
    } else {
        assert(all_tracks(advance_spec(m).0).add(opt_tracks(advance_spec(m).1)) =~= all_tracks(r));
    }
}

/// Skipping back loses no track either.
pub proof fn law_step_back_keeps_tracks(m: PlaybackModel)
    ensures
        all_tracks(step_back_spec(m).0).add(opt_tracks(step_back_spec(m).1)) == all_tracks(m),
{
    broadcast use vstd::seq_lib::group_to_multiset_ensures, vstd::multiset::group_multiset_axioms;
    let (m1, p) = step_back_spec(m);
    match m.current {
        Some(c) => {
            vstd::seq_lib::lemma_multiset_commutative(seq![c], m.queue);
            assert(seq![c] =~= Seq::<QueuedTrack>::empty().push(c));
            assert(m1.queue.to_multiset() =~= m.queue.to_multiset().insert(c));
        },
        None => {},
    }
    if m.history.len() > 0 {
        assert(m.history =~= m.history.drop_last().push(m.history.last()));
        assert(m.history.to_multiset() =~= m.history.drop_last().to_multiset().insert(
            m.history.last(),
        ));
    }
    assert(all_tracks(m1).add(opt_tracks(p)) =~= all_tracks(m));
}

/// Stopping keeps every track.
pub proof fn law_stop_keeps_tracks(m: PlaybackModel)
    ensures
        all_tracks(stop_spec(m)) == all_tracks(m),
{
    law_retire_keeps_tracks(m);
    assert(all_tracks(stop_spec(m)) =~= all_tracks(retire_spec(m)));
}

/// Reordering the queue only moves one track: the queue keeps its tracks and
/// the moved track lands at its destination.
pub proof fn law_reorder_moves_one_track(q: Seq<QueuedTrack>, from: int, to: int)
    requires
        0 <= from < q.len(),
        0 <= to < q.len(),
    ensures
        reorder_spec(q, from, to).len() == q.len(),
        reorder_spec(q, from, to)[to] == q[from],
        reorder_spec(q, from, to).to_multiset() == q.to_multiset(),
{
    broadcast use vstd::seq_lib::group_to_multiset_ensures, vstd::multiset::group_multiset_axioms;
    let r = q.remove(from);
    vstd::seq_lib::to_multiset_remove(q, from);
    vstd::seq_lib::to_multiset_insert(r, to, q[from]);
    assert(q.to_multiset().remove(q[from]).insert(q[from]) =~= q.to_multiset());
}

/// Pause then resume brings a playing player back to exactly where it was,
/// and pausing twice is pausing once.
pub proof fn law_pause_resume(m: PlaybackModel)
    ensures
        m.status == PlayStatus::Playing ==> resume_spec(pause_spec(m)) == m,
        pause_spec(pause_spec(m)) == pause_spec(m),
        resume_spec(resume_spec(m)) == resume_spec(m),
{
}

/// "Play next": a track added to the front of the queue of a player that is
/// not idle or stopped is the very next track that skipping forward starts.
pub proof fn law_enqueue_front_plays_next(m: PlaybackModel, t: QueuedTrack)
    requires
        !starts_directly(m),
    ensures
        advance_spec(enqueue_front_spec(m, t).0).1 == Some(t),
{
}

/// Queueing on a busy player appends at the back, and the track plays after
/// every track already queued.
pub proof fn law_enqueue_back_plays_last(m: PlaybackModel, t: QueuedTrack)
    requires
        !starts_directly(m),
    ensures
        enqueue_back_spec(m, t).0.queue == m.queue.push(t),
        enqueue_back_spec(m, t).1 is None,
{
}

/// An idle or stopped player never queues a single track: it hands the track
/// back to be started and keeps its queue.
pub proof fn law_idle_starts_directly(m: PlaybackModel, t: QueuedTrack)
    requires
        starts_directly(m),
    ensures
        enqueue_back_spec(m, t) == (m, Some(t)),
        enqueue_front_spec(m, t) == (m, Some(t)),
{
}

/// Moving a track and moving it back restores the order.
pub proof fn law_reorder_back_restores(q: Seq<QueuedTrack>, from: int, to: int)
    requires
        0 <= from < q.len(),
        0 <= to < q.len(),
    ensures
        reorder_spec(reorder_spec(q, from, to), to, from) == q,
{
    let x = q[from];
    let r = reorder_spec(q, from, to);
    assert(r[to] == x);
    assert(r.remove(to) =~= q.remove(from));
    assert(q.remove(from).insert(from, x) =~= q);
}

/// Add tracks one at a time at the back of the queue, starting (at time
/// `at`) each track that the player hands back for an immediate start.
pub open spec fn add_each(m: PlaybackModel, ts: Seq<QueuedTrack>, at: String) -> PlaybackModel
    decreases ts.len(),
{
    if ts.len() == 0 {
        m
    } else {
        let (m1, started) = enqueue_back_spec(add_each(m, ts.drop_last(), at), ts.last());
        match started {
            Some(t) => begin_spec(m1, t, at),
            None => m1,
        }
    }
}

/// Playing a playlist replays it in order: a stopped (or idle) player with an
/// empty queue that is handed the tracks one at a time plays the first and
/// queues the others in their order.
pub proof fn law_playlist_replays_in_order(m: PlaybackModel, ts: Seq<QueuedTrack>, at: String)
    requires
        starts_directly(m),
        m.queue.len() == 0,
        ts.len() > 0,
    ensures
        add_each(m, ts, at).current == Some(ts[0]),
        add_each(m, ts, at).queue == ts.drop_first(),
        add_each(m, ts, at).status == PlayStatus::Buffering,
        add_each(m, ts, at).history == m.history,
    decreases ts.len(),
{
    if ts.len() == 1 {
        assert(ts.drop_last().len() == 0);
        assert(add_each(m, ts.drop_last(), at) == m);
        assert(ts.drop_first() =~= Seq::<QueuedTrack>::empty());
    } else {
        let prev = ts.drop_last();
        law_playlist_replays_in_order(m, prev, at);
        assert(prev[0] == ts[0]);
        assert(prev.drop_first().push(ts.last()) =~= ts.drop_first());
    }
}

/// The finished listen a drain step reports, if any.
pub open spec fn drain_finished(step: DrainStep) -> Option<FinishedListen> {
    match step {
        DrainStep::Keep => None,
        DrainStep::Advance { finished, .. } => finished,
        DrainStep::Halt { finished } => finished,
    }
}

/// The statistics after the finished listen of a drain step, if any, has been
/// recorded as complete.
pub open spec fn drain_recorded(stats: StatsModel, step: DrainStep) -> StatsModel {
    match drain_finished(step) {
        Some(f) => end_spec(stats, f.track_id, f.started_at, f.listened_ms, ListenOutcome::Complete),
        None => stats,
    }
}

/// Automatic advance: when the playing track `c` runs out of audio, it moves
/// onto the end of the history, its whole duration is recorded as a complete
/// listen, and the head of the queue is started; with an empty queue the
/// player goes idle with nothing current.
pub proof fn law_auto_advance(m: PlaybackModel, stats: StatsModel, c: QueuedTrack, started: String, now: String)
    requires
        m.status == PlayStatus::Playing,
        m.current == Some(c),
        m.listen_started_at == Some(started),
    ensures
        ({
            let (m1, step) = drain_spec(m);
            let s1 = drain_recorded(stats, step);
            &&& m1.history == m.history.push(c)
            &&& m1.listen_started_at is None
            &&& s1.log == stats.log.push(
                ListenEvent {
                    track_id: c.id,
                    started_at: started,
                    duration_listened_ms: secs_to_ms(c.duration_secs),
                    outcome: ListenOutcome::Complete,
                },
            )
            &&& stats.stats.contains_key(c.id) ==> s1.stats.contains_key(c.id)
                && s1.stats[c.id].total_listen_ms == add_sat(stats.stats[c.id].total_listen_ms, secs_to_ms(c.duration_secs))
                && s1.stats[c.id].skip_count == stats.stats[c.id].skip_count
                && (stats.stats[c.id].complete_count < u32::MAX
                    ==> s1.stats[c.id].complete_count == stats.stats[c.id].complete_count + 1)
            &&& m.queue.len() == 0 ==> step is Halt && m1.status == PlayStatus::Idle && m1.current is None
                && m1.queue == m.queue
            &&& m.queue.len() > 0 ==> step == (DrainStep::Advance {
                finished: drain_finished(step),
                next: m.queue[0],
            }) && ({
                let m2 = begin_spec(m1, m.queue[0], now);
                &&& m2.current == Some(m.queue[0])
                &&& m2.queue == m.queue.drop_first()
                &&& m2.history == m.history.push(c)
                &&& m2.status == PlayStatus::Buffering
                &&& m2.listen_started_at == Some(now)
            })
        }),
{
}

/// Queueing several tracks loses none and keeps what was queued: the tracks
/// already queued stay at the front in their order, the new ones follow in
/// theirs, and only the first of them is handed back to start, exactly when
/// the player is idle or stopped. Nothing else changes.
pub proof fn law_enqueue_all_keeps_queue(m: PlaybackModel, ts: Seq<QueuedTrack>)
    requires
        ts.len() > 0,
    ensures
        ({
            let (m2, started) = enqueue_all_spec(m, ts);
            &&& m2.queue.take(m.queue.len() as int) == m.queue
            &&& m2.queue.to_multiset().add(opt_tracks(started)) == m.queue.to_multiset().add(ts.to_multiset())
            &&& (started is Some <==> starts_directly(m))
            &&& (started matches Some(t) ==> t == ts[0] && m2.queue.skip(m.queue.len() as int) == ts.drop_first())
            &&& (started is None ==> m2.queue.skip(m.queue.len() as int) == ts)
            &&& m2.current == m.current
            &&& m2.status == m.status
            &&& m2.history == m.history
            &&& m2.listen_started_at == m.listen_started_at
            &&& m2.shuffle == m.shuffle
        }),
{
    broadcast use vstd::seq_lib::group_to_multiset_ensures, vstd::multiset::group_multiset_axioms;
    let (m2, started) = enqueue_all_spec(m, ts);
    assert(ts =~= seq![ts[0]] + ts.drop_first());
    vstd::seq_lib::lemma_multiset_commutative(seq![ts[0]], ts.drop_first());
    assert(seq![ts[0]] =~= Seq::<QueuedTrack>::empty().push(ts[0]));
    assert(seq![ts[0]].to_multiset() =~= Multiset::empty().insert(ts[0]));
    if starts_directly(m) {
        vstd::seq_lib::lemma_multiset_commutative(m.queue, ts.drop_first());
        assert(m2.queue.take(m.queue.len() as int) =~= m.queue);
        assert(m2.queue.skip(m.queue.len() as int) =~= ts.drop_first());
        assert(m2.queue.to_multiset().add(opt_tracks(started)) =~= m.queue.to_multiset().add(ts.to_multiset()));
    } else {
        vstd::seq_lib::lemma_multiset_commutative(m.queue, ts);
        assert(m2.queue.take(m.queue.len() as int) =~= m.queue);
        assert(m2.queue.skip(m.queue.len() as int) =~= ts);
        assert(m2.queue.to_multiset().add(opt_tracks(started)) =~= m.queue.to_multiset().add(ts.to_multiset()));
    }
}

/// Resuming acts on a paused player only: it then plays on with the same
/// track and queue; in every other status (playing, buffering, stopped, idle,
/// failed) the whole state is left as it is, so a stopped or idle player
/// still starts the next track added directly.
pub proof fn law_resume_only_when_paused(m: PlaybackModel)
    ensures
        m.status != PlayStatus::Paused ==> resume_spec(m) == m,
        m.status != PlayStatus::Paused ==> starts_directly(resume_spec(m)) == starts_directly(m),
        m.status == PlayStatus::Paused ==> {
            &&& resume_spec(m).status == PlayStatus::Playing
            &&& resume_spec(m).current == m.current
            &&& resume_spec(m).queue == m.queue
            &&& resume_spec(m).history == m.history
        },
{
}

} // verus!
