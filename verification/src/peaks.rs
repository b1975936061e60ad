//! Audio level bookkeeping: the rolling history of peak levels shown as a
//! waveform, and the size of the window a peak is taken over.
use vstd::prelude::*;

verus! {

/// The abstract state of a peak history.
pub struct PeakModel<T> {
    pub buffer: Seq<T>,
    pub capacity: nat,
    pub track_id: Option<u64>,
}

/// The history after recording `peak` for `track_id`: a change of track
/// starts a fresh history; when full, the oldest value is dropped first.
pub open spec fn push_spec<T>(m: PeakModel<T>, peak: T, track_id: Option<u64>) -> PeakModel<T> {
    let b = if track_id != m.track_id { Seq::<T>::empty() } else { m.buffer };
    let b = if b.len() >= m.capacity { b.drop_first() } else { b };
    PeakModel { buffer: b.push(peak), capacity: m.capacity, track_id }
}

/// Circular buffer of recent audio peak values for waveform history.
pub struct PeakHistory<T> {
    buffer: Vec<T>,
    capacity: usize,
    track_id: Option<u64>,
}

impl<T: Copy> PeakHistory<T> {
    /// The values (oldest first), the capacity and the track they belong to.
    pub closed spec fn view(&self) -> PeakModel<T> {
        PeakModel { buffer: self.buffer@, capacity: self.capacity as nat, track_id: self.track_id }
    }

    /// The history never holds more than its capacity, which is positive.
    pub closed spec fn wf(&self) -> bool {
        0 < self.capacity && self.buffer@.len() <= self.capacity
    }

    /// An empty history holding at most `capacity` values.
    pub fn new(capacity: usize) -> (r: Self)
        requires
            capacity > 0,
        ensures
            r.wf(),
            r.view() == (PeakModel::<T> { buffer: Seq::empty(), capacity: capacity as nat, track_id: None }),
    {
        PeakHistory { buffer: Vec::new(), capacity, track_id: None }
    }

    /// Record a peak value for the track playing now (see `push_spec`).
    pub fn push(&mut self, peak: T, track_id: Option<u64>)
        requires
            old(self).wf(),
        ensures
            final(self).wf(),
            final(self).view() == push_spec(old(self).view(), peak, track_id),
    {
        if track_id != self.track_id {
            self.buffer.clear();
            self.track_id = track_id;
        }
        if self.buffer.len() >= self.capacity {
            self.buffer.remove(0);
            assert(old(self).buffer@.len() > 0 || track_id != old(self).track_id);
        }
        self.buffer.push(peak);
    }

    /// The track the history belongs to and a copy of its values, oldest first.
    pub fn snapshot(&self) -> (r: (Option<u64>, Vec<T>))
        ensures
            r.0 == self.view().track_id,
            r.1@ == self.view().buffer,
    {
        let mut out: Vec<T> = Vec::new();
        let mut i: usize = 0;
        while i < self.buffer.len()
            invariant
                i <= self.buffer@.len(),
                out@ == self.buffer@.take(i as int),
            decreases self.buffer@.len() - i,
        {
            out.push(self.buffer[i]);
            proof {
                assert(self.buffer@.take(i as int + 1) == self.buffer@.take(i as int).push(self.buffer@[i as int]));
            }
            i = i + 1;
        }
        assert(self.buffer@.take(i as int) == self.buffer@);
        (self.track_id, out)
    }
}

/// The history keeps the most recent values: after a push it ends with the
/// pushed value, never exceeds its capacity, and keeps the previous values of
/// the same track in order (dropping the oldest when full).
pub proof fn law_peak_history_keeps_latest<T>(m: PeakModel<T>, peak: T, track_id: Option<u64>)
    requires
        m.capacity > 0,
        m.buffer.len() <= m.capacity,
    ensures
        push_spec(m, peak, track_id).buffer.len() <= m.capacity,
        push_spec(m, peak, track_id).buffer.last() == peak,
        track_id == m.track_id && m.buffer.len() < m.capacity ==> push_spec(m, peak, track_id).buffer
            == m.buffer.push(peak),
        track_id == m.track_id && m.buffer.len() == m.capacity ==> push_spec(m, peak, track_id).buffer
            == m.buffer.drop_first().push(peak),
        track_id != m.track_id ==> push_spec(m, peak, track_id).buffer == seq![peak],
{
    if track_id != m.track_id {
        assert(Seq::<T>::empty().push(peak) == seq![peak]);
    }
}

/// Samples per peak window: about 33 ms of audio (`rate × channels / 30`), at least one.
pub fn level_window_size(sample_rate: u32, channels: u16) -> (r: usize)
    requires
        (sample_rate as int * channels as int) / 30 <= usize::MAX,
    ensures
        r == (if (sample_rate as int * channels as int) / 30 >= 1 {
            (sample_rate as int * channels as int) / 30
        } else {
            1
        }),
{
    assert((sample_rate as u64) * (channels as u64) <= 0xffff_ffff_ffff) by (nonlinear_arith)
        requires
            sample_rate <= 0xffff_ffff,
            channels <= 0xffff,
    ;
    let total: u64 = (sample_rate as u64) * (channels as u64);
    let w = total / 30;
    if w >= 1 {
        w as usize
    } else {
        1
    }
}

} // verus!
