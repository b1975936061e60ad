//! Download progress reporting: a report at the start, then one whenever at
//! least 256 KiB arrived since the last report.
use vstd::prelude::*;

verus! {

/// Bytes between two progress reports.
pub const CHUNK_REPORT: u64 = 262144;

/// Running totals of a download.
pub struct ProgressCounter {
    /// Bytes received so far.
    pub bytes_downloaded: u64,
    /// Bytes received since the last report.
    pub since_last_report: u64,
}

impl ProgressCounter {
    /// Nothing received yet.
    pub fn new() -> (r: Self)
        ensures
            r.bytes_downloaded == 0,
            r.since_last_report == 0,
    {
        ProgressCounter { bytes_downloaded: 0, since_last_report: 0 }
    }

    /// A chunk of `len` bytes arrived; returns whether to report progress now
    /// (at least 256 KiB since the last report, which then starts over).
    pub fn on_chunk(&mut self, len: u64) -> (report: bool)
        requires
            old(self).bytes_downloaded + len <= u64::MAX,
            old(self).since_last_report + len <= u64::MAX,
        ensures
            (*final(self), report) == chunk_spec(*old(self), len),
    {
        self.bytes_downloaded = self.bytes_downloaded + len;
        self.since_last_report = self.since_last_report + len;
        if self.since_last_report >= CHUNK_REPORT {
            self.since_last_report = 0;
            true
        } else {
            false
        }
    }
}

/// The counter after a chunk of `len` bytes, and whether progress is reported.
pub open spec fn chunk_spec(c: ProgressCounter, len: u64) -> (ProgressCounter, bool) {
    let since = c.since_last_report + len;
    let report = since >= CHUNK_REPORT;
    (
        ProgressCounter {
            bytes_downloaded: (c.bytes_downloaded + len) as u64,
            since_last_report: if report { 0 } else { since as u64 },
        },
        report,
    )
}

/// At most 256 KiB ever go unreported: a counter that starts below the
/// reporting step stays below it after any chunk, and every byte is counted.
pub proof fn law_progress_reports_every_step(c: ProgressCounter, len: u64)
    requires
        c.since_last_report < CHUNK_REPORT,
        c.bytes_downloaded + len <= u64::MAX,
    ensures
        chunk_spec(c, len).0.since_last_report < CHUNK_REPORT,
        chunk_spec(c, len).0.bytes_downloaded == c.bytes_downloaded + len,
        chunk_spec(c, len).1 <==> c.since_last_report + len >= CHUNK_REPORT,
{
}

} // verus!
