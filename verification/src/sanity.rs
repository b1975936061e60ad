//! Diagnostic checks of the catalog API: what each check reports, given how
//! long its request took and what came back.
use vstd::prelude::*;

use crate::text::{append_str, decimal, push_decimal};
use crate::types::MonoEvent;

verus! {

/// Known track ID for sanity checks (Radiohead — Karma Police)
pub const SANITY_TRACK_ID: u64 = 58990516;

/// `e` is the result of check `check`.
pub open spec fn is_sanity(e: MonoEvent, check: Seq<char>, passed: bool, duration_ms: u64, message: Seq<char>) -> bool {
    match e {
        MonoEvent::SanityResult { check: c, passed: p, duration_ms: d, message: m } => {
            &&& c@ == check
            &&& p == passed
            &&& d == duration_ms
            &&& m@ == message
        },
        _ => false,
    }
}

/// A passed check.
pub fn sanity_ok(check: &str, duration_ms: u64, message: String) -> (r: MonoEvent)
    ensures
        is_sanity(r, check@, true, duration_ms, message@),
{
    MonoEvent::SanityResult { check: check.to_owned(), passed: true, duration_ms, message }
}

/// A failed check.
pub fn sanity_fail(check: &str, duration_ms: u64, message: String) -> (r: MonoEvent)
    ensures
        is_sanity(r, check@, false, duration_ms, message@),
{
    MonoEvent::SanityResult { check: check.to_owned(), passed: false, duration_ms, message }
}

/// The ping check: passed with `HTTP {status} from {base_url}` when the API
/// answered, failed with `connection failed: {error}` otherwise.
pub fn ping_result(duration_ms: u64, outcome: Result<(String, String), String>) -> (r: MonoEvent)
    ensures
        match outcome {
            Ok((status, base_url)) => is_sanity(r, "ping"@, true, duration_ms, "HTTP "@ + status@ + " from "@ + base_url@),
            Err(e) => is_sanity(r, "ping"@, false, duration_ms, "connection failed: "@ + e@),
        },
{
    match outcome {
        Ok((status, base_url)) => {
            let mut m = "HTTP ".to_owned();
            append_str(&mut m, status.as_str());
            append_str(&mut m, " from ");
            append_str(&mut m, base_url.as_str());
            sanity_ok("ping", duration_ms, m)
        },
        Err(e) => {
            let mut m = "connection failed: ".to_owned();
            append_str(&mut m, e.as_str());
            sanity_fail("ping", duration_ms, m)
        },
    }
}

/// The track check: passed with `{artist} — {title}` for track metadata
/// (`got response` for any other answer), failed with the error otherwise.
pub fn track_result(duration_ms: u64, outcome: Result<MonoEvent, String>) -> (r: MonoEvent)
    ensures
        match outcome {
            Ok(MonoEvent::Track { title, artist, .. }) => is_sanity(
                r,
                "track"@,
                true,
                duration_ms,
                artist@ + " \u{2014} "@ + title@,
            ),
            Ok(_) => is_sanity(r, "track"@, true, duration_ms, "got response"@),
            Err(e) => is_sanity(r, "track"@, false, duration_ms, e@),
        },
{
    match outcome {
        Ok(MonoEvent::Track { title, artist, .. }) => {
            let mut m = artist;
            append_str(&mut m, " \u{2014} ");
            append_str(&mut m, title.as_str());
            sanity_ok("track", duration_ms, m)
        },
        Ok(_) => sanity_ok("track", duration_ms, "got response".to_owned()),
        Err(e) => sanity_fail("track", duration_ms, e),
    }
}

/// The search check: passed with `{n} result(s)`, failed with the error otherwise.
pub fn search_result(duration_ms: u64, outcome: Result<usize, String>) -> (r: MonoEvent)
    ensures
        match outcome {
            Ok(n) => is_sanity(r, "search"@, true, duration_ms, decimal(n as nat) + " result(s)"@),
            Err(e) => is_sanity(r, "search"@, false, duration_ms, e@),
        },
{
    match outcome {
        Ok(n) => {
            let mut m = String::new();
            push_decimal(&mut m, n as u64);
            append_str(&mut m, " result(s)");
            assert(Seq::<char>::empty() + decimal(n as nat) == decimal(n as nat));
            sanity_ok("search", duration_ms, m)
        },
        Err(e) => sanity_fail("search", duration_ms, e),
    }
}

/// The stream check: passed with `resolved {quality} manifest` for a stream
/// manifest (`got manifest` for any other answer), failed with the error otherwise.
pub fn stream_result(duration_ms: u64, outcome: Result<MonoEvent, String>) -> (r: MonoEvent)
    ensures
        match outcome {
            Ok(MonoEvent::StreamManifest { quality, .. }) => is_sanity(
                r,
                "stream"@,
                true,
                duration_ms,
                "resolved "@ + quality@ + " manifest"@,
            ),
            Ok(_) => is_sanity(r, "stream"@, true, duration_ms, "got manifest"@),
            Err(e) => is_sanity(r, "stream"@, false, duration_ms, e@),
        },
{
    match outcome {
        Ok(MonoEvent::StreamManifest { quality, .. }) => {
            let mut m = "resolved ".to_owned();
            append_str(&mut m, quality.as_str());
            append_str(&mut m, " manifest");
            sanity_ok("stream", duration_ms, m)
        },
        Ok(_) => sanity_ok("stream", duration_ms, "got manifest".to_owned()),
        Err(e) => sanity_fail("stream", duration_ms, e),
    }
}

/// The cover check: passed with `{n} size(s) returned`, failed with the error otherwise.
pub fn cover_result(duration_ms: u64, outcome: Result<usize, String>) -> (r: MonoEvent)
    ensures
        match outcome {
            Ok(n) => is_sanity(r, "cover"@, true, duration_ms, decimal(n as nat) + " size(s) returned"@),
            Err(e) => is_sanity(r, "cover"@, false, duration_ms, e@),
        },
{
    match outcome {
        Ok(n) => {
            let mut m = String::new();
            push_decimal(&mut m, n as u64);
            append_str(&mut m, " size(s) returned");
            assert(Seq::<char>::empty() + decimal(n as nat) == decimal(n as nat));
            sanity_ok("cover", duration_ms, m)
        },
        Err(e) => sanity_fail("cover", duration_ms, e),
    }
}

} // verus!
