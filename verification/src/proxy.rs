//! The audio proxy's failure answers: which HTTP status and body each way of
//! failing to fetch a track's audio is answered with.
use vstd::prelude::*;

use crate::text::append_str;

verus! {

/// Why the audio of a track could not be proxied.
pub enum ProxyFailure {
    /// The provider could not resolve the stream manifest.
    ManifestError { message: String },
    /// Resolving the stream manifest took too long.
    ManifestTimeout,
    /// The provider answered with something other than a stream manifest.
    UnexpectedManifest,
    /// The CDN answered with a non-success status (its text, e.g. `404 Not Found`).
    CdnStatus { status: String },
    /// The CDN request failed.
    CdnFetch { error: String },
    /// The CDN request took too long.
    CdnTimeout,
    /// Reading the CDN response body failed.
    CdnRead { error: String },
}

/// The HTTP status a failure is answered with: 504 for a timeout, 500 for an
/// unexpected manifest, 502 for any other failure upstream.
pub open spec fn failure_status(f: ProxyFailure) -> u16 {
    match f {
        ProxyFailure::ManifestTimeout => 504,
        ProxyFailure::CdnTimeout => 504,
        ProxyFailure::UnexpectedManifest => 500,
        _ => 502,
    }
}

/// The response body a failure is answered with.
pub open spec fn failure_body(f: ProxyFailure) -> Seq<char> {
    match f {
        ProxyFailure::ManifestError { message } => message@,
        ProxyFailure::ManifestTimeout => "manifest timed out"@,
        ProxyFailure::UnexpectedManifest => "unexpected manifest type"@,
        ProxyFailure::CdnStatus { status } => "CDN returned "@ + status@,
        ProxyFailure::CdnFetch { error } => "CDN fetch failed: "@ + error@,
        ProxyFailure::CdnTimeout => "CDN fetch timed out"@,
        ProxyFailure::CdnRead { error } => "CDN read failed: "@ + error@,
    }
}

impl ProxyFailure {
    /// The HTTP status code (see `failure_status`).
    pub fn status_code(&self) -> (r: u16)
        ensures
            r == failure_status(*self),
    {
        match self {
            ProxyFailure::ManifestTimeout => 504,
            ProxyFailure::CdnTimeout => 504,
            ProxyFailure::UnexpectedManifest => 500,
            _ => 502,
        }
    }

    /// The response body (see `failure_body`).
    pub fn body(&self) -> (r: String)
        ensures
            r@ == failure_body(*self),
    {
        match self {
            ProxyFailure::ManifestError { message } => message.clone(),
            ProxyFailure::ManifestTimeout => "manifest timed out".to_owned(),
            ProxyFailure::UnexpectedManifest => "unexpected manifest type".to_owned(),
            ProxyFailure::CdnStatus { status } => {
                let mut s = "CDN returned ".to_owned();
                append_str(&mut s, status.as_str());
                s
            },
            ProxyFailure::CdnFetch { error } => {
                let mut s = "CDN fetch failed: ".to_owned();
                append_str(&mut s, error.as_str());
                s
            },
            ProxyFailure::CdnTimeout => "CDN fetch timed out".to_owned(),
            ProxyFailure::CdnRead { error } => {
                let mut s = "CDN read failed: ".to_owned();
                append_str(&mut s, error.as_str());
                s
            },
        }
    }
}

} // verus!
