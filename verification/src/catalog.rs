//! Decoding of catalog API responses into events.
//!
//! The fields a response carries are handed over as plain values (`Raw*`
//! types, each field absent when the response lacks it or holds another JSON
//! type); these functions apply the catalog's rules: defaults, title
//! versions, result ranks, album positions, cover size selection and stream
//! manifest assembly.
use base64::Engine as _;
use vstd::prelude::*;
use vstd::string::StringSliceAdditionalSpecFns;

use crate::text::{append_str, decimal, push_char, push_decimal};
use crate::types::{copy_opt_string, MonoEvent, SearchKind};
use crate::urls::{mime_ext_spec, mime_to_ext};

verus! {

/// The declared error type of the `base64` crate.
#[verifier::external_type_specification]
#[verifier::external_body]
pub struct ExDecodeError(base64::DecodeError);

/// What standard base64 (RFC 4648 alphabet, with padding) decodes a byte
/// string to; none when the input is not valid base64.
pub uninterp spec fn base64_standard_decode(input: Seq<u8>) -> Option<Seq<u8>>;

/// `base64::engine::general_purpose::STANDARD.decode`: decoding succeeds
/// exactly when the input is valid, with the decoded bytes. Which error comes
/// back for invalid input is not stated.
#[verifier::external_body]
fn base64_decode(input: &str) -> (r: Result<Vec<u8>, base64::DecodeError>)
    ensures
        r is Ok <==> base64_standard_decode(input.spec_bytes()) is Some,
        r matches Ok(v) ==> v@ == base64_standard_decode(input.spec_bytes())->0,
{
    base64::engine::general_purpose::STANDARD.decode(input)
}

/// The `Display` text of a base64 decoding error.
#[verifier::external_body]
fn decode_error_text(e: &base64::DecodeError) -> String {
    format!("{e}")
}

/// The declared error type of `serde_json`.
#[verifier::external_type_specification]
#[verifier::external_body]
pub struct ExJsonError(serde_json::Error);

/// What a stream manifest JSON document gives: its `mimeType`, its `codecs`
/// and the first entry of its `urls` array, each when it is a string; none
/// when `serde_json` does not parse the bytes as one JSON value.
pub uninterp spec fn manifest_json_fields(bytes: Seq<u8>) -> Option<(Option<Seq<char>>, Option<Seq<char>>, Option<Seq<char>>)>;

/// The view of an optional string.
pub open spec fn opt_text(o: Option<String>) -> Option<Seq<char>> {
    match o {
        Some(s) => Some(s@),
        None => None,
    }
}

/// `serde_json::from_slice` into a `serde_json::Value`, then the three
/// manifest fields read by indexing (which gives `Null` for a missing key,
/// index or a value of another type) and `Value::as_str`: parsing succeeds
/// exactly when `serde_json` parses the bytes, with the fields they hold.
/// Which error comes back otherwise is not stated.
#[verifier::external_body]
fn parse_manifest_json(bytes: &Vec<u8>) -> (r: Result<(Option<String>, Option<String>, Option<String>), serde_json::Error>)
    ensures
        r is Ok <==> manifest_json_fields(bytes@) is Some,
        r matches Ok((m, c, u)) ==> manifest_json_fields(bytes@) == Some((opt_text(m), opt_text(c), opt_text(u))),
{
    let v: serde_json::Value = serde_json::from_slice(bytes.as_slice())?;
    Ok((
        v["mimeType"].as_str().map(str::to_owned),
        v["codecs"].as_str().map(str::to_owned),
        v["urls"][0].as_str().map(str::to_owned),
    ))
}

/// The `Display` text of a JSON parse error.
#[verifier::external_body]
fn json_error_text(e: &serde_json::Error) -> String {
    format!("{e}")
}

/// Why a catalog response could not be decoded.
#[derive(Debug)]
pub enum CatalogError {
    /// The track metadata had no ID.
    UnparsableTrack { id: u64 },
    /// `data.items` was not an array.
    MissingItems,
    /// `data.albums.items` was not an array.
    MissingAlbumItems,
    /// `data.artists.items` was not an array.
    MissingArtistItems,
    /// Neither synced nor plain lyrics were present.
    NoLyrics,
    /// `covers` was not an array.
    MissingCovers,
    /// `covers` was an empty array.
    EmptyCovers,
    /// No cover URL of the requested size.
    NoCoverForSize { size: u32, id: u64 },
    /// The stream response had no manifest.
    MissingManifest,
    /// The manifest was not valid base64.
    Base64(base64::DecodeError),
    /// The decoded manifest was not a JSON document.
    ManifestJson(serde_json::Error),
    /// The manifest listed no URL.
    NoUrls,
}

impl CatalogError {
    /// The human-readable error text.
    pub fn message(&self) -> (r: String)
        ensures
            match self {
                CatalogError::UnparsableTrack { id } => r@ == "could not parse track "@ + decimal(*id as nat),
                CatalogError::MissingItems => r@ == "missing data.items"@,
                CatalogError::MissingAlbumItems => r@ == "missing data.albums.items"@,
                CatalogError::MissingArtistItems => r@ == "missing data.artists.items"@,
                CatalogError::NoLyrics => r@ == "no lyrics found in response"@,
                CatalogError::MissingCovers => r@ == "missing covers array"@,
                CatalogError::EmptyCovers => r@ == "empty covers array"@,
                CatalogError::NoCoverForSize { size, id } => r@ == "no cover URL found for size "@
                    + decimal(*size as nat) + " (track "@ + decimal(*id as nat) + ")"@,
                CatalogError::MissingManifest => r@ == "missing manifest field"@,
                CatalogError::Base64(_) => "base64 decode failed: "@.is_prefix_of(r@),
                CatalogError::ManifestJson(_) => "manifest JSON parse failed: "@.is_prefix_of(r@),
                CatalogError::NoUrls => r@ == "no URLs in manifest"@,
            },
    {
        match self {
            CatalogError::UnparsableTrack { id } => {
                let mut s = "could not parse track ".to_owned();
                push_decimal(&mut s, *id);
                s
            },
            CatalogError::MissingItems => "missing data.items".to_owned(),
            CatalogError::MissingAlbumItems => "missing data.albums.items".to_owned(),
            CatalogError::MissingArtistItems => "missing data.artists.items".to_owned(),
            CatalogError::NoLyrics => "no lyrics found in response".to_owned(),
            CatalogError::MissingCovers => "missing covers array".to_owned(),
            CatalogError::EmptyCovers => "empty covers array".to_owned(),
            CatalogError::NoCoverForSize { size, id } => {
                let mut s = "no cover URL found for size ".to_owned();
                push_decimal(&mut s, *size as u64);
                append_str(&mut s, " (track ");
                push_decimal(&mut s, *id);
                append_str(&mut s, ")");
                s
            },
            CatalogError::MissingManifest => "missing manifest field".to_owned(),
            CatalogError::Base64(e) => {
                let mut s = "base64 decode failed: ".to_owned();
                let detail = decode_error_text(e);
                append_str(&mut s, detail.as_str());
                proof {
                    assert(s@.subrange(0, "base64 decode failed: "@.len() as int) == "base64 decode failed: "@);
                }
                s
            },
            CatalogError::ManifestJson(e) => {
                let mut s = "manifest JSON parse failed: ".to_owned();
                let detail = json_error_text(e);
                append_str(&mut s, detail.as_str());
                proof {
                    assert(s@.subrange(0, "manifest JSON parse failed: "@.len() as int)
                        == "manifest JSON parse failed: "@);
                }
                s
            },
            CatalogError::NoUrls => "no URLs in manifest".to_owned(),
        }
    }
}

/// The fields of a track object.
pub struct RawTrack {
    pub id: Option<u64>,
    pub title: Option<String>,
    pub version: Option<String>,
    pub artist_name: Option<String>,
    pub album_title: Option<String>,
    pub album_id: Option<u64>,
    pub duration: Option<u64>,
    pub track_number: Option<u64>,
    pub stream_start_date: Option<String>,
    pub release_date: Option<String>,
    pub audio_quality: Option<String>,
    pub album_cover: Option<String>,
}

/// A string field's text, empty when absent.
pub open spec fn text_or_empty(o: Option<String>) -> Seq<char> {
    match o {
        Some(s) => s@,
        None => Seq::empty(),
    }
}

/// The track title, followed by ` (version)` when a version is given.
pub open spec fn full_title(raw: RawTrack) -> Seq<char> {
    let t = text_or_empty(raw.title);
    let v = text_or_empty(raw.version);
    if v.len() == 0 {
        t
    } else {
        t + " ("@ + v + ")"@
    }
}

/// `e` is the track event of `raw`.
pub open spec fn is_track_of(e: MonoEvent, raw: RawTrack) -> bool {
    match e {
        MonoEvent::Track {
            id,
            title,
            artist,
            album,
            album_id,
            duration_secs,
            track_number,
            release_date,
            audio_quality,
            cover_id,
        } => {
            &&& raw.id == Some(id)
            &&& title@ == full_title(raw)
            &&& artist@ == text_or_empty(raw.artist_name)
            &&& album@ == text_or_empty(raw.album_title)
            &&& album_id == (match raw.album_id { Some(x) => x, None => 0 })
            &&& duration_secs == (match raw.duration { Some(x) => x, None => 0 })
            &&& track_number == (match raw.track_number { Some(n) => Some(n as u32), None => None })
            &&& release_date == (match raw.stream_start_date { Some(d) => Some(d), None => raw.release_date })
            &&& audio_quality == raw.audio_quality
            &&& cover_id == raw.album_cover
        },
        _ => false,
    }
}

/// A string field's text, empty when absent.
pub fn text_of(o: &Option<String>) -> (r: String)
    ensures
        r@ == text_or_empty(*o),
{
    match o {
        Some(s) => s.clone(),
        None => String::new(),
    }
}

/// The display title of a track (see `full_title`).
pub fn track_title(raw: &RawTrack) -> (r: String)
    ensures
        r@ == full_title(*raw),
{
    let mut t = text_of(&raw.title);
    let v = text_of(&raw.version);
    if v.as_str().is_empty() {
        t
    } else {
        append_str(&mut t, " (");
        append_str(&mut t, v.as_str());
        append_str(&mut t, ")");
        t
    }
}

/// Parse a track object: no event without an ID (garbage entries are skipped).
pub fn parse_track(raw: &RawTrack) -> (r: Option<MonoEvent>)
    ensures
        raw.id is None ==> r is None,
        raw.id is Some ==> (r matches Some(e) && is_track_of(e, *raw)),
{
    let id = match raw.id {
        Some(id) => id,
        None => {
            return None;
        },
    };
    let release_date = match &raw.stream_start_date {
        Some(d) => Some(d.clone()),
        None => copy_opt_string(&raw.release_date),
    };
    Some(
        MonoEvent::Track {
            id,
            title: track_title(raw),
            artist: text_of(&raw.artist_name),
            album: text_of(&raw.album_title),
            album_id: match raw.album_id {
                Some(x) => x,
                None => 0,
            },
            duration_secs: match raw.duration {
                Some(x) => x,
                None => 0,
            },
            track_number: match raw.track_number {
                Some(n) => Some(n as u32),
                None => None,
            },
            release_date,
            audio_quality: copy_opt_string(&raw.audio_quality),
            cover_id: copy_opt_string(&raw.album_cover),
        },
    )
}

/// The track info event of a metadata response; fails when the track has no ID.
pub fn track_info(requested_id: u64, raw: &RawTrack) -> (r: Result<MonoEvent, CatalogError>)
    ensures
        raw.id is None ==> (r matches Err(CatalogError::UnparsableTrack { id }) && id == requested_id),
        raw.id is Some ==> (r matches Ok(e) && is_track_of(e, *raw)),
{
    match parse_track(raw) {
        Some(e) => Ok(e),
        None => Err(CatalogError::UnparsableTrack { id: requested_id }),
    }
}

/// Indices below `n` of the items that have an ID, in order.
pub open spec fn kept(items: Seq<RawTrack>, n: int) -> Seq<int>
    decreases n,
{
    if n <= 0 {
        Seq::empty()
    } else if items[n - 1].id is Some {
        kept(items, n - 1).push(n - 1)
    } else {
        kept(items, n - 1)
    }
}

/// `e` is the album listing entry at 1-based `position` for `raw`.
pub open spec fn is_album_track_of(e: MonoEvent, position: u32, raw: RawTrack) -> bool {
    match e {
        MonoEvent::AlbumTrack { position: p, id, title, artist, duration_secs, audio_quality } => {
            &&& p == position
            &&& raw.id == Some(id)
            &&& title@ == full_title(raw)
            &&& artist@ == text_or_empty(raw.artist_name)
            &&& duration_secs == (match raw.duration { Some(x) => x, None => 0 })
            &&& audio_quality == raw.audio_quality
        },
        _ => false,
    }
}

/// `e` is the search hit of rank `rank` for track `raw`.
pub open spec fn is_search_track_of(e: MonoEvent, rank: u32, raw: RawTrack) -> bool {
    match e {
        MonoEvent::SearchTrack { rank: r, id, title, artist, album, duration_secs, audio_quality } => {
            &&& r == rank
            &&& raw.id == Some(id)
            &&& title@ == full_title(raw)
            &&& artist@ == text_or_empty(raw.artist_name)
            &&& album@ == text_or_empty(raw.album_title)
            &&& duration_secs == (match raw.duration { Some(x) => x, None => 0 })
            &&& audio_quality == raw.audio_quality
        },
        _ => false,
    }
}

/// `e` is the recommendation of rank `rank` for track `raw`.
pub open spec fn is_recommendation_of(e: MonoEvent, rank: u32, raw: RawTrack) -> bool {
    match e {
        MonoEvent::Recommendation { rank: r, id, title, artist, duration_secs } => {
            &&& r == rank
            &&& raw.id == Some(id)
            &&& title@ == full_title(raw)
            &&& artist@ == text_or_empty(raw.artist_name)
            &&& duration_secs == (match raw.duration { Some(x) => x, None => 0 })
        },
        _ => false,
    }
}

/// How a listing turns a track object at an index into an event.
#[derive(Clone, Copy, PartialEq, Eq, Structural)]
pub enum ListingKind {
    /// Album listing entries, numbered from 1.
    AlbumTracks,
    /// Track search hits, ranked from 0.
    SearchTracks,
    /// Recommendations, ranked from 0.
    Recommendations,
}

/// `e` is the listing event for the item at index `i`.
pub open spec fn is_listing_of(kind: ListingKind, e: MonoEvent, i: int, raw: RawTrack) -> bool {
    match kind {
        ListingKind::AlbumTracks => is_album_track_of(e, (i + 1) as u32, raw),
        ListingKind::SearchTracks => is_search_track_of(e, i as u32, raw),
        ListingKind::Recommendations => is_recommendation_of(e, i as u32, raw),
    }
}

/// The listing built from track objects: one event per object with an ID,
/// numbered by the object's index among all objects.
pub open spec fn is_listing(kind: ListingKind, r: Seq<MonoEvent>, items: Seq<RawTrack>) -> bool {
    &&& r.len() == kept(items, items.len() as int).len()
    &&& forall|k: int| 0 <= k < r.len() ==> is_listing_of(
        kind,
        #[trigger] r[k],
        kept(items, items.len() as int)[k],
        items[kept(items, items.len() as int)[k]],
    )
}

/// Build a listing from track objects (see `is_listing`).
pub fn listing(kind: ListingKind, items: &Vec<RawTrack>) -> (r: Vec<MonoEvent>)
    ensures
        is_listing(kind, r@, items@),
{
    let mut out: Vec<MonoEvent> = Vec::new();
    let mut i: usize = 0;
    while i < items.len()
        invariant
            i <= items@.len(),
            out@.len() == kept(items@, i as int).len(),
            forall|k: int| 0 <= k < out@.len() ==> is_listing_of(
                kind,
                #[trigger] out@[k],
                kept(items@, i as int)[k],
                items@[kept(items@, i as int)[k]],
            ),
        decreases items@.len() - i,
    {
        let raw = &items[i];
        match raw.id {
            Some(id) => {
                let title = track_title(raw);
                let artist = text_of(&raw.artist_name);
                let duration_secs = match raw.duration {
                    Some(x) => x,
                    None => 0,
                };
                let e = match kind {
                    ListingKind::AlbumTracks => MonoEvent::AlbumTrack {
                        position: (i + 1) as u32,
                        id,
                        title,
                        artist,
                        duration_secs,
                        audio_quality: copy_opt_string(&raw.audio_quality),
                    },
                    ListingKind::SearchTracks => MonoEvent::SearchTrack {
                        rank: i as u32,
                        id,
                        title,
                        artist,
                        album: text_of(&raw.album_title),
                        duration_secs,
                        audio_quality: copy_opt_string(&raw.audio_quality),
                    },
                    ListingKind::Recommendations => MonoEvent::Recommendation {
                        rank: i as u32,
                        id,
                        title,
                        artist,
                        duration_secs,
                    },
                };
                out.push(e);
            },
            None => {},
        }
        i = i + 1;
    }
    out
}

/// The fields of an album response.
pub struct RawAlbum {
    pub id: Option<u64>,
    pub title: Option<String>,
    pub artist_name: Option<String>,
    pub release_date: Option<String>,
    pub number_of_tracks: Option<u64>,
    pub duration: Option<u64>,
    pub cover: Option<String>,
    /// The track objects of the listing; absent when `items` is not an array.
    pub items: Option<Vec<RawTrack>>,
}

/// `e` is the album event of `raw`, with `requested_id` standing in for a missing ID.
pub open spec fn is_album_of(e: MonoEvent, requested_id: u64, raw: RawAlbum) -> bool {
    match e {
        MonoEvent::Album { id, title, artist, release_date, track_count, duration_secs, cover_id } => {
            &&& id == (match raw.id { Some(x) => x, None => requested_id })
            &&& title@ == text_or_empty(raw.title)
            &&& artist@ == text_or_empty(raw.artist_name)
            &&& release_date == raw.release_date
            &&& track_count == (match raw.number_of_tracks { Some(n) => n as u32, None => 0 })
            &&& duration_secs == raw.duration
            &&& cover_id == raw.cover
        },
        _ => false,
    }
}

/// An album response: the album event and its listing (empty when the
/// response has no items array).
pub fn album(requested_id: u64, raw: &RawAlbum) -> (r: (MonoEvent, Vec<MonoEvent>))
    ensures
        is_album_of(r.0, requested_id, *raw),
        match raw.items {
            Some(items) => is_listing(ListingKind::AlbumTracks, r.1@, items@),
            None => r.1@.len() == 0,
        },
{
    let album = MonoEvent::Album {
        id: match raw.id {
            Some(x) => x,
            None => requested_id,
        },
        title: text_of(&raw.title),
        artist: text_of(&raw.artist_name),
        release_date: copy_opt_string(&raw.release_date),
        track_count: match raw.number_of_tracks {
            Some(n) => n as u32,
            None => 0,
        },
        duration_secs: raw.duration,
        cover_id: copy_opt_string(&raw.cover),
    };
    let tracks = match &raw.items {
        Some(items) => listing(ListingKind::AlbumTracks, items),
        None => Vec::new(),
    };
    (album, tracks)
}

/// An album response's event carries what the response says of the album
/// unchanged: its ID (or the one asked for, when it has none), release
/// date, duration and cover, and its title and artist as text (empty when
/// missing).
pub proof fn law_album_keeps_fields(e: MonoEvent, requested_id: u64, raw: RawAlbum)
    requires
        is_album_of(e, requested_id, raw),
    ensures
        e matches MonoEvent::Album { id, title, artist, release_date, duration_secs, cover_id, .. } && {
            &&& raw.id matches Some(x) ==> id == x
            &&& raw.id is None ==> id == requested_id
            &&& release_date == raw.release_date
            &&& duration_secs == raw.duration
            &&& cover_id == raw.cover
            &&& raw.title matches Some(t) ==> title@ == t@
            &&& raw.artist_name matches Some(a) ==> artist@ == a@
        },
{
}

/// The fields of an artist response.
pub struct RawArtist {
    pub id: Option<u64>,
    pub name: Option<String>,
    pub picture: Option<String>,
    /// The 750-pixel cover URL.
    pub cover_750: Option<String>,
}

/// An artist response, with `requested_id` standing in for a missing ID.
pub fn artist(requested_id: u64, raw: &RawArtist) -> (r: MonoEvent)
    ensures
        match r {
            MonoEvent::Artist { id, name, picture_id, cover_url } => {
                &&& id == (match raw.id { Some(x) => x, None => requested_id })
                &&& name@ == text_or_empty(raw.name)
                &&& picture_id == raw.picture
                &&& cover_url == raw.cover_750
            },
            _ => false,
        },
{
    MonoEvent::Artist {
        id: match raw.id {
            Some(x) => x,
            None => requested_id,
        },
        name: text_of(&raw.name),
        picture_id: copy_opt_string(&raw.picture),
        cover_url: copy_opt_string(&raw.cover_750),
    }
}

/// An album object in album search results.
pub struct RawAlbumHit {
    pub id: Option<u64>,
    pub title: Option<String>,
    /// The name of the first listed artist.
    pub first_artist_name: Option<String>,
    pub number_of_tracks: Option<u64>,
    pub release_date: Option<String>,
}

/// An artist object in artist search results.
pub struct RawArtistHit {
    pub id: Option<u64>,
    pub name: Option<String>,
}

/// The item arrays of a search response; each absent when not an array.
pub struct RawSearch {
    /// `data.items`
    pub tracks: Option<Vec<RawTrack>>,
    /// `data.albums.items`
    pub albums: Option<Vec<RawAlbumHit>>,
    /// `data.artists.items`
    pub artists: Option<Vec<RawArtistHit>>,
}

/// `e` is the album hit of rank `rank` for `h`.
pub open spec fn is_album_hit_of(e: MonoEvent, rank: u32, h: RawAlbumHit) -> bool {
    match e {
        MonoEvent::SearchAlbum { rank: r, id, title, artist, track_count, release_date } => {
            &&& r == rank
            &&& id == (match h.id { Some(x) => x, None => 0 })
            &&& title@ == text_or_empty(h.title)
            &&& artist@ == text_or_empty(h.first_artist_name)
            &&& track_count == (match h.number_of_tracks { Some(n) => n as u32, None => 0 })
            &&& release_date == h.release_date
        },
        _ => false,
    }
}

/// `e` is the artist hit of rank `rank` for `h`.
pub open spec fn is_artist_hit_of(e: MonoEvent, rank: u32, h: RawArtistHit) -> bool {
    match e {
        MonoEvent::SearchArtist { rank: r, id, name } => {
            &&& r == rank
            &&& id == (match h.id { Some(x) => x, None => 0 })
            &&& name@ == text_or_empty(h.name)
        },
        _ => false,
    }
}

/// Search results: track hits skip objects without an ID; album and artist
/// hits keep every object (ID 0 when missing). Ranks are positions in the
/// response. Fails when the array for the kind is missing.
pub fn search_results(kind: SearchKind, raw: &RawSearch) -> (r: Result<Vec<MonoEvent>, CatalogError>)
    ensures
        kind == SearchKind::Tracks ==> match raw.tracks {
            Some(items) => r matches Ok(v) && is_listing(ListingKind::SearchTracks, v@, items@),
            None => r matches Err(CatalogError::MissingItems),
        },
        kind == SearchKind::Albums ==> match raw.albums {
            Some(items) => r matches Ok(v) && v@.len() == items@.len() && forall|k: int|
                0 <= k < v@.len() ==> is_album_hit_of(#[trigger] v@[k], k as u32, items@[k]),
            None => r matches Err(CatalogError::MissingAlbumItems),
        },
        kind == SearchKind::Artists ==> match raw.artists {
            Some(items) => r matches Ok(v) && v@.len() == items@.len() && forall|k: int|
                0 <= k < v@.len() ==> is_artist_hit_of(#[trigger] v@[k], k as u32, items@[k]),
            None => r matches Err(CatalogError::MissingArtistItems),
        },
{
    match kind {
        SearchKind::Tracks => match &raw.tracks {
            Some(items) => Ok(listing(ListingKind::SearchTracks, items)),
            None => Err(CatalogError::MissingItems),
        },
        SearchKind::Albums => match &raw.albums {
            Some(items) => {
                let mut out: Vec<MonoEvent> = Vec::new();
                let mut i: usize = 0;
                while i < items.len()
                    invariant
                        i <= items@.len(),
                        out@.len() == i,
                        forall|k: int| 0 <= k < i ==> is_album_hit_of(#[trigger] out@[k], k as u32, items@[k]),
                    decreases items@.len() - i,
                {
                    let h = &items[i];
                    out.push(
                        MonoEvent::SearchAlbum {
                            rank: i as u32,
                            id: match h.id {
                                Some(x) => x,
                                None => 0,
                            },
                            title: text_of(&h.title),
                            artist: text_of(&h.first_artist_name),
                            track_count: match h.number_of_tracks {
                                Some(n) => n as u32,
                                None => 0,
                            },
                            release_date: copy_opt_string(&h.release_date),
                        },
                    );
                    i = i + 1;
                }
                Ok(out)
            },
            None => Err(CatalogError::MissingAlbumItems),
        },
        SearchKind::Artists => match &raw.artists {
            Some(items) => {
                let mut out: Vec<MonoEvent> = Vec::new();
                let mut i: usize = 0;
                while i < items.len()
                    invariant
                        i <= items@.len(),
                        out@.len() == i,
                        forall|k: int| 0 <= k < i ==> is_artist_hit_of(#[trigger] out@[k], k as u32, items@[k]),
                    decreases items@.len() - i,
                {
                    let h = &items[i];
                    out.push(
                        MonoEvent::SearchArtist {
                            rank: i as u32,
                            id: match h.id {
                                Some(x) => x,
                                None => 0,
                            },
                            name: text_of(&h.name),
                        },
                    );
                    i = i + 1;
                }
                Ok(out)
            },
            None => Err(CatalogError::MissingArtistItems),
        },
    }
}

/// Recommendations from the `data.items` track objects; fails when missing.
pub fn recommendations(items: &Option<Vec<RawTrack>>) -> (r: Result<Vec<MonoEvent>, CatalogError>)
    ensures
        match items {
            Some(v) => r matches Ok(out) && is_listing(ListingKind::Recommendations, out@, v@),
            None => r matches Err(CatalogError::MissingItems),
        },
{
    match items {
        Some(v) => Ok(listing(ListingKind::Recommendations, v)),
        None => Err(CatalogError::MissingItems),
    }
}

/// The URL stored under `key` in a cover object's string fields (the first
/// such field), if any.
pub open spec fn lookup_url(fields: Seq<(String, String)>, key: Seq<char>) -> Option<String>
    decreases fields.len(),
{
    if fields.len() == 0 {
        None
    } else if fields[0].0@ == key {
        Some(fields[0].1)
    } else {
        lookup_url(fields.drop_first(), key)
    }
}

/// The sizes asked for: 80, 640 and 1280 pixels for size 0, else the size given.
pub open spec fn cover_sizes(size: u32) -> Seq<u32> {
    if size == 0 {
        seq![80u32, 640u32, 1280u32]
    } else {
        seq![size]
    }
}

/// The cover events for the sizes asked for that the cover object has, in
/// the order of the sizes.
pub open spec fn cover_hits(fields: Seq<(String, String)>, sizes: Seq<u32>) -> Seq<(u32, String)>
    decreases sizes.len(),
{
    if sizes.len() == 0 {
        Seq::empty()
    } else {
        let rest = cover_hits(fields, sizes.drop_last());
        match lookup_url(fields, decimal(sizes.last() as nat)) {
            Some(u) => rest.push((sizes.last(), u)),
            None => rest,
        }
    }
}

/// The cover event of size `s` when the cover object holds a URL for it.
pub open spec fn size_hit(fields: Seq<(String, String)>, s: u32) -> Seq<(u32, String)> {
    match lookup_url(fields, decimal(s as nat)) {
        Some(u) => seq![(s, u)],
        None => Seq::empty(),
    }
}

/// Size 0 asks for every size: the 80, 640 and 1280 pixel covers that the
/// cover object holds (under the keys `80`, `640` and `1280`) come back, in
/// that order; any other size asks for that size alone.
pub proof fn law_cover_sizes(fields: Seq<(String, String)>, size: u32)
    ensures
        size == 0 ==> cover_hits(fields, cover_sizes(size)) == size_hit(fields, 80) + size_hit(fields, 640)
            + size_hit(fields, 1280),
        size != 0 ==> cover_hits(fields, cover_sizes(size)) == size_hit(fields, size),
        decimal(80) == seq!['8', '0'],
        decimal(640) == seq!['6', '4', '0'],
        decimal(1280) == seq!['1', '2', '8', '0'],
{
    reveal_with_fuel(decimal, 5);
    let s0 = cover_sizes(size);
    assert(cover_hits(fields, Seq::<u32>::empty()) == Seq::<(u32, String)>::empty());
    if size == 0 {
        assert(s0.drop_last() =~= seq![80u32, 640u32]);
        assert(s0.drop_last().drop_last() =~= seq![80u32]);
        assert(s0.drop_last().drop_last().drop_last() =~= Seq::<u32>::empty());
        assert(seq![80u32].drop_last() =~= Seq::<u32>::empty());
        assert(seq![80u32].last() == 80u32);
        match lookup_url(fields, decimal(80)) {
            Some(u) => assert(Seq::<(u32, String)>::empty().push((80u32, u)) =~= seq![(80u32, u)]),
            None => {},
        }
        assert(cover_hits(fields, seq![80u32]) =~= size_hit(fields, 80));
        assert(cover_hits(fields, seq![80u32, 640u32]) =~= size_hit(fields, 80) + size_hit(fields, 640));
        assert(cover_hits(fields, s0) =~= size_hit(fields, 80) + size_hit(fields, 640) + size_hit(fields, 1280));
    } else {
        assert(s0.drop_last() =~= Seq::<u32>::empty());
        assert(s0.last() == size);
        match lookup_url(fields, decimal(size as nat)) {
            Some(u) => assert(Seq::<(u32, String)>::empty().push((size, u)) =~= seq![(size, u)]),
            None => {},
        }
        assert(cover_hits(fields, s0) =~= size_hit(fields, size));
    }
}

fn lookup_url_exec(fields: &Vec<(String, String)>, key: &String) -> (r: Option<String>)
    ensures
        r == lookup_url(fields@, key@),
{
    let mut i: usize = 0;
    assert(fields@.skip(0) == fields@);
    while i < fields.len()
        invariant
            i <= fields@.len(),
            lookup_url(fields@, key@) == lookup_url(fields@.skip(i as int), key@),
        decreases fields@.len() - i,
    {
        proof {
            assert(fields@.skip(i as int).drop_first() == fields@.skip(i as int + 1));
        }
        if fields[i].0 == *key {
            return Some(fields[i].1.clone());
        }
        i = i + 1;
    }
    None
}

/// Cover art of track `id`: the URLs for the sizes asked for (see
/// `cover_sizes`) found in the first cover object. Fails when the covers array
/// is missing or empty, or when no asked-for size is present.
pub fn covers(id: u64, size: u32, cover_list: &Option<Vec<Vec<(String, String)>>>) -> (r: Result<Vec<MonoEvent>, CatalogError>)
    ensures
        match cover_list {
            None => r matches Err(CatalogError::MissingCovers),
            Some(cs) => if cs@.len() == 0 {
                r matches Err(CatalogError::EmptyCovers)
            } else {
                let hits = cover_hits(cs@[0]@, cover_sizes(size));
                if hits.len() == 0 {
                    r matches Err(CatalogError::NoCoverForSize { size: s, id: i }) && s == size && i == id
                } else {
                    r matches Ok(v) && v@.len() == hits.len() && forall|k: int|
                        0 <= k < v@.len() ==> (match #[trigger] v@[k] {
                            MonoEvent::Cover { url, size: s } => url == hits[k].1 && s == hits[k].0,
                            _ => false,
                        })
                }
            },
        },
{
    let cs = match cover_list {
        Some(cs) => cs,
        None => {
            return Err(CatalogError::MissingCovers);
        },
    };
    if cs.len() == 0 {
        return Err(CatalogError::EmptyCovers);
    }
    let first = &cs[0];
    let sizes: Vec<u32> = if size == 0 { vec![80u32, 640u32, 1280u32] } else { vec![size] };
    assert(sizes@ == cover_sizes(size));
    let mut events: Vec<MonoEvent> = Vec::new();
    let mut i: usize = 0;
    while i < sizes.len()
        invariant
            i <= sizes@.len(),
            events@.len() == cover_hits(first@, sizes@.take(i as int)).len(),
            forall|k: int| 0 <= k < events@.len() ==> (match #[trigger] events@[k] {
                MonoEvent::Cover { url, size: s } => url == cover_hits(first@, sizes@.take(i as int))[k].1
                    && s == cover_hits(first@, sizes@.take(i as int))[k].0,
                _ => false,
            }),
        decreases sizes@.len() - i,
    {
        let s = sizes[i];
        let mut key = String::new();
        push_decimal(&mut key, s as u64);
        assert(Seq::<char>::empty() + decimal(s as nat) == decimal(s as nat));
        proof {
            assert(sizes@.take(i as int + 1).drop_last() == sizes@.take(i as int));
            assert(sizes@.take(i as int + 1).last() == s);
        }
        match lookup_url_exec(first, &key) {
            Some(url) => {
                events.push(MonoEvent::Cover { url, size: s });
            },
            None => {},
        }
        i = i + 1;
    }
    assert(sizes@.take(i as int) == sizes@);
    if events.len() == 0 {
        Err(CatalogError::NoCoverForSize { size, id })
    } else {
        Ok(events)
    }
}

/// Decode the base64 manifest blob of a stream response; fails when the
/// field is missing or not valid base64.
pub fn decode_manifest(manifest: &Option<String>) -> (r: Result<Vec<u8>, CatalogError>)
    ensures
        match manifest {
            None => r matches Err(CatalogError::MissingManifest),
            Some(m) => match base64_standard_decode(vstd::utf8::encode_utf8(m@)) {
                Some(bytes) => r matches Ok(v) && v@ == bytes,
                None => r matches Err(CatalogError::Base64(_)),
            },
        },
{
    match manifest {
        None => Err(CatalogError::MissingManifest),
        Some(m) => match base64_decode(m.as_str()) {
            Ok(v) => Ok(v),
            Err(e) => Err(CatalogError::Base64(e)),
        },
    }
}

/// The fields of a decoded stream manifest and of its response.
pub struct RawManifest {
    pub mime_type: Option<String>,
    pub codecs: Option<String>,
    /// The first entry of `urls`, when it is a string.
    pub first_url: Option<String>,
    pub bit_depth: Option<u64>,
    pub sample_rate: Option<u64>,
    pub audio_quality: Option<String>,
}

/// The stream manifest text fields, or empty where absent.
pub open spec fn seq_or_empty(o: Option<Seq<char>>) -> Seq<char> {
    match o {
        Some(s) => s,
        None => Seq::empty(),
    }
}

/// Whether `e` is the stream manifest event of track `id` with the given
/// URL, MIME type, codecs, quality and audio format (`u32` casts of the
/// response numbers); its extension is the one of the MIME type.
pub open spec fn is_stream_event(
    e: MonoEvent,
    id: u64,
    url: Seq<char>,
    mime: Seq<char>,
    codecs: Seq<char>,
    quality: Seq<char>,
    bit_depth: Option<u64>,
    sample_rate: Option<u64>,
) -> bool {
    match e {
        MonoEvent::StreamManifest {
            id: i,
            url: u,
            mime_type: m,
            codecs: c,
            quality: q,
            bit_depth: b,
            sample_rate: r,
            extension: x,
        } => {
            &&& i == id
            &&& u@ == url
            &&& m@ == mime
            &&& c@ == codecs
            &&& q@ == quality
            &&& b == (match bit_depth { Some(n) => Some(n as u32), None => None })
            &&& r == (match sample_rate { Some(n) => Some(n as u32), None => None })
            &&& x@ == mime_ext_spec(mime)
        },
        _ => false,
    }
}

/// The stream manifest event of track `id`; fails when the manifest lists no URL.
pub fn stream_manifest(id: u64, raw: &RawManifest) -> (r: Result<MonoEvent, CatalogError>)
    ensures
        raw.first_url is None ==> r matches Err(CatalogError::NoUrls),
        raw.first_url matches Some(u) ==> (r matches Ok(e) && is_stream_event(
            e,
            id,
            u@,
            text_or_empty(raw.mime_type),
            text_or_empty(raw.codecs),
            text_or_empty(raw.audio_quality),
            raw.bit_depth,
            raw.sample_rate,
        )),
{
    let mime_type = text_of(&raw.mime_type);
    let codecs = text_of(&raw.codecs);
    let url = match &raw.first_url {
        Some(u) => u.clone(),
        None => {
            return Err(CatalogError::NoUrls);
        },
    };
    let extension = mime_to_ext(mime_type.as_str());
    Ok(
        MonoEvent::StreamManifest {
            id,
            url,
            mime_type,
            codecs,
            quality: text_of(&raw.audio_quality),
            bit_depth: match raw.bit_depth {
                Some(n) => Some(n as u32),
                None => None,
            },
            sample_rate: match raw.sample_rate {
                Some(n) => Some(n as u32),
                None => None,
            },
            extension,
        },
    )
}

/// The stream manifest event of track `id` from the decoded manifest bytes
/// and the response's audio format fields: fails when the bytes are not a
/// JSON document, or when the manifest lists no URL.
pub fn manifest_event(
    id: u64,
    bytes: &Vec<u8>,
    bit_depth: Option<u64>,
    sample_rate: Option<u64>,
    audio_quality: Option<String>,
) -> (r: Result<MonoEvent, CatalogError>)
    ensures
        manifest_json_fields(bytes@) is None ==> r matches Err(CatalogError::ManifestJson(_)),
        manifest_json_fields(bytes@) matches Some((m, c, u)) ==> match u {
            None => r matches Err(CatalogError::NoUrls),
            Some(url) => r matches Ok(e) && is_stream_event(
                e,
                id,
                url,
                seq_or_empty(m),
                seq_or_empty(c),
                text_or_empty(audio_quality),
                bit_depth,
                sample_rate,
            ),
        },
{
    match parse_manifest_json(bytes) {
        Err(e) => Err(CatalogError::ManifestJson(e)),
        Ok((mime_type, codecs, first_url)) => {
            let raw = RawManifest { mime_type, codecs, first_url, bit_depth, sample_rate, audio_quality };
            stream_manifest(id, &raw)
        },
    }
}

} // verus!
