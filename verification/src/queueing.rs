//! Turning catalog answers into queue entries, and the small rules around
//! them: fallback metadata, album queues, the liked-tracks playlist, queue
//! snapshots, track links, download file names and request defaults.
use vstd::prelude::*;

use crate::text::{append_str, chars_of, decimal, push_char, push_decimal};
use crate::types::{copy_opt_string, MonoEvent, QueuedTrack};

verus! {

/// The title used when a track's metadata is unavailable: `Track {id}`.
pub open spec fn fallback_title(id: u64) -> Seq<char> {
    "Track "@ + decimal(id as nat)
}

/// `t` is the queue entry for track `id` at `quality` built from `info`:
/// the metadata of a track event, or the fallback title and empty fields.
pub open spec fn is_queued_from(t: QueuedTrack, id: u64, quality: Seq<char>, info: Option<MonoEvent>) -> bool {
    &&& t.id == id
    &&& t.quality@ == quality
    &&& t.source is None
    &&& match info {
        Some(MonoEvent::Track { title, artist, album, duration_secs, cover_id, .. }) => {
            &&& t.title == title
            &&& t.artist == artist
            &&& t.album == album
            &&& t.duration_secs == duration_secs
            &&& t.cover_id == cover_id
        },
        _ => {
            &&& t.title@ == fallback_title(id)
            &&& t.artist@ == Seq::<char>::empty()
            &&& t.album@ == Seq::<char>::empty()
            &&& t.duration_secs == 0
            &&& t.cover_id is None
        },
    }
}

/// The fallback title `Track {id}`.
pub fn fallback_title_exec(id: u64) -> (r: String)
    ensures
        r@ == fallback_title(id),
{
    let mut s = "Track ".to_owned();
    push_decimal(&mut s, id);
    s
}

/// Build a queue entry from track info (or fall back to minimal metadata).
pub fn make_queued_track(id: u64, quality: &str, info: Option<MonoEvent>) -> (r: QueuedTrack)
    ensures
        is_queued_from(r, id, quality@, info),
{
    match info {
        Some(MonoEvent::Track { title, artist, album, duration_secs, cover_id, .. }) => QueuedTrack {
            id,
            title,
            artist,
            album,
            duration_secs,
            quality: quality.to_owned(),
            cover_id,
            source: None,
        },
        _ => QueuedTrack {
            id,
            title: fallback_title_exec(id),
            artist: String::new(),
            album: String::new(),
            duration_secs: 0,
            quality: quality.to_owned(),
            cover_id: None,
            source: None,
        },
    }
}

/// An album that yielded no queueable track.
#[derive(Debug)]
pub struct EmptyAlbum {
    /// The album title, or `Album {id}` when the album metadata was unusable.
    pub album_name: String,
}

impl EmptyAlbum {
    /// The human-readable error text.
    pub fn message(&self) -> (r: String)
        ensures
            r@ == "no tracks found in album "@ + self.album_name@,
    {
        let mut s = "no tracks found in album ".to_owned();
        append_str(&mut s, self.album_name.as_str());
        s
    }
}

/// The listing entries of an album listing, in order.
pub open spec fn album_track_events(events: Seq<MonoEvent>) -> Seq<MonoEvent> {
    events.filter(|e: MonoEvent| e is AlbumTrack)
}

/// `t` is the queue entry for listing entry `e` of an album described by `album`.
pub open spec fn is_album_entry(t: QueuedTrack, e: MonoEvent, album: MonoEvent, quality: Seq<char>) -> bool {
    &&& e matches MonoEvent::AlbumTrack { id, title, artist, duration_secs, .. } && t.id == id
        && t.title == title && t.artist == artist && t.duration_secs == duration_secs
    &&& t.quality@ == quality
    &&& t.source is None
    &&& match album {
        MonoEvent::Album { title, cover_id, .. } => t.album == title && t.cover_id == cover_id,
        _ => t.album@ == Seq::<char>::empty() && t.cover_id is None,
    }
}

/// The queue entries for an album: one per listing entry, carrying the
/// album's title and cover. Refused when the listing has no entry.
pub fn album_queue_tracks(album_id: u64, album: &MonoEvent, events: &Vec<MonoEvent>, quality: &str) -> (r: Result<Vec<QueuedTrack>, EmptyAlbum>)
    ensures
        ({
            let entries = album_track_events(events@);
            if entries.len() == 0 {
                r matches Err(e) && e.album_name@ == (match *album {
                    MonoEvent::Album { title, .. } => title@,
                    _ => "Album "@ + decimal(album_id as nat),
                })
            } else {
                r matches Ok(v) && v@.len() == entries.len() && forall|k: int|
                    0 <= k < v@.len() ==> is_album_entry(#[trigger] v@[k], entries[k], *album, quality@)
            }
        }),
{
    let ghost pred = |e: MonoEvent| e is AlbumTrack;
    let mut out: Vec<QueuedTrack> = Vec::new();
    let mut i: usize = 0;
    while i < events.len()
        invariant
            i <= events@.len(),
            pred == (|e: MonoEvent| e is AlbumTrack),
            out@.len() == events@.take(i as int).filter(pred).len(),
            forall|k: int| 0 <= k < out@.len() ==> is_album_entry(
                #[trigger] out@[k],
                events@.take(i as int).filter(pred)[k],
                *album,
                quality@,
            ),
        decreases events@.len() - i,
    {
        proof {
            reveal_with_fuel(Seq::filter, 1);
            assert(events@.take(i as int + 1).drop_last() == events@.take(i as int));
        }
        match &events[i] {
            MonoEvent::AlbumTrack { id, title, artist, duration_secs, .. } => {
                let (album_title, cover) = match album {
                    MonoEvent::Album { title, cover_id, .. } => (title.clone(), copy_opt_string(cover_id)),
                    _ => (String::new(), None),
                };
                out.push(
                    QueuedTrack {
                        id: *id,
                        title: title.clone(),
                        artist: artist.clone(),
                        album: album_title,
                        duration_secs: *duration_secs,
                        quality: quality.to_owned(),
                        cover_id: cover,
                        source: None,
                    },
                );
            },
            _ => {},
        }
        i = i + 1;
    }
    assert(events@.take(i as int) == events@);
    if out.len() == 0 {
        let album_name = match album {
            MonoEvent::Album { title, .. } => title.clone(),
            _ => {
                let mut s = "Album ".to_owned();
                push_decimal(&mut s, album_id);
                s
            },
        };
        return Err(EmptyAlbum { album_name });
    }
    Ok(out)
}

/// The last entry of `tracks` with ID `id`, if any.
pub open spec fn last_with_id(tracks: Seq<QueuedTrack>, id: u64) -> Option<QueuedTrack>
    decreases tracks.len(),
{
    if tracks.len() == 0 {
        None
    } else if tracks.last().id == id {
        Some(tracks.last())
    } else {
        last_with_id(tracks.drop_last(), id)
    }
}

fn find_last_with_id(tracks: &Vec<QueuedTrack>, id: u64) -> (r: Option<QueuedTrack>)
    ensures
        r == last_with_id(tracks@, id),
{
    let mut i: usize = tracks.len();
    assert(tracks@.take(tracks@.len() as int) == tracks@);
    while i > 0
        invariant
            i <= tracks@.len(),
            last_with_id(tracks@, id) == last_with_id(tracks@.take(i as int), id),
        decreases i,
    {
        proof {
            assert(tracks@.take(i as int).drop_last() == tracks@.take(i as int - 1));
        }
        if tracks[i - 1].id == id {
            return Some(tracks[i - 1].clone());
        }
        i = i - 1;
    }
    None
}

/// The IDs of liked tracks that the cached playlist does not hold, in liked order.
pub open spec fn uncached_ids(liked: Seq<(u64, Option<String>)>, cached: Seq<QueuedTrack>) -> Seq<u64> {
    liked.filter(|l: (u64, Option<String>)| last_with_id(cached, l.0) is None).map_values(
        |l: (u64, Option<String>)| l.0,
    )
}

/// The liked track IDs whose metadata must be fetched: those the cached
/// playlist does not hold.
pub fn liked_ids_to_fetch(liked: &Vec<(u64, Option<String>)>, cached: &Vec<QueuedTrack>) -> (r: Vec<u64>)
    ensures
        r@ == uncached_ids(liked@, cached@),
{
    let ghost pred = |l: (u64, Option<String>)| last_with_id(cached@, l.0) is None;
    let ghost f = |l: (u64, Option<String>)| l.0;
    let mut out: Vec<u64> = Vec::new();
    let mut i: usize = 0;
    while i < liked.len()
        invariant
            i <= liked@.len(),
            pred == (|l: (u64, Option<String>)| last_with_id(cached@, l.0) is None),
            f == (|l: (u64, Option<String>)| l.0),
            out@ == liked@.take(i as int).filter(pred).map_values(f),
        decreases liked@.len() - i,
    {
        proof {
            reveal_with_fuel(Seq::filter, 1);
            assert(liked@.take(i as int + 1).drop_last() == liked@.take(i as int));
        }
        let id = liked[i].0;
        if find_last_with_id(cached, id).is_none() {
            out.push(id);
            proof {
                assert(liked@.take(i as int + 1).filter(pred) == liked@.take(i as int).filter(pred).push(liked@[i as int]));
                assert(out@ == liked@.take(i as int + 1).filter(pred).map_values(f));
            }
        } else {
            proof {
                assert(liked@.take(i as int + 1).filter(pred) == liked@.take(i as int).filter(pred));
            }
        }
        i = i + 1;
    }
    assert(liked@.take(i as int) == liked@);
    out
}

/// `t` is the liked-playlist entry for liked track `l`: the cached entry with
/// the like's source, else the first fetched entry for it with the like's
/// source, else a bare LOSSLESS entry with the fallback title.
pub open spec fn is_liked_entry(t: QueuedTrack, l: (u64, Option<String>), cached: Seq<QueuedTrack>, fetched: Seq<QueuedTrack>) -> bool {
    match last_with_id(cached, l.0) {
        Some(c) => t == QueuedTrack { source: l.1, ..c },
        None => match first_with_id(fetched, l.0) {
            Some(f) => t == QueuedTrack { source: l.1, ..f },
            None => {
                &&& t.id == l.0
                &&& t.title@ == fallback_title(l.0)
                &&& t.artist@ == Seq::<char>::empty()
                &&& t.album@ == Seq::<char>::empty()
                &&& t.duration_secs == 0
                &&& t.quality@ == "LOSSLESS"@
                &&& t.cover_id is None
                &&& t.source == l.1
            },
        },
    }
}

/// The first entry of `tracks` with ID `id`, if any.
pub open spec fn first_with_id(tracks: Seq<QueuedTrack>, id: u64) -> Option<QueuedTrack>
    decreases tracks.len(),
{
    if tracks.len() == 0 {
        None
    } else if tracks[0].id == id {
        Some(tracks[0])
    } else {
        first_with_id(tracks.drop_first(), id)
    }
}

fn find_first_with_id(tracks: &Vec<QueuedTrack>, id: u64) -> (r: Option<QueuedTrack>)
    ensures
        r == first_with_id(tracks@, id),
{
    let mut i: usize = 0;
    assert(tracks@.skip(0) == tracks@);
    while i < tracks.len()
        invariant
            i <= tracks@.len(),
            first_with_id(tracks@, id) == first_with_id(tracks@.skip(i as int), id),
        decreases tracks@.len() - i,
    {
        proof {
            assert(tracks@.skip(i as int).drop_first() == tracks@.skip(i as int + 1));
        }
        if tracks[i].id == id {
            return Some(tracks[i].clone());
        }
        i = i + 1;
    }
    None
}

/// The tracks of the liked playlist, one per liked track in liked order
/// (see `is_liked_entry`).
pub fn liked_playlist_tracks(liked: &Vec<(u64, Option<String>)>, cached: &Vec<QueuedTrack>, fetched: &Vec<QueuedTrack>) -> (r: Vec<QueuedTrack>)
    ensures
        r@.len() == liked@.len(),
        forall|k: int| 0 <= k < r@.len() ==> is_liked_entry(#[trigger] r@[k], liked@[k], cached@, fetched@),
{
    let mut out: Vec<QueuedTrack> = Vec::new();
    let mut i: usize = 0;
    while i < liked.len()
        invariant
            i <= liked@.len(),
            out@.len() == i,
            forall|k: int| 0 <= k < i ==> is_liked_entry(#[trigger] out@[k], liked@[k], cached@, fetched@),
        decreases liked@.len() - i,
    {
        let id = liked[i].0;
        let source = copy_opt_string(&liked[i].1);
        let t = match find_last_with_id(cached, id) {
            Some(c) => QueuedTrack { source, ..c },
            None => match find_first_with_id(fetched, id) {
                Some(f) => QueuedTrack { source, ..f },
                None => QueuedTrack {
                    id,
                    title: fallback_title_exec(id),
                    artist: String::new(),
                    album: String::new(),
                    duration_secs: 0,
                    quality: "LOSSLESS".to_owned(),
                    cover_id: None,
                    source,
                },
            },
        };
        out.push(t);
        i = i + 1;
    }
    out
}

/// The queue event: the current track (at index 0) followed by the queue.
pub fn queue_event(current: Option<QueuedTrack>, upcoming: Vec<QueuedTrack>) -> (r: MonoEvent)
    ensures
        r matches MonoEvent::Queue { tracks, current_index } && tracks@ == (match current {
            Some(c) => seq![c] + upcoming@,
            None => upcoming@,
        }) && current_index == (if current is Some { Some(0usize) } else { None }),
{
    let ghost cur = current;
    let current_index = if current.is_some() { Some(0usize) } else { None };
    let mut tracks: Vec<QueuedTrack> = Vec::new();
    if let Some(c) = current {
        tracks.push(c);
    }
    let mut up = upcoming;
    let ghost t0 = tracks@;
    tracks.append(&mut up);
    proof {
        match cur {
            Some(c) => {
                assert(t0 == seq![c]);
            },
            None => {
                assert(t0 == Seq::<QueuedTrack>::empty());
                assert(tracks@ == upcoming@);
            },
        }
    }
    MonoEvent::Queue { tracks, current_index }
}

/// Queue entries standing for liked track IDs: no metadata, source `liked`.
pub fn liked_placeholders(ids: &Vec<u64>) -> (r: Vec<QueuedTrack>)
    ensures
        r@.len() == ids@.len(),
        forall|k: int| 0 <= k < r@.len() ==> {
            &&& (#[trigger] r@[k]).id == ids@[k]
            &&& r@[k].title@ == Seq::<char>::empty()
            &&& r@[k].artist@ == Seq::<char>::empty()
            &&& r@[k].album@ == Seq::<char>::empty()
            &&& r@[k].duration_secs == 0
            &&& r@[k].quality@ == Seq::<char>::empty()
            &&& r@[k].cover_id is None
            &&& r@[k].source matches Some(s) && s@ == "liked"@
        },
{
    let mut out: Vec<QueuedTrack> = Vec::new();
    let mut i: usize = 0;
    while i < ids.len()
        invariant
            i <= ids@.len(),
            out@.len() == i,
            forall|k: int| 0 <= k < i ==> {
                &&& (#[trigger] out@[k]).id == ids@[k]
                &&& out@[k].title@ == Seq::<char>::empty()
                &&& out@[k].artist@ == Seq::<char>::empty()
                &&& out@[k].album@ == Seq::<char>::empty()
                &&& out@[k].duration_secs == 0
                &&& out@[k].quality@ == Seq::<char>::empty()
                &&& out@[k].cover_id is None
                &&& out@[k].source matches Some(s) && s@ == "liked"@
            },
        decreases ids@.len() - i,
    {
        out.push(
            QueuedTrack {
                id: ids[i],
                title: String::new(),
                artist: String::new(),
                album: String::new(),
                duration_secs: 0,
                quality: String::new(),
                cover_id: None,
                source: Some("liked".to_owned()),
            },
        );
        i = i + 1;
    }
    out
}

/// A text with every `{}` replaced by `rep`, scanning left to right.
pub open spec fn replace_braces(s: Seq<char>, rep: Seq<char>) -> Seq<char>
    decreases s.len(),
{
    if s.len() < 2 {
        s
    } else if s[0] == '{' && s[1] == '}' {
        rep + replace_braces(s.skip(2), rep)
    } else {
        seq![s[0]] + replace_braces(s.skip(1), rep)
    }
}

/// The link to a track: the template with every `{}` replaced by the track
/// ID; no link without a template.
pub fn track_url(template: &Option<String>, id: u64) -> (r: Option<String>)
    ensures
        match template {
            Some(tpl) => r matches Some(u) && u@ == replace_braces(tpl@, decimal(id as nat)),
            None => r is None,
        },
{
    let tpl = match template {
        Some(t) => t,
        None => {
            return None;
        },
    };
    let v = chars_of(tpl.as_str());
    let mut id_text = String::new();
    push_decimal(&mut id_text, id);
    let rep = chars_of(id_text.as_str());
    assert(rep@ == decimal(id as nat));
    let mut out = String::new();
    let mut i: usize = 0;
    assert(v@.skip(0) == v@);
    while i < v.len()
        invariant
            i <= v@.len(),
            v@ == tpl@,
            rep@ == decimal(id as nat),
            id_text@ == rep@,
            out@ + replace_braces(v@.skip(i as int), rep@) == replace_braces(v@, rep@),
        decreases v@.len() - i,
    {
        let ghost rest = v@.skip(i as int);
        if i + 1 < v.len() && v[i] == '{' && v[i + 1] == '}' {
            let ghost before = out@;
            append_str(&mut out, id_text.as_str());
            proof {
                assert(rest.skip(2) == v@.skip(i + 2));
                assert(rest[0] == '{' && rest[1] == '}');
                assert(replace_braces(rest, rep@) == rep@ + replace_braces(rest.skip(2), rep@));
                assert(out@ == before + rep@);
                assert((before + rep@) + replace_braces(rest.skip(2), rep@) == before + (rep@ + replace_braces(rest.skip(2), rep@)));
                assert(out@ + replace_braces(v@.skip(i + 2), rep@) == replace_braces(v@, rep@));
            }
            i = i + 2;
        } else {
            let ghost before = out@;
            push_char(&mut out, v[i]);
            proof {
                if rest.len() >= 2 {
                    assert(rest.skip(1) == v@.skip(i + 1));
                    assert(before + replace_braces(rest, rep@) == before + (seq![rest[0]] + replace_braces(rest.skip(1), rep@)));
                } else {
                    assert(rest == seq![v@[i as int]]);
                    assert(v@.skip(i + 1) == Seq::<char>::empty());
                }
                assert(out@ + replace_braces(v@.skip(i + 1), rep@) == replace_braces(v@, rep@));
            }
            i = i + 1;
        }
    }
    proof {
        assert(v@.skip(i as int) == Seq::<char>::empty());
        assert(out@ + Seq::<char>::empty() == out@);
    }
    Some(out)
}

/// A path component with `/`, `\` and `:` replaced by `_`.
pub open spec fn sanitize_spec(s: Seq<char>) -> Seq<char> {
    s.map_values(|c: char| if c == '/' || c == '\\' || c == ':' { '_' } else { c })
}

/// Make text safe as one path component (see `sanitize_spec`).
pub fn sanitize(s: &str) -> (r: String)
    ensures
        r@ == sanitize_spec(s@),
{
    let v = chars_of(s);
    let mut out = String::new();
    let mut i: usize = 0;
    while i < v.len()
        invariant
            i <= v@.len(),
            v@ == s@,
            out@ == sanitize_spec(v@.take(i as int)),
        decreases v@.len() - i,
    {
        let c = v[i];
        if c == '/' || c == '\\' || c == ':' {
            push_char(&mut out, '_');
        } else {
            push_char(&mut out, c);
        }
        proof {
            assert(v@.take(i as int + 1) == v@.take(i as int).push(c));
            assert(sanitize_spec(v@.take(i as int + 1)) == sanitize_spec(v@.take(i as int)).push(
                if c == '/' || c == '\\' || c == ':' { '_' } else { c },
            ));
        }
        i = i + 1;
    }
    assert(v@.take(i as int) == v@);
    out
}

/// Where a download is filed, below the music folder: an artist folder, an
/// album folder inside it, and the file name `{title}.{ext}`, each part
/// sanitized (the extension as given).
pub fn download_names(artist: &str, album: &str, title: &str, ext: &str) -> (r: (String, String, String))
    ensures
        r.0@ == sanitize_spec(artist@),
        r.1@ == sanitize_spec(album@),
        r.2@ == sanitize_spec(title@) + "."@ + ext@,
{
    let a = sanitize(artist);
    let b = sanitize(album);
    let mut f = sanitize(title);
    append_str(&mut f, ".");
    append_str(&mut f, ext);
    (a, b, f)
}

/// The title, artist and album a download is filed under: those of the track
/// metadata, else `Track {id}` by `Unknown` on `Unknown`.
pub fn download_labels(id: u64, info: &Option<MonoEvent>) -> (r: (String, String, String))
    ensures
        match *info {
            Some(MonoEvent::Track { title, artist, album, .. }) => r == (title, artist, album),
            _ => r.0@ == fallback_title(id) && r.1@ == "Unknown"@ && r.2@ == "Unknown"@,
        },
{
    match info {
        Some(MonoEvent::Track { title, artist, album, .. }) => (title.clone(), artist.clone(), album.clone()),
        _ => (fallback_title_exec(id), "Unknown".to_owned(), "Unknown".to_owned()),
    }
}

/// The file extension of a download: the one the stream manifest names, else `flac`.
pub fn manifest_extension(manifest: &MonoEvent) -> (r: String)
    ensures
        match *manifest {
            MonoEvent::StreamManifest { extension, .. } => r == extension,
            _ => r@ == "flac"@,
        },
{
    match manifest {
        MonoEvent::StreamManifest { extension, .. } => extension.clone(),
        _ => "flac".to_owned(),
    }
}

/// The track a request is about: the one it names, else the current track.
pub fn requested_or_current(id: Option<u64>, current: &Option<QueuedTrack>) -> (r: Option<u64>)
    ensures
        r == match id {
            Some(i) => Some(i),
            None => match *current {
                Some(t) => Some(t.id),
                None => None,
            },
        },
{
    match id {
        Some(i) => Some(i),
        None => match current {
            Some(t) => Some(t.id),
            None => None,
        },
    }
}

/// The quality tier asked for, `LOSSLESS` by default.
pub fn quality_or_default(quality: Option<String>) -> (r: String)
    ensures
        match quality {
            Some(q) => r == q,
            None => r@ == "LOSSLESS"@,
        },
{
    match quality {
        Some(q) => q,
        None => "LOSSLESS".to_owned(),
    }
}

/// The number of statistics entries a listing returns: 10 by default.
pub fn stats_limit(limit: Option<u32>) -> (r: usize)
    ensures
        r == (match limit {
            Some(l) => l,
            None => 10,
        }),
{
    match limit {
        Some(l) => l as usize,
        None => 10,
    }
}

/// The cover size asked for: 1280 pixels by default (0 asks for every size).
pub fn cover_size(size: Option<u32>) -> (r: u32)
    ensures
        r == (match size {
            Some(s) => s,
            None => 1280,
        }),
{
    match size {
        Some(s) => s,
        None => 1280,
    }
}

/// The result limit of a search: 25 by default, at most 500.
pub fn search_limit(limit: Option<u32>) -> (r: u32)
    ensures
        r == (match limit {
            Some(l) => if l < 500 { l } else { 500 },
            None => 25,
        }),
{
    let l = match limit {
        Some(l) => l,
        None => 25,
    };
    if l < 500 {
        l
    } else {
        500
    }
}

} // verus!
