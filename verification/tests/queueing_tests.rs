use plexus_music::queueing::{
    album_queue_tracks, cover_size, download_names, fallback_title_exec, liked_ids_to_fetch,
    liked_placeholders, liked_playlist_tracks, make_queued_track, quality_or_default, queue_event,
    requested_or_current, sanitize, search_limit, stats_limit, track_url,
};
use plexus_music::types::{MonoEvent, QueuedTrack};

fn track(id: u64, title: &str) -> QueuedTrack {
    QueuedTrack {
        id,
        title: title.to_owned(),
        artist: "A".to_owned(),
        album: "B".to_owned(),
        duration_secs: 30,
        quality: "HIGH".to_owned(),
        cover_id: None,
        source: None,
    }
}

fn track_event(id: u64) -> MonoEvent {
    MonoEvent::Track {
        id,
        title: "Real".to_owned(),
        artist: "Singer".to_owned(),
        album: "Disc".to_owned(),
        album_id: 1,
        duration_secs: 240,
        track_number: None,
        release_date: None,
        audio_quality: None,
        cover_id: Some("cov".to_owned()),
    }
}

#[test]
fn queued_track_from_metadata() {
    let t = make_queued_track(5, "LOSSLESS", Some(track_event(5)));
    assert_eq!(t.id, 5);
    assert_eq!(t.title, "Real");
    assert_eq!(t.artist, "Singer");
    assert_eq!(t.album, "Disc");
    assert_eq!(t.duration_secs, 240);
    assert_eq!(t.quality, "LOSSLESS");
    assert_eq!(t.cover_id.as_deref(), Some("cov"));
    assert!(t.source.is_none());
}

#[test]
fn queued_track_falls_back_without_metadata() {
    let t = make_queued_track(42, "HIGH", None);
    assert_eq!(t.title, "Track 42");
    assert_eq!(t.artist, "");
    assert_eq!(t.album, "");
    assert_eq!(t.duration_secs, 0);
    assert_eq!(t.quality, "HIGH");
    assert!(t.cover_id.is_none());
    let other = make_queued_track(7, "HIGH", Some(MonoEvent::Error { message: "x".to_owned() }));
    assert_eq!(other.title, "Track 7");
    assert_eq!(fallback_title_exec(0), "Track 0");
}

fn album_event(title: &str) -> MonoEvent {
    MonoEvent::Album {
        id: 3,
        title: title.to_owned(),
        artist: "Band".to_owned(),
        release_date: None,
        track_count: 2,
        duration_secs: None,
        cover_id: Some("art".to_owned()),
    }
}

fn album_track(position: u32, id: u64) -> MonoEvent {
    MonoEvent::AlbumTrack {
        position,
        id,
        title: format!("T{id}"),
        artist: "Band".to_owned(),
        duration_secs: 100,
        audio_quality: None,
    }
}

#[test]
fn album_queue_carries_album_title_and_cover() {
    let events = vec![album_track(1, 10), album_event("ignored"), album_track(2, 11)];
    let tracks = album_queue_tracks(3, &album_event("Record"), &events, "LOSSLESS").unwrap();
    assert_eq!(tracks.len(), 2);
    assert_eq!(tracks[0].id, 10);
    assert_eq!(tracks[1].id, 11);
    assert_eq!(tracks[1].title, "T11");
    assert_eq!(tracks[0].album, "Record");
    assert_eq!(tracks[0].cover_id.as_deref(), Some("art"));
    assert_eq!(tracks[0].quality, "LOSSLESS");
}

#[test]
fn empty_album_is_refused() {
    let e = album_queue_tracks(3, &album_event("Record"), &vec![], "HIGH").unwrap_err();
    assert_eq!(e.album_name, "Record");
    assert_eq!(e.message(), "no tracks found in album Record");
    let e = album_queue_tracks(3, &MonoEvent::Error { message: String::new() }, &vec![], "HIGH").unwrap_err();
    assert_eq!(e.album_name, "Album 3");
}

#[test]
fn liked_playlist_uses_cache_then_fetched_then_fallback() {
    let liked = vec![(1, Some("search".to_owned())), (2, None), (3, Some("album".to_owned()))];
    let mut cached1 = track(1, "old");
    cached1.source = Some("x".to_owned());
    let cached = vec![cached1, track(1, "cached")];
    assert_eq!(liked_ids_to_fetch(&liked, &cached), vec![2, 3]);
    let fetched = vec![track(2, "fetched"), track(2, "second")];
    let out = liked_playlist_tracks(&liked, &cached, &fetched);
    assert_eq!(out.len(), 3);
    assert_eq!(out[0].title, "cached");
    assert_eq!(out[0].source.as_deref(), Some("search"));
    assert_eq!(out[1].title, "fetched");
    assert!(out[1].source.is_none());
    assert_eq!(out[2].title, "Track 3");
    assert_eq!(out[2].quality, "LOSSLESS");
    assert_eq!(out[2].source.as_deref(), Some("album"));
}

#[test]
fn liked_placeholders_have_no_metadata() {
    let out = liked_placeholders(&vec![4, 5]);
    assert_eq!(out.len(), 2);
    assert_eq!(out[1].id, 5);
    assert_eq!(out[1].title, "");
    assert_eq!(out[1].source.as_deref(), Some("liked"));
}

#[test]
fn queue_event_lists_current_first() {
    match queue_event(Some(track(9, "now")), vec![track(1, "a"), track(2, "b")]) {
        MonoEvent::Queue { tracks, current_index } => {
            let ids: Vec<u64> = tracks.iter().map(|t| t.id).collect();
            assert_eq!(ids, vec![9, 1, 2]);
            assert_eq!(current_index, Some(0));
        }
        other => panic!("unexpected {:?}", other),
    }
    match queue_event(None, vec![track(1, "a")]) {
        MonoEvent::Queue { tracks, current_index } => {
            assert_eq!(tracks.len(), 1);
            assert_eq!(current_index, None);
        }
        other => panic!("unexpected {:?}", other),
    }
}

#[test]
fn track_links_from_template() {
    assert_eq!(track_url(&Some("https://x/track/{}".to_owned()), 42).as_deref(), Some("https://x/track/42"));
    assert_eq!(track_url(&Some("{}-{}".to_owned()), 7).as_deref(), Some("7-7"));
    assert_eq!(track_url(&Some("{{}}".to_owned()), 1).as_deref(), Some("{1}"));
    assert_eq!(track_url(&Some("plain".to_owned()), 1).as_deref(), Some("plain"));
    assert_eq!(track_url(&None, 1), None);
    // Agrees with `str::replace` on these templates.
    for tpl in ["a{}b{}c", "{}", "}{", "{{}"] {
        assert_eq!(track_url(&Some(tpl.to_owned()), 99).unwrap(), tpl.replace("{}", "99"));
    }
}

#[test]
fn download_names_are_sanitized() {
    assert_eq!(sanitize("AC/DC: Live\\Set"), "AC_DC_ Live_Set");
    let (a, b, f) = download_names("AC/DC", "Back: in Black", "Hells Bells", "flac");
    assert_eq!(a, "AC_DC");
    assert_eq!(b, "Back_ in Black");
    assert_eq!(f, "Hells Bells.flac");
}

#[test]
fn search_limit_defaults_and_caps() {
    assert_eq!(search_limit(None), 25);
    assert_eq!(search_limit(Some(10)), 10);
    assert_eq!(search_limit(Some(500)), 500);
    assert_eq!(search_limit(Some(9000)), 500);
}

#[test]
fn download_labels_fall_back_to_unknown() {
    let (t, a, b) = plexus_music::queueing::download_labels(5, &Some(track_event(5)));
    assert_eq!((t.as_str(), a.as_str(), b.as_str()), ("Real", "Singer", "Disc"));
    let (t, a, b) = plexus_music::queueing::download_labels(6, &None);
    assert_eq!((t.as_str(), a.as_str(), b.as_str()), ("Track 6", "Unknown", "Unknown"));
}

#[test]
fn manifest_extension_defaults_to_flac() {
    let m = MonoEvent::StreamManifest {
        id: 1,
        url: String::new(),
        mime_type: "audio/mp4".to_owned(),
        codecs: String::new(),
        quality: String::new(),
        bit_depth: None,
        sample_rate: None,
        extension: "m4a".to_owned(),
    };
    assert_eq!(plexus_music::queueing::manifest_extension(&m), "m4a");
    assert_eq!(plexus_music::queueing::manifest_extension(&MonoEvent::Error { message: String::new() }), "flac");
}

#[test]
fn request_defaults() {
    assert_eq!(requested_or_current(Some(3), &Some(track(9, "x"))), Some(3));
    assert_eq!(requested_or_current(None, &Some(track(9, "x"))), Some(9));
    assert_eq!(requested_or_current(None, &None), None);
    assert_eq!(quality_or_default(None), "LOSSLESS");
    assert_eq!(quality_or_default(Some("HIGH".to_owned())), "HIGH");
    assert_eq!(stats_limit(None), 10);
    assert_eq!(stats_limit(Some(3)), 3);
    assert_eq!(cover_size(None), 1280);
    assert_eq!(cover_size(Some(0)), 0);
}
