use plexus_music::acks::{Ack, PlaylistAck};
use plexus_music::proxy::ProxyFailure;
use plexus_music::sanity::{
    cover_result, ping_result, sanity_fail, sanity_ok, search_result, stream_result, track_result,
    SANITY_TRACK_ID,
};
use plexus_music::types::MonoEvent;

fn ack(e: MonoEvent) -> (String, String) {
    match e {
        MonoEvent::PlayerAck { action, message } => (action, message),
        other => panic!("unexpected {:?}", other),
    }
}

fn pair(a: &str, m: &str) -> (String, String) {
    (a.to_owned(), m.to_owned())
}

#[test]
fn player_acknowledgements() {
    assert_eq!(ack(Ack::Play { id: 55 }.event()), pair("play", "playing track 55"));
    assert_eq!(ack(Ack::Pause.event()), pair("pause", "playback paused"));
    assert_eq!(ack(Ack::Resume.event()), pair("resume", "playback resumed"));
    assert_eq!(ack(Ack::Stop.event()), pair("stop", "playback stopped"));
    assert_eq!(ack(Ack::Next.event()), pair("next", "skipped to next track"));
    assert_eq!(ack(Ack::Previous.event()), pair("previous", "went to previous track"));
    assert_eq!(ack(Ack::QueueAlbum { count: 12 }.event()), pair("queue_album", "12 tracks queued"));
    assert_eq!(ack(Ack::QueueAdd { id: 9 }.event()), pair("queue_add", "track 9 added to queue"));
    assert_eq!(ack(Ack::QueueBatch { count: 0 }.event()), pair("queue_batch", "0 tracks queued"));
    assert_eq!(ack(Ack::QueueClear.event()), pair("queue_clear", "queue cleared"));
    assert_eq!(
        ack(Ack::QueueReorder { from: 3, to: 0 }.event()),
        pair("queue_reorder", "moved track from position 3 to 0")
    );
    assert_eq!(ack(Ack::HistoryClear.event()), pair("history_clear", "listen history cleared"));
    assert_eq!(ack(Ack::Like { id: 4, liked: true }.event()), pair("like", "liked track 4"));
    assert_eq!(ack(Ack::Like { id: 4, liked: false }.event()), pair("like", "unliked track 4"));
    assert_eq!(
        ack(Ack::DeleteDownload { id: 8, path: Some("/m/a.flac".to_owned()) }.event()),
        pair("delete_download", "deleted download: /m/a.flac")
    );
    assert_eq!(
        ack(Ack::DeleteDownload { id: 8, path: None }.event()),
        pair("delete_download", "track 8 was not downloaded")
    );
}

#[test]
fn playlist_acknowledgements() {
    let s = |x: &str| x.to_owned();
    assert_eq!(
        ack(PlaylistAck::Created { name: s("mix"), count: 3 }.event()),
        pair("playlist_create", "created playlist 'mix' with 3 tracks")
    );
    assert_eq!(
        ack(PlaylistAck::Created { name: s("mix"), count: 0 }.event()),
        pair("playlist_create", "created playlist 'mix'")
    );
    assert_eq!(ack(PlaylistAck::NoneFound.event()), pair("playlist_list", "no playlists found"));
    assert_eq!(ack(PlaylistAck::Deleted { name: s("a") }.event()), pair("playlist_delete", "deleted playlist 'a'"));
    assert_eq!(
        ack(PlaylistAck::Renamed { name: s("a"), new_name: s("b") }.event()),
        pair("playlist_rename", "renamed 'a' to 'b'")
    );
    assert_eq!(
        ack(PlaylistAck::Added { title: s("Song"), name: s("a") }.event()),
        pair("playlist_add", "added 'Song' to playlist 'a'")
    );
    assert_eq!(
        ack(PlaylistAck::Removed { title: s("Song"), name: s("a") }.event()),
        pair("playlist_remove", "removed 'Song' from playlist 'a'")
    );
    assert_eq!(
        ack(PlaylistAck::Described { name: s("a") }.event()),
        pair("playlist_describe", "updated description for playlist 'a'")
    );
    assert_eq!(
        ack(PlaylistAck::Moved { title: s("Song"), from: 2, to: 5 }.event()),
        pair("playlist_reorder", "moved 'Song' from position 2 to 5")
    );
    assert_eq!(
        ack(PlaylistAck::Playing { name: s("a"), count: 7 }.event()),
        pair("playlist_play", "playing playlist 'a' (7 tracks)")
    );
    assert_eq!(
        ack(PlaylistAck::Saved { name: s("a"), count: 2 }.event()),
        pair("playlist_save", "saved 2 tracks as playlist 'a'")
    );
    assert_eq!(
        ack(PlaylistAck::ResearchSaved { name: s("a") }.event()),
        pair("research_save", "saved research for 'a'")
    );
}

fn sanity(e: MonoEvent) -> (String, bool, u64, String) {
    match e {
        MonoEvent::SanityResult { check, passed, duration_ms, message } => (check, passed, duration_ms, message),
        other => panic!("unexpected {:?}", other),
    }
}

#[test]
fn sanity_checks_report_outcomes() {
    assert_eq!(SANITY_TRACK_ID, 58990516);
    assert_eq!(sanity(sanity_ok("x", 3, "fine".to_owned())), ("x".to_owned(), true, 3, "fine".to_owned()));
    assert_eq!(sanity(sanity_fail("x", 4, "bad".to_owned())), ("x".to_owned(), false, 4, "bad".to_owned()));
    assert_eq!(
        sanity(ping_result(12, Ok(("200 OK".to_owned(), "https://api".to_owned())))),
        ("ping".to_owned(), true, 12, "HTTP 200 OK from https://api".to_owned())
    );
    assert_eq!(
        sanity(ping_result(12, Err("dns".to_owned()))),
        ("ping".to_owned(), false, 12, "connection failed: dns".to_owned())
    );
    let track = MonoEvent::Track {
        id: 1,
        title: "Karma Police".to_owned(),
        artist: "Radiohead".to_owned(),
        album: "OK Computer".to_owned(),
        album_id: 2,
        duration_secs: 264,
        track_number: None,
        release_date: None,
        audio_quality: None,
        cover_id: None,
    };
    assert_eq!(sanity(track_result(5, Ok(track))).3, "Radiohead \u{2014} Karma Police");
    assert_eq!(sanity(track_result(5, Ok(MonoEvent::Error { message: String::new() }))).3, "got response");
    assert_eq!(sanity(track_result(5, Err("boom".to_owned()))), ("track".to_owned(), false, 5, "boom".to_owned()));
    assert_eq!(sanity(search_result(6, Ok(1))), ("search".to_owned(), true, 6, "1 result(s)".to_owned()));
    assert_eq!(sanity(search_result(6, Err("e".to_owned()))).1, false);
    let manifest = MonoEvent::StreamManifest {
        id: 1,
        url: "u".to_owned(),
        mime_type: "audio/flac".to_owned(),
        codecs: "flac".to_owned(),
        quality: "LOSSLESS".to_owned(),
        bit_depth: None,
        sample_rate: None,
        extension: "flac".to_owned(),
    };
    assert_eq!(sanity(stream_result(7, Ok(manifest))).3, "resolved LOSSLESS manifest");
    assert_eq!(sanity(stream_result(7, Ok(MonoEvent::Error { message: String::new() }))).3, "got manifest");
    assert_eq!(sanity(cover_result(8, Ok(3))), ("cover".to_owned(), true, 8, "3 size(s) returned".to_owned()));
    assert_eq!(sanity(cover_result(8, Err("none".to_owned()))), ("cover".to_owned(), false, 8, "none".to_owned()));
}

#[test]
fn proxy_failures_map_to_http_answers() {
    let cases = vec![
        (ProxyFailure::ManifestError { message: "no manifest".to_owned() }, 502, "no manifest"),
        (ProxyFailure::ManifestTimeout, 504, "manifest timed out"),
        (ProxyFailure::UnexpectedManifest, 500, "unexpected manifest type"),
        (ProxyFailure::CdnStatus { status: "404 Not Found".to_owned() }, 502, "CDN returned 404 Not Found"),
        (ProxyFailure::CdnFetch { error: "reset".to_owned() }, 502, "CDN fetch failed: reset"),
        (ProxyFailure::CdnTimeout, 504, "CDN fetch timed out"),
        (ProxyFailure::CdnRead { error: "eof".to_owned() }, 502, "CDN read failed: eof"),
    ];
    for (f, code, body) in cases {
        assert_eq!(f.status_code(), code);
        assert_eq!(f.body(), body);
    }
}
