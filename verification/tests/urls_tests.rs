use plexus_music::types::SearchKind;
use plexus_music::urls::{
    album_path, artist_path, cover_path, id_path, info_path, lyrics_path, mime_from_ext,
    mime_to_ext, recommendations_path, request_url, search_path, stream_path, url_encode,
};

#[test]
fn url_encode_keeps_unreserved_and_escapes_the_rest() {
    assert_eq!(url_encode("abcXYZ019-_.~"), "abcXYZ019-_.~");
    assert_eq!(url_encode("daft punk"), "daft+punk");
    assert_eq!(url_encode("a&b=c/d?"), "a%26b%3dc%2fd%3f");
    assert_eq!(url_encode("é"), "%c3%a9");
    assert_eq!(url_encode(""), "");
}

#[test]
fn encoded_text_is_query_safe() {
    let out = url_encode("Sigur Rós — Hoppípolla & 100% /?#");
    assert!(out
        .chars()
        .all(|c| c.is_ascii_alphanumeric() || "-_.~+%".contains(c)));
}

#[test]
fn search_paths_per_kind() {
    assert_eq!(search_path("daft punk", SearchKind::Tracks, 25, 0), "/search/?s=daft+punk&limit=25&offset=0");
    assert_eq!(search_path("x", SearchKind::Albums, 10, 5), "/search/?al=x&limit=10&offset=5");
    assert_eq!(search_path("y z", SearchKind::Artists, 1, 2), "/search/?a=y+z&limit=1&offset=2");
}

#[test]
fn id_paths() {
    assert_eq!(id_path("/x/?id=", 7), "/x/?id=7");
    assert_eq!(info_path(12), "/info/?id=12");
    assert_eq!(album_path(3), "/album/?id=3");
    assert_eq!(artist_path(4), "/artist/?id=4");
    assert_eq!(lyrics_path(5), "/lyrics/?id=5");
    assert_eq!(recommendations_path(6), "/recommendations/?id=6");
    assert_eq!(cover_path(8), "/cover/?id=8");
    assert_eq!(stream_path(9, "LOSSLESS"), "/track/?id=9&quality=LOSSLESS");
    assert_eq!(request_url("https://api.example", "/info/?id=1"), "https://api.example/info/?id=1");
}

#[test]
fn mime_type_to_extension() {
    assert_eq!(mime_to_ext("audio/flac"), "flac");
    assert_eq!(mime_to_ext("audio/mp4"), "m4a");
    assert_eq!(mime_to_ext("audio/m4a"), "m4a");
    assert_eq!(mime_to_ext("audio/mpeg"), "mp3");
    assert_eq!(mime_to_ext("audio/ogg"), "ogg");
    assert_eq!(mime_to_ext("audio/webm"), "webm");
    assert_eq!(mime_to_ext("video/mp4"), "audio");
    assert_eq!(mime_to_ext(""), "audio");
}

#[test]
fn extension_to_mime_type() {
    assert_eq!(mime_from_ext(Some("flac")), "audio/flac");
    assert_eq!(mime_from_ext(Some("m4a")), "audio/mp4");
    assert_eq!(mime_from_ext(Some("aac")), "audio/mp4");
    assert_eq!(mime_from_ext(Some("mp3")), "audio/mpeg");
    assert_eq!(mime_from_ext(Some("ogg")), "audio/ogg");
    assert_eq!(mime_from_ext(Some("wav")), "audio/wav");
    assert_eq!(mime_from_ext(Some("webm")), "application/octet-stream");
    assert_eq!(mime_from_ext(None), "application/octet-stream");
}
