use plexus_music::catalog::CatalogError;
use plexus_music::lyrics::{lyrics, parse_lrc, parse_lrc_timestamp, plain_lyrics, RawLyrics};
use plexus_music::types::MonoEvent;

fn lines(events: &[MonoEvent]) -> Vec<(Option<u64>, String)> {
    events
        .iter()
        .map(|e| match e {
            MonoEvent::LyricLine { timestamp_ms, text } => (*timestamp_ms, text.clone()),
            other => panic!("unexpected {:?}", other),
        })
        .collect()
}

#[test]
fn timestamp_minutes_seconds_centiseconds() {
    assert_eq!(parse_lrc_timestamp("01:00.66"), Some(60_660));
    assert_eq!(parse_lrc_timestamp("00:12.50"), Some(12_500));
    assert_eq!(parse_lrc_timestamp("3:04"), Some(184_000));
    assert_eq!(parse_lrc_timestamp("00:01.xx"), Some(1_000));
    assert_eq!(parse_lrc_timestamp("00:01.5"), Some(1_050));
}

#[test]
fn timestamp_failures() {
    assert_eq!(parse_lrc_timestamp("0012"), None);
    assert_eq!(parse_lrc_timestamp("ab:12.00"), None);
    assert_eq!(parse_lrc_timestamp("00:zz.00"), None);
    assert_eq!(parse_lrc_timestamp(""), None);
    assert_eq!(parse_lrc_timestamp(":"), None);
}

#[test]
fn lrc_lines_are_parsed() {
    let text = "[00:01.00] Hello\n\n  [00:02.50]World  \r\nplain line\n[bad] odd\n[no close";
    assert_eq!(
        lines(&parse_lrc(text)),
        vec![
            (Some(1_000), "Hello".to_owned()),
            (Some(2_500), "World".to_owned()),
            (None, "plain line".to_owned()),
            (None, "odd".to_owned()),
        ]
    );
    assert!(parse_lrc("").is_empty());
    assert!(parse_lrc("\n  \n").is_empty());
}

#[test]
fn plain_lyrics_keep_every_line() {
    assert_eq!(
        lines(&plain_lyrics("a\n\n b ")),
        vec![(None, "a".to_owned()), (None, String::new()), (None, " b ".to_owned())]
    );
}

#[test]
fn lyrics_prefer_synced_text() {
    let both = RawLyrics { subtitles: Some("[00:00.10] x".to_owned()), plain: Some("y".to_owned()) };
    assert_eq!(lines(&lyrics(&both).unwrap()), vec![(Some(100), "x".to_owned())]);
    let plain = RawLyrics { subtitles: None, plain: Some("y\nz".to_owned()) };
    assert_eq!(lines(&lyrics(&plain).unwrap()), vec![(None, "y".to_owned()), (None, "z".to_owned())]);
    let none = RawLyrics { subtitles: None, plain: None };
    assert!(matches!(lyrics(&none), Err(CatalogError::NoLyrics)));
}

#[test]
fn written_timestamps_read_back() {
    for (mm, ss, cc) in [(0u64, 0u64, 0u64), (1, 0, 66), (12, 59, 99), (123, 7, 5)] {
        let full = format!("{mm}:{ss}.{cc}");
        assert_eq!(parse_lrc_timestamp(&full), Some(mm * 60_000 + ss * 1_000 + cc * 10), "{full}");
        let short = format!("{mm}:{ss}");
        assert_eq!(parse_lrc_timestamp(&short), Some(mm * 60_000 + ss * 1_000), "{short}");
    }
}
