use plexus_music::stats::StatsStore;
use plexus_music::types::{ListenEvent, ListenOutcome, QueuedTrack, TrackStats};

fn track(id: u64, title: &str) -> QueuedTrack {
    QueuedTrack {
        id,
        title: title.to_owned(),
        artist: "Artist".to_owned(),
        album: "Album".to_owned(),
        duration_secs: 180,
        quality: "LOSSLESS".to_owned(),
        cover_id: None,
        source: None,
    }
}

fn entry(id: u64, plays: u32) -> TrackStats {
    TrackStats {
        id,
        title: format!("T{id}"),
        artist: String::new(),
        album: String::new(),
        play_count: plays,
        complete_count: 0,
        skip_count: 0,
        total_listen_ms: 0,
        first_played: "a".to_owned(),
        last_played: "b".to_owned(),
    }
}

#[test]
fn first_play_creates_an_entry() {
    let mut s = StatsStore::new();
    assert!(s.get_track_stats(1).is_none());
    let at = s.record_start(&track(1, "One"), "2024-01-01T00:00:00Z".to_owned());
    assert_eq!(at, "2024-01-01T00:00:00Z");
    let e = s.get_track_stats(1).unwrap();
    assert_eq!(e.id, 1);
    assert_eq!(e.title, "One");
    assert_eq!(e.play_count, 1);
    assert_eq!(e.complete_count, 0);
    assert_eq!(e.skip_count, 0);
    assert_eq!(e.total_listen_ms, 0);
    assert_eq!(e.first_played, "2024-01-01T00:00:00Z");
    assert_eq!(e.last_played, "2024-01-01T00:00:00Z");
    assert!(s.get_listen_log().is_empty());
}

#[test]
fn repeated_plays_update_counts_and_metadata() {
    let mut s = StatsStore::new();
    s.record_start(&track(1, "Old title"), "t1".to_owned());
    s.record_start(&track(1, "New title"), "t2".to_owned());
    let e = s.get_track_stats(1).unwrap();
    assert_eq!(e.play_count, 2);
    assert_eq!(e.title, "New title");
    assert_eq!(e.first_played, "t1");
    assert_eq!(e.last_played, "t2");
}

#[test]
fn listen_outcomes_are_counted() {
    let mut s = StatsStore::new();
    s.record_start(&track(1, "x"), "t1".to_owned());
    s.record_end(1, "t1".to_owned(), 1500, ListenOutcome::Complete);
    s.record_start(&track(1, "x"), "t2".to_owned());
    s.record_end(1, "t2".to_owned(), 500, ListenOutcome::Skip);
    s.record_start(&track(1, "x"), "t3".to_owned());
    s.record_end(1, "t3".to_owned(), 250, ListenOutcome::Stop);
    let e = s.get_track_stats(1).unwrap();
    assert_eq!(e.play_count, 3);
    assert_eq!(e.complete_count, 1);
    assert_eq!(e.skip_count, 1);
    assert_eq!(e.total_listen_ms, 2250);
    let log = s.get_listen_log();
    assert_eq!(log.len(), 3);
    assert_eq!(log[0].outcome, ListenOutcome::Complete);
    assert_eq!(log[2].duration_listened_ms, 250);
}

#[test]
fn listen_time_saturates() {
    let mut base = entry(1, 1);
    base.total_listen_ms = u64::MAX - 10;
    let mut s = StatsStore::from_parts(vec![base], vec![]);
    s.record_end(1, "t".to_owned(), 100, ListenOutcome::Stop);
    assert_eq!(s.get_track_stats(1).unwrap().total_listen_ms, u64::MAX);
}

#[test]
fn ending_an_unknown_track_only_logs() {
    let mut s = StatsStore::new();
    s.record_end(42, "t".to_owned(), 10, ListenOutcome::Skip);
    assert!(s.get_track_stats(42).is_none());
    assert_eq!(s.get_listen_log().len(), 1);
}

#[test]
fn recent_listens_newest_first() {
    let mut s = StatsStore::new();
    for i in 0..5u64 {
        s.record_end(i, format!("t{i}"), i * 10, ListenOutcome::Complete);
    }
    let recent: Vec<u64> = s.get_recent_listens(3).iter().map(|e| e.track_id).collect();
    assert_eq!(recent, vec![4, 3, 2]);
    let all: Vec<u64> = s.get_recent_listens(50).iter().map(|e| e.track_id).collect();
    assert_eq!(all, vec![4, 3, 2, 1, 0]);
    assert!(s.get_recent_listens(0).is_empty());
}

#[test]
fn clearing_the_log_keeps_stats() {
    let mut s = StatsStore::new();
    s.record_start(&track(3, "x"), "t".to_owned());
    s.record_end(3, "t".to_owned(), 1, ListenOutcome::Complete);
    s.clear_listen_log();
    assert!(s.get_listen_log().is_empty());
    assert_eq!(s.get_track_stats(3).unwrap().complete_count, 1);
}

#[test]
fn top_tracks_by_play_count() {
    let s = StatsStore::from_parts(
        vec![entry(1, 5), entry(2, 9), entry(3, 1), entry(4, 7)],
        vec![],
    );
    let top: Vec<u64> = s.get_top_tracks(3).iter().map(|e| e.id).collect();
    assert_eq!(top, vec![2, 4, 1]);
    let all: Vec<u32> = s.get_top_tracks(10).iter().map(|e| e.play_count).collect();
    assert_eq!(all, vec![9, 7, 5, 1]);
    assert!(s.get_top_tracks(0).is_empty());
}

#[test]
fn from_parts_later_entry_wins_and_log_is_kept() {
    let log = vec![ListenEvent {
        track_id: 1,
        started_at: "t".to_owned(),
        duration_listened_ms: 3,
        outcome: ListenOutcome::Stop,
    }];
    let s = StatsStore::from_parts(vec![entry(1, 2), entry(1, 6)], log);
    assert_eq!(s.get_track_stats(1).unwrap().play_count, 6);
    assert_eq!(s.get_listen_log().len(), 1);
    let mut ids = s.ids();
    ids.sort();
    assert_eq!(ids, vec![1]);
}
