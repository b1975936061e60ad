use plexus_music::config::MusicServerConfig;
use plexus_music::peaks::{level_window_size, PeakHistory};
use plexus_music::progress::{ProgressCounter, CHUNK_REPORT};
use plexus_music::shuffle::ShufflePool;
use plexus_music::types::{copy_opt_string, ListenOutcome, PlayStatus, QueuedTrack, SearchKind};

#[test]
fn shuffle_pool_lifecycle() {
    let mut pool = ShufflePool::new();
    assert!(!pool.is_active());
    assert_eq!(pool.pick_next(7), None);
    pool.start(vec![1, 2, 3]);
    assert!(pool.is_active());
    assert_eq!(pool.pool_len(), 3);
    assert_eq!(pool.played_len(), 0);
    assert_eq!(pool.available(), vec![1, 2, 3]);
    pool.stop();
    assert!(!pool.is_active());
    assert_eq!(pool.pool_len(), 0);
}

#[test]
fn pick_at_takes_unplayed_entries_in_pool_order() {
    let mut pool = ShufflePool::new();
    pool.start(vec![5, 6, 7]);
    assert_eq!(pool.pick_next_at(1), Some(6));
    assert_eq!(pool.available(), vec![5, 7]);
    assert_eq!(pool.pick_next_at(1), Some(7));
    assert_eq!(pool.pick_next_at(0), Some(5));
    assert!(pool.available().is_empty());
    assert_eq!(pool.played_len(), 3);
    // Everything was played: the played set starts over with this pick.
    assert_eq!(pool.pick_next_at(2), Some(7));
    assert_eq!(pool.played_len(), 1);
    assert_eq!(pool.available(), vec![5, 6]);
}

#[test]
fn random_picks_cover_the_pool_without_repeats() {
    let mut pool = ShufflePool::new();
    pool.start(vec![10, 20, 30, 40, 50]);
    let draws: [u64; 5] = [u64::MAX, 3, 17, 0, 9];
    let mut picked: Vec<u64> = draws.iter().map(|d| pool.pick_next(*d).unwrap()).collect();
    picked.sort();
    assert_eq!(picked, vec![10, 20, 30, 40, 50]);
}

#[test]
fn pick_with_draw_takes_draw_modulo_candidates() {
    let mut pool = ShufflePool::new();
    pool.start(vec![5, 6, 7]);
    // Three candidates: 4 % 3 == 1 picks the second.
    assert_eq!(pool.pick_next(4), Some(6));
    // Candidates now [5, 7]: 3 % 2 == 1.
    assert_eq!(pool.pick_next(3), Some(7));
    assert_eq!(pool.pick_next(100), Some(5));
    // Exhausted: the whole pool again, 5 % 3 == 2.
    assert_eq!(pool.pick_next(5), Some(7));
    assert_eq!(pool.played_len(), 1);
}

#[test]
fn peak_history_keeps_latest_values() {
    let mut h: PeakHistory<u32> = PeakHistory::new(3);
    assert_eq!(h.snapshot(), (None, vec![]));
    for v in 1..=4u32 {
        h.push(v, Some(9));
    }
    assert_eq!(h.snapshot(), (Some(9), vec![2, 3, 4]));
    h.push(7, Some(10));
    assert_eq!(h.snapshot(), (Some(10), vec![7]));
    h.push(8, None);
    assert_eq!(h.snapshot(), (None, vec![8]));
}

#[test]
fn level_window_is_a_thirtieth_of_a_second() {
    assert_eq!(level_window_size(44100, 2), 2940);
    assert_eq!(level_window_size(48000, 1), 1600);
    assert_eq!(level_window_size(10, 1), 1);
    assert_eq!(level_window_size(0, 0), 1);
}

#[test]
fn progress_reports_every_quarter_mebibyte() {
    assert_eq!(CHUNK_REPORT, 256 * 1024);
    let mut p = ProgressCounter::new();
    assert!(!p.on_chunk(100_000));
    assert!(!p.on_chunk(100_000));
    assert!(p.on_chunk(62_144));
    assert_eq!(p.since_last_report, 0);
    assert_eq!(p.bytes_downloaded, 262_144);
    assert!(!p.on_chunk(1));
    assert_eq!(p.since_last_report, 1);
    assert!(p.on_chunk(300_000));
    assert_eq!(p.bytes_downloaded, 562_145);
}

fn config(port: u16, audio_port: Option<u16>) -> MusicServerConfig {
    MusicServerConfig {
        hub_name: "music".to_owned(),
        port,
        stdio: false,
        mcp: true,
        audio_port,
        db_path: "db".to_owned(),
        data_dir: "data".to_owned(),
        track_url_template: None,
    }
}

#[test]
fn ports_derive_from_the_websocket_port() {
    assert_eq!(config(4444, None).effective_audio_port(), 4446);
    assert_eq!(config(4444, Some(9000)).effective_audio_port(), 9000);
    assert_eq!(config(4444, None).mcp_port(), 4445);
}

#[test]
fn default_paths() {
    assert_eq!(MusicServerConfig::default_db_path("/tmp/x"), "/tmp/x/mono.db");
    assert_eq!(MusicServerConfig::default_db_path("/tmp/x/"), "/tmp/x/mono.db");
    assert_eq!(MusicServerConfig::default_db_path(""), "mono.db");
    assert_eq!(
        MusicServerConfig::default_data_dir(Some("/home/u".to_owned()), "music"),
        "/home/u/.plexus/music"
    );
    assert_eq!(
        MusicServerConfig::default_data_dir(Some("/home/u/".to_owned()), "music"),
        "/home/u/.plexus/music"
    );
    assert_eq!(MusicServerConfig::default_data_dir(None, "music"), "./.plexus/music");
    let d = MusicServerConfig::default_data_dir(Some("/home/u".to_owned()), "monochrome");
    assert_eq!(MusicServerConfig::default_db_path(&d), "/home/u/.plexus/monochrome/mono.db");
}

#[test]
fn value_types() {
    assert_eq!(SearchKind::default(), SearchKind::Tracks);
    assert_ne!(PlayStatus::Idle, PlayStatus::Stopped);
    assert_ne!(ListenOutcome::Skip, ListenOutcome::Stop);
    assert_eq!(copy_opt_string(&Some("a".to_owned())), Some("a".to_owned()));
    assert_eq!(copy_opt_string(&None), None);
    let t = QueuedTrack {
        id: 1,
        title: "t".to_owned(),
        artist: "a".to_owned(),
        album: "b".to_owned(),
        duration_secs: 2,
        quality: "q".to_owned(),
        cover_id: Some("c".to_owned()),
        source: None,
    };
    let c = t.clone();
    assert_eq!((c.id, c.title.as_str(), c.cover_id.as_deref()), (1, "t", Some("c")));
}

#[test]
fn unreported_bytes_stay_below_the_step() {
    let mut p = ProgressCounter::new();
    let mut total: u64 = 0;
    for len in [1u64, 100_000, 262_143, 5, 262_144, 0, 70_000, 900_000] {
        p.on_chunk(len);
        total += len;
        assert!(p.since_last_report < CHUNK_REPORT);
        assert_eq!(p.bytes_downloaded, total);
    }
}
