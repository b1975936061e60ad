use plexus_music::playback::{secs_to_ms_exec, DrainStep, PlaybackState, QueueError, ShuffleError};
use plexus_music::stats::StatsStore;
use plexus_music::types::{ListenOutcome, PlayStatus, QueuedTrack};

fn track(id: u64) -> QueuedTrack {
    QueuedTrack {
        id,
        title: format!("Track {id}"),
        artist: "Artist".to_owned(),
        album: "Album".to_owned(),
        duration_secs: 100 + id,
        quality: "LOSSLESS".to_owned(),
        cover_id: None,
        source: None,
    }
}

fn ids(v: &[QueuedTrack]) -> Vec<u64> {
    v.iter().map(|t| t.id).collect()
}

fn queue_ids(p: &PlaybackState) -> Vec<u64> {
    ids(&p.queue_snapshot().1)
}

/// A player that is playing track 1 with tracks 2 and 3 queued.
fn playing_one_of_three() -> PlaybackState {
    let mut p = PlaybackState::new();
    let first = p.enqueue_all(&vec![track(1), track(2), track(3)]).expect("idle player starts directly");
    p.begin_playback(first, "t0".to_owned());
    p.mark_playing();
    p
}

#[test]
fn new_player_is_idle_and_empty() {
    let p = PlaybackState::new();
    assert_eq!(p.status(), PlayStatus::Idle);
    assert!(p.current().is_none());
    assert_eq!(p.queue_len(), 0);
    assert!(p.history().is_empty());
    assert!(p.starts_directly());
    assert!(!p.was_playing());
    assert_eq!(p.shuffle_status(), (false, 0, 0));
}

#[test]
fn idle_player_starts_enqueued_track_directly() {
    let mut p = PlaybackState::new();
    let started = p.enqueue_back(track(5));
    assert_eq!(started.map(|t| t.id), Some(5));
    assert_eq!(p.queue_len(), 0);
    let started = p.enqueue_front(track(6));
    assert_eq!(started.map(|t| t.id), Some(6));
    assert_eq!(p.queue_len(), 0);
}

#[test]
fn enqueue_all_on_idle_player_starts_first_and_queues_rest() {
    let p = playing_one_of_three();
    assert_eq!(p.current().map(|t| t.id), Some(1));
    assert_eq!(queue_ids(&p), vec![2, 3]);
    assert_eq!(p.status(), PlayStatus::Playing);
    assert!(p.was_playing());
}

#[test]
fn enqueue_front_plays_next_and_back_plays_last() {
    let mut p = playing_one_of_three();
    assert!(p.enqueue_front(track(9)).is_none());
    assert!(p.enqueue_back(track(8)).is_none());
    assert_eq!(queue_ids(&p), vec![9, 2, 3, 8]);
    assert_eq!(p.advance().map(|t| t.id), Some(9));
}

#[test]
fn enqueue_all_on_busy_player_queues_everything() {
    let mut p = playing_one_of_three();
    assert!(p.enqueue_all(&vec![track(7), track(8)]).is_none());
    assert_eq!(queue_ids(&p), vec![2, 3, 7, 8]);
}

#[test]
fn advance_retires_current_and_takes_head() {
    let mut p = playing_one_of_three();
    let next = p.advance();
    assert_eq!(next.map(|t| t.id), Some(2));
    assert!(p.current().is_none());
    assert_eq!(ids(&p.history()), vec![1]);
    assert_eq!(queue_ids(&p), vec![3]);
}

#[test]
fn advance_on_empty_queue_goes_idle() {
    let mut p = PlaybackState::new();
    p.begin_playback(track(1), "t".to_owned());
    assert!(p.advance().is_none());
    assert_eq!(p.status(), PlayStatus::Idle);
    assert_eq!(ids(&p.history()), vec![1]);
}

#[test]
fn previous_undoes_next() {
    let mut p = playing_one_of_three();
    let next = p.advance().unwrap();
    p.begin_playback(next, "t1".to_owned());
    let back = p.step_back();
    assert_eq!(back.map(|t| t.id), Some(1));
    // Track 2 went back to the head of the queue, the history is empty again.
    assert_eq!(queue_ids(&p), vec![2, 3]);
    assert!(p.history().is_empty());
    assert!(p.current().is_none());
}

#[test]
fn step_back_without_history_keeps_current_queued() {
    let mut p = PlaybackState::new();
    p.begin_playback(track(4), "t".to_owned());
    assert!(p.step_back().is_none());
    assert_eq!(queue_ids(&p), vec![4]);
}

#[test]
fn restart_threshold_is_five_seconds() {
    assert!(!PlaybackState::restarts_current(0));
    assert!(!PlaybackState::restarts_current(5_000_000_000));
    assert!(PlaybackState::restarts_current(5_000_000_001));
}

#[test]
fn pause_and_resume() {
    let mut p = playing_one_of_three();
    p.pause();
    assert_eq!(p.status(), PlayStatus::Paused);
    p.pause();
    assert_eq!(p.status(), PlayStatus::Paused);
    p.resume();
    assert_eq!(p.status(), PlayStatus::Playing);
    p.resume();
    assert_eq!(p.status(), PlayStatus::Playing);

    let mut idle = PlaybackState::new();
    idle.pause();
    assert_eq!(idle.status(), PlayStatus::Idle);
    idle.resume();
    assert_eq!(idle.status(), PlayStatus::Idle);
}

#[test]
fn stop_retires_current_and_keeps_queue() {
    let mut p = playing_one_of_three();
    p.stop();
    assert_eq!(p.status(), PlayStatus::Stopped);
    assert!(p.current().is_none());
    assert_eq!(ids(&p.history()), vec![1]);
    assert_eq!(queue_ids(&p), vec![2, 3]);
    assert!(p.starts_directly());
}

#[test]
fn take_listen_ends_the_session_once() {
    let mut p = playing_one_of_three();
    assert_eq!(p.take_listen(), Some((1, "t0".to_owned())));
    assert_eq!(p.take_listen(), None);
}

#[test]
fn drained_output_advances_with_a_complete_listen() {
    let mut p = playing_one_of_three();
    match p.on_output_drained() {
        DrainStep::Advance { finished: Some(f), next } => {
            assert_eq!(f.track_id, 1);
            assert_eq!(f.started_at, "t0");
            assert_eq!(f.listened_ms, 101_000);
            assert_eq!(next.id, 2);
        }
        _ => panic!("expected an advance with a finished listen"),
    }
    assert_eq!(p.status(), PlayStatus::Buffering);
    assert_eq!(ids(&p.history()), vec![1]);
    assert_eq!(queue_ids(&p), vec![3]);
}

#[test]
fn auto_advance_records_the_listen_and_starts_the_next_track() {
    let mut p = playing_one_of_three();
    let mut stats = StatsStore::new();
    stats.record_start(&track(1), "t0".to_owned());
    let step = p.on_output_drained();
    let next = match step {
        DrainStep::Advance { finished: Some(f), next } => {
            stats.record_end(f.track_id, f.started_at, f.listened_ms, ListenOutcome::Complete);
            next
        }
        _ => panic!("expected an advance with a finished listen"),
    };
    p.begin_playback(next, "t1".to_owned());
    assert_eq!(p.current().map(|t| t.id), Some(2));
    assert_eq!(ids(&p.history()), vec![1]);
    assert_eq!(queue_ids(&p), vec![3]);
    let log = stats.get_listen_log();
    assert_eq!(log.len(), 1);
    assert_eq!(log[0].track_id, 1);
    assert_eq!(log[0].duration_listened_ms, 101_000);
    assert_eq!(log[0].outcome, ListenOutcome::Complete);
    let s = stats.get_track_stats(1).unwrap();
    assert_eq!(s.complete_count, 1);
    assert_eq!(s.total_listen_ms, 101_000);
}

#[test]
fn toggle_pauses_only_while_playing() {
    let mut p = playing_one_of_three();
    assert!(p.toggle_pauses());
    p.pause();
    assert!(!p.toggle_pauses());
    p.resume();
    assert!(p.toggle_pauses());
    assert!(!PlaybackState::new().toggle_pauses());
}

#[test]
fn drained_output_on_last_track_halts() {
    let mut p = PlaybackState::new();
    p.begin_playback(track(1), "s".to_owned());
    p.mark_playing();
    match p.on_output_drained() {
        DrainStep::Halt { finished: Some(f) } => assert_eq!(f.track_id, 1),
        _ => panic!("expected a halt"),
    }
    assert_eq!(p.status(), PlayStatus::Idle);
}

#[test]
fn drained_output_after_failure_moves_on_without_listen() {
    let mut p = playing_one_of_three();
    p.mark_failed();
    match p.on_output_drained() {
        DrainStep::Advance { finished: None, next } => assert_eq!(next.id, 2),
        _ => panic!("expected an advance without a listen"),
    }
}

#[test]
fn drained_output_while_paused_keeps_state() {
    let mut p = playing_one_of_three();
    p.pause();
    assert!(matches!(p.on_output_drained(), DrainStep::Keep));
    assert_eq!(p.status(), PlayStatus::Paused);
    assert_eq!(queue_ids(&p), vec![2, 3]);
}

#[test]
fn reorder_moves_one_track() {
    let mut p = playing_one_of_three();
    p.enqueue_back(track(4));
    p.enqueue_back(track(5));
    assert_eq!(p.reorder(0, 2), Ok(()));
    assert_eq!(queue_ids(&p), vec![3, 4, 2, 5]);
    assert_eq!(p.reorder(3, 0), Ok(()));
    assert_eq!(queue_ids(&p), vec![5, 3, 4, 2]);
    assert_eq!(p.reorder(4, 0), Err(QueueError::OutOfBounds { len: 4 }));
    assert_eq!(p.reorder(0, 4), Err(QueueError::OutOfBounds { len: 4 }));
    assert_eq!(queue_ids(&p), vec![5, 3, 4, 2]);
}

#[test]
fn clear_queue_keeps_current() {
    let mut p = playing_one_of_three();
    p.clear_queue();
    assert_eq!(p.queue_len(), 0);
    assert_eq!(p.current().map(|t| t.id), Some(1));
}

#[test]
fn restore_replaces_queue_and_history() {
    let mut p = PlaybackState::new();
    p.restore(vec![track(3), track(4)], vec![track(1)]);
    assert_eq!(queue_ids(&p), vec![3, 4]);
    assert_eq!(ids(&p.history()), vec![1]);
    p.mark_paused();
    assert_eq!(p.status(), PlayStatus::Paused);
}

#[test]
fn prefetch_candidates_skip_prefetched_and_respect_limit() {
    let mut p = playing_one_of_three();
    p.enqueue_back(track(4));
    p.enqueue_back(track(5));
    assert_eq!(ids(&p.prefetch_candidates(&vec![3], 2)), vec![2, 4]);
    assert_eq!(ids(&p.prefetch_candidates(&vec![], 10)), vec![2, 3, 4, 5]);
    assert!(p.prefetch_candidates(&vec![2, 3, 4, 5], 3).is_empty());
    assert!(p.prefetch_candidates(&vec![], 0).is_empty());
}

#[test]
fn shuffle_start_needs_tracks_and_clears_queue() {
    let mut p = playing_one_of_three();
    assert_eq!(p.shuffle_start(vec![]), Err(ShuffleError::EmptyPool));
    assert!(!p.shuffle_active());
    assert_eq!(queue_ids(&p), vec![2, 3]);
    assert_eq!(p.shuffle_start(vec![10, 11, 12]), Ok(()));
    assert!(p.shuffle_active());
    assert_eq!(p.queue_len(), 0);
    assert_eq!(p.shuffle_status(), (true, 3, 0));
}

#[test]
fn shuffle_refill_keeps_two_upcoming_from_the_pool() {
    let mut p = PlaybackState::new();
    assert!(p.shuffle_refill_picks(&vec![0, 0]).is_empty());
    p.shuffle_start(vec![10, 11, 12]).unwrap();
    // The same draw twice still gives two different tracks.
    let picks = p.shuffle_refill_picks(&vec![1, 1]);
    assert_eq!(picks, vec![11, 12]);
    assert_eq!(p.shuffle_status(), (true, 3, 2));
    p.shuffle_stop();
    assert_eq!(p.shuffle_status(), (false, 0, 0));
    assert!(p.shuffle_pick(3).is_none());
}

#[test]
fn shuffle_picks_do_not_repeat_before_pool_is_exhausted() {
    let mut p = PlaybackState::new();
    p.shuffle_start(vec![1, 2, 3, 4]).unwrap();
    let mut seen: Vec<u64> = (0..4u64).map(|d| p.shuffle_pick(d * 7 + 2).unwrap()).collect();
    seen.sort();
    assert_eq!(seen, vec![1, 2, 3, 4]);
    // After exhaustion the played set starts over with the new pick.
    let again = p.shuffle_pick(6).unwrap();
    assert_eq!(again, 3);
    assert_eq!(p.shuffle_status(), (true, 4, 1));
}

#[test]
fn seconds_to_milliseconds_saturates() {
    assert_eq!(secs_to_ms_exec(0), 0);
    assert_eq!(secs_to_ms_exec(215), 215_000);
    assert_eq!(secs_to_ms_exec(u64::MAX / 1000), (u64::MAX / 1000) * 1000);
    assert_eq!(secs_to_ms_exec(u64::MAX / 1000 + 1), u64::MAX);
}

#[test]
fn queue_and_shuffle_error_messages() {
    assert_eq!(QueueError::OutOfBounds { len: 4 }.message(), "index out of bounds (queue has 4 tracks)");
    assert_eq!(ShuffleError::EmptyPool.message(), "no tracks in shuffle pool");
}

#[test]
fn playlist_replays_in_saved_order() {
    // Save: the current track followed by the queue.
    let p = playing_one_of_three();
    let (current, upcoming) = p.queue_snapshot();
    let saved = plexus_music::playlist::PlaylistData::from_queue("s".to_owned(), current, upcoming, "t".to_owned()).unwrap();
    // Play: stop, clear, then hand the tracks over one at a time.
    let mut q = playing_one_of_three();
    q.stop();
    q.clear_queue();
    for t in saved.tracks.iter() {
        if let Some(start) = q.enqueue_back(t.clone()) {
            q.begin_playback(start, "t1".to_owned());
        }
    }
    assert_eq!(q.current().map(|t| t.id), Some(1));
    assert_eq!(queue_ids(&q), vec![2, 3]);
    assert_eq!(q.status(), PlayStatus::Buffering);
}

#[test]
fn moving_a_track_back_restores_the_queue() {
    let mut p = playing_one_of_three();
    p.enqueue_back(track(4));
    p.enqueue_back(track(5));
    let before = queue_ids(&p);
    p.reorder(1, 3).unwrap();
    assert_ne!(queue_ids(&p), before);
    p.reorder(3, 1).unwrap();
    assert_eq!(queue_ids(&p), before);
}
