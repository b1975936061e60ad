use plexus_music::playlist::{PlaylistData, PlaylistError};
use plexus_music::types::{MonoEvent, QueuedTrack};

fn track(id: u64) -> QueuedTrack {
    QueuedTrack {
        id,
        title: format!("Song {id}"),
        artist: "A".to_owned(),
        album: "B".to_owned(),
        duration_secs: 60,
        quality: "HIGH".to_owned(),
        cover_id: Some("c".to_owned()),
        source: Some("search".to_owned()),
    }
}

fn ids(p: &PlaylistData) -> Vec<u64> {
    p.tracks.iter().map(|t| t.id).collect()
}

fn sample() -> PlaylistData {
    PlaylistData::create("mix".to_owned(), None, vec![track(1), track(2), track(3)], "t0".to_owned())
}

#[test]
fn create_sets_both_timestamps() {
    let p = sample();
    assert_eq!(p.name, "mix");
    assert_eq!(p.description, "");
    assert_eq!(p.created_at, "t0");
    assert_eq!(p.updated_at, "t0");
    assert_eq!(ids(&p), vec![1, 2, 3]);
    let q = PlaylistData::create("x".to_owned(), Some("chill".to_owned()), vec![], "t".to_owned());
    assert_eq!(q.description, "chill");
}

#[test]
fn from_queue_puts_current_first() {
    let p = PlaylistData::from_queue("saved".to_owned(), Some(track(9)), vec![track(1), track(2)], "t".to_owned()).unwrap();
    assert_eq!(ids(&p), vec![9, 1, 2]);
    let q = PlaylistData::from_queue("saved".to_owned(), None, vec![track(1)], "t".to_owned()).unwrap();
    assert_eq!(ids(&q), vec![1]);
    match PlaylistData::from_queue("saved".to_owned(), None, vec![], "t".to_owned()) {
        Err(e @ PlaylistError::EmptyQueue) => assert_eq!(e.message(), "queue is empty \u{2014} nothing to save"),
        other => panic!("unexpected {:?}", other),
    }
}

#[test]
fn info_summarizes() {
    let p = sample();
    match p.info() {
        MonoEvent::PlaylistInfo { name, description, track_count, created_at, updated_at } => {
            assert_eq!(name, "mix");
            assert_eq!(description, "");
            assert_eq!(track_count, 3);
            assert_eq!(created_at, "t0");
            assert_eq!(updated_at, "t0");
        }
        other => panic!("unexpected {:?}", other),
    }
}

#[test]
fn empty_playlist_is_not_playable() {
    let p = PlaylistData::create("void".to_owned(), None, vec![], "t".to_owned());
    match p.check_playable() {
        Err(e @ PlaylistError::Empty { .. }) => assert_eq!(e.message(), "playlist 'void' is empty"),
        other => panic!("unexpected {:?}", other),
    }
    assert!(sample().check_playable().is_ok());
}

#[test]
fn add_then_remove_restores_the_playlist() {
    let mut p = sample();
    p.add_track(track(7), "t1".to_owned());
    assert_eq!(ids(&p), vec![1, 2, 3, 7]);
    assert_eq!(p.updated_at, "t1");
    let removed = p.remove_track(3, "t2".to_owned()).unwrap();
    assert_eq!(removed.id, 7);
    assert_eq!(ids(&p), vec![1, 2, 3]);
    assert_eq!(p.created_at, "t0");
    assert_eq!(p.updated_at, "t2");
}

#[test]
fn remove_out_of_bounds_changes_nothing() {
    let mut p = sample();
    match p.remove_track(3, "t9".to_owned()) {
        Err(e @ PlaylistError::IndexOutOfBounds { index: 3, len: 3 }) => {
            assert_eq!(e.message(), "index 3 out of bounds (playlist has 3 tracks)");
        }
        other => panic!("unexpected {:?}", other),
    }
    assert_eq!(ids(&p), vec![1, 2, 3]);
    assert_eq!(p.updated_at, "t0");
}

#[test]
fn reorder_moves_a_track() {
    let mut p = sample();
    let moved = p.reorder(0, 2, "t1".to_owned()).unwrap();
    assert_eq!(moved.id, 1);
    assert_eq!(ids(&p), vec![2, 3, 1]);
    match p.reorder(1, 3, "t2".to_owned()) {
        Err(e @ PlaylistError::OutOfBounds { len: 3 }) => {
            assert_eq!(e.message(), "index out of bounds (playlist has 3 tracks)");
        }
        other => panic!("unexpected {:?}", other),
    }
    assert_eq!(p.updated_at, "t1");
}

#[test]
fn rename_and_describe() {
    let mut p = sample();
    p.rename("new".to_owned(), "t1".to_owned());
    p.describe("for running".to_owned(), "t2".to_owned());
    assert_eq!(p.name, "new");
    assert_eq!(p.description, "for running");
    assert_eq!(p.updated_at, "t2");
    assert_eq!(p.created_at, "t0");
    assert_eq!(ids(&p), vec![1, 2, 3]);
}

#[test]
fn already_exists_message() {
    let e = PlaylistError::AlreadyExists { name: "mix".to_owned() };
    assert_eq!(e.message(), "playlist 'mix' already exists");
}
