//! Shared value types: tracks in the queue, playback status, listening statistics,
//! and the events the catalog decoder produces.
use vstd::prelude::*;

verus! {

/// A copy of an optional string, equal to it.
pub fn copy_opt_string(s: &Option<String>) -> (r: Option<String>)
    ensures
        r == *s,
{
    match s {
        Some(v) => Some(v.clone()),
        None => None,
    }
}

/// Playback lifecycle state
#[derive(Debug, Clone, Copy, PartialEq, Eq, Structural)]
pub enum PlayStatus {
    /// No track loaded
    Idle,
    /// Player process spawned, buffering/starting
    Starting,
    /// Buffering audio data from network
    Buffering,
    /// Currently playing
    Playing,
    /// Playback paused
    Paused,
    /// Playback stopped by user
    Stopped,
    /// Playback finished cleanly
    Finished,
    /// Player exited with an error
    Failed,
}

/// A track in the playback queue
#[derive(Debug)]
pub struct QueuedTrack {
    /// Track ID
    pub id: u64,
    /// Track title
    pub title: String,
    /// Primary artist name
    pub artist: String,
    /// Album title
    pub album: String,
    /// Duration in seconds
    pub duration_secs: u64,
    /// Quality tier requested
    pub quality: String,
    /// Cover art UUID
    pub cover_id: Option<String>,
    /// Where this track was queued from (playlist name, album, search, etc.)
    pub source: Option<String>,
}

impl Clone for QueuedTrack {
    fn clone(&self) -> (r: Self)
        ensures
            r == *self,
    {
        QueuedTrack {
            id: self.id,
            title: self.title.clone(),
            artist: self.artist.clone(),
            album: self.album.clone(),
            duration_secs: self.duration_secs,
            quality: self.quality.clone(),
            cover_id: copy_opt_string(&self.cover_id),
            source: copy_opt_string(&self.source),
        }
    }
}

/// Search target kind
#[derive(Debug, Clone, Copy, PartialEq, Eq, Structural)]
pub enum SearchKind {
    /// Search for tracks (default)
    Tracks,
    /// Search for albums
    Albums,
    /// Search for artists
    Artists,
}

impl Default for SearchKind {
    fn default() -> (r: Self)
        ensures
            r == SearchKind::Tracks,
    {
        SearchKind::Tracks
    }
}

/// How a listen session ended
#[derive(Debug, Clone, Copy, PartialEq, Eq, Structural)]
pub enum ListenOutcome {
    /// Track finished playing naturally
    Complete,
    /// User skipped (next/previous/play-other)
    Skip,
    /// User stopped playback
    Stop,
}

/// Aggregate per-track listening statistics.
/// Listening time is kept in whole milliseconds.
#[derive(Debug)]
pub struct TrackStats {
    /// Track ID
    pub id: u64,
    /// Track title
    pub title: String,
    /// Primary artist name
    pub artist: String,
    /// Album title
    pub album: String,
    /// Total times playback started
    pub play_count: u32,
    /// Times the track finished naturally
    pub complete_count: u32,
    /// Times the track was skipped
    pub skip_count: u32,
    /// Cumulative milliseconds spent listening
    pub total_listen_ms: u64,
    /// ISO 8601 timestamp of first play
    pub first_played: String,
    /// ISO 8601 timestamp of most recent play
    pub last_played: String,
}

impl Clone for TrackStats {
    fn clone(&self) -> (r: Self)
        ensures
            r == *self,
    {
        TrackStats {
            id: self.id,
            title: self.title.clone(),
            artist: self.artist.clone(),
            album: self.album.clone(),
            play_count: self.play_count,
            complete_count: self.complete_count,
            skip_count: self.skip_count,
            total_listen_ms: self.total_listen_ms,
            first_played: self.first_played.clone(),
            last_played: self.last_played.clone(),
        }
    }
}

/// Individual listen log entry. The listened duration is in whole milliseconds.
#[derive(Debug)]
pub struct ListenEvent {
    /// Track ID
    pub track_id: u64,
    /// ISO 8601 timestamp when playback started
    pub started_at: String,
    /// How long the user actually listened (milliseconds)
    pub duration_listened_ms: u64,
    /// How the listen session ended
    pub outcome: ListenOutcome,
}

impl Clone for ListenEvent {
    fn clone(&self) -> (r: Self)
        ensures
            r == *self,
    {
        ListenEvent {
            track_id: self.track_id,
            started_at: self.started_at.clone(),
            duration_listened_ms: self.duration_listened_ms,
            outcome: self.outcome,
        }
    }
}


/// Events produced by the catalog decoder and the player's acknowledgements.
/// (Events that carry fractional values — progress percentages, playback
/// positions, volumes, peaks — are assembled outside this crate.)
#[derive(Debug)]
pub enum MonoEvent {
    /// Track metadata
    Track {
        id: u64,
        title: String,
        artist: String,
        album: String,
        album_id: u64,
        duration_secs: u64,
        track_number: Option<u32>,
        release_date: Option<String>,
        audio_quality: Option<String>,
        cover_id: Option<String>,
    },
    /// Album metadata
    Album {
        id: u64,
        title: String,
        artist: String,
        release_date: Option<String>,
        track_count: u32,
        duration_secs: Option<u64>,
        cover_id: Option<String>,
    },
    /// Individual track within an album listing (follows Album event)
    AlbumTrack {
        position: u32,
        id: u64,
        title: String,
        artist: String,
        duration_secs: u64,
        audio_quality: Option<String>,
    },
    /// Artist information
    Artist { id: u64, name: String, picture_id: Option<String>, cover_url: Option<String> },
    /// A track from search results
    SearchTrack {
        rank: u32,
        id: u64,
        title: String,
        artist: String,
        album: String,
        duration_secs: u64,
        audio_quality: Option<String>,
    },
    /// An album from search results
    SearchAlbum {
        rank: u32,
        id: u64,
        title: String,
        artist: String,
        track_count: u32,
        release_date: Option<String>,
    },
    /// An artist from search results
    SearchArtist { rank: u32, id: u64, name: String },
    /// A single lyrics line (timestamp in milliseconds, None for unsynced lyrics)
    LyricLine { timestamp_ms: Option<u64>, text: String },
    /// A recommended track
    Recommendation { rank: u32, id: u64, title: String, artist: String, duration_secs: u64 },
    /// A cover art URL (size in pixels, width == height)
    Cover { url: String, size: u32 },
    /// Resolved stream manifest
    StreamManifest {
        id: u64,
        url: String,
        mime_type: String,
        codecs: String,
        quality: String,
        bit_depth: Option<u32>,
        sample_rate: Option<u32>,
        extension: String,
    },
    /// Download finished successfully
    DownloadComplete { path: String, bytes: u64, mime_type: String },
    /// Queue contents snapshot
    Queue { tracks: Vec<QueuedTrack>, current_index: Option<usize> },
    /// Playlist summary info
    PlaylistInfo {
        name: String,
        description: String,
        track_count: usize,
        created_at: String,
        updated_at: String,
    },
    /// Acknowledgement of a player action
    PlayerAck { action: String, message: String },
    /// Result of a sanity check
    SanityResult { check: String, passed: bool, duration_ms: u64, message: String },
    /// Error from any method
    Error { message: String },
}

} // verus!
