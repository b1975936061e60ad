//! Acknowledgements: the action name and message reported back once a
//! player or playlist request has been carried out.
use vstd::prelude::*;

use crate::text::{append_str, decimal, push_decimal};
use crate::types::MonoEvent;

verus! {

/// A player request that was carried out.
pub enum Ack {
    /// A track started playing.
    Play { id: u64 },
    /// Playback was paused.
    Pause,
    /// Playback was resumed.
    Resume,
    /// Playback was stopped.
    Stop,
    /// Skipped to the next track.
    Next,
    /// Went back to the previous track.
    Previous,
    /// An album's tracks were queued.
    QueueAlbum { count: usize },
    /// A track was queued.
    QueueAdd { id: u64 },
    /// Several tracks were queued.
    QueueBatch { count: usize },
    /// The queue was emptied.
    QueueClear,
    /// A queued track was moved.
    QueueReorder { from: u32, to: u32 },
    /// The listen history was cleared.
    HistoryClear,
    /// A track's like was toggled; `liked` is the new state.
    Like { id: u64, liked: bool },
    /// A download was deleted; `path` is the file that was removed, if any.
    DeleteDownload { id: u64, path: Option<String> },
}

/// The action name an acknowledgement reports.
pub open spec fn ack_action(a: Ack) -> Seq<char> {
    match a {
        Ack::Play { .. } => "play"@,
        Ack::Pause => "pause"@,
        Ack::Resume => "resume"@,
        Ack::Stop => "stop"@,
        Ack::Next => "next"@,
        Ack::Previous => "previous"@,
        Ack::QueueAlbum { .. } => "queue_album"@,
        Ack::QueueAdd { .. } => "queue_add"@,
        Ack::QueueBatch { .. } => "queue_batch"@,
        Ack::QueueClear => "queue_clear"@,
        Ack::QueueReorder { .. } => "queue_reorder"@,
        Ack::HistoryClear => "history_clear"@,
        Ack::Like { .. } => "like"@,
        Ack::DeleteDownload { .. } => "delete_download"@,
    }
}

/// The message an acknowledgement reports.
pub open spec fn ack_message(a: Ack) -> Seq<char> {
    match a {
        Ack::Play { id } => "playing track "@ + decimal(id as nat),
        Ack::Pause => "playback paused"@,
        Ack::Resume => "playback resumed"@,
        Ack::Stop => "playback stopped"@,
        Ack::Next => "skipped to next track"@,
        Ack::Previous => "went to previous track"@,
        Ack::QueueAlbum { count } => decimal(count as nat) + " tracks queued"@,
        Ack::QueueAdd { id } => "track "@ + decimal(id as nat) + " added to queue"@,
        Ack::QueueBatch { count } => decimal(count as nat) + " tracks queued"@,
        Ack::QueueClear => "queue cleared"@,
        Ack::QueueReorder { from, to } => "moved track from position "@ + decimal(from as nat) + " to "@
            + decimal(to as nat),
        Ack::HistoryClear => "listen history cleared"@,
        Ack::Like { id, liked } => if liked {
            "liked track "@ + decimal(id as nat)
        } else {
            "unliked track "@ + decimal(id as nat)
        },
        Ack::DeleteDownload { id, path } => match path {
            Some(p) => "deleted download: "@ + p@,
            None => "track "@ + decimal(id as nat) + " was not downloaded"@,
        },
    }
}

/// `e` is the acknowledgement event with this action and message.
pub open spec fn is_ack(e: MonoEvent, action: Seq<char>, message: Seq<char>) -> bool {
    match e {
        MonoEvent::PlayerAck { action: a, message: m } => a@ == action && m@ == message,
        _ => false,
    }
}

/// `prefix` followed by the decimal digits of `n`.
fn with_number(prefix: &str, n: u64) -> (r: String)
    ensures
        r@ == prefix@ + decimal(n as nat),
{
    let mut s = prefix.to_owned();
    push_decimal(&mut s, n);
    s
}

/// The decimal digits of `n` followed by `suffix`.
fn number_then(n: u64, suffix: &str) -> (r: String)
    ensures
        r@ == decimal(n as nat) + suffix@,
{
    let mut s = String::new();
    push_decimal(&mut s, n);
    append_str(&mut s, suffix);
    assert(Seq::<char>::empty() + decimal(n as nat) == decimal(n as nat));
    s
}

impl Ack {
    /// The acknowledgement event (see `ack_action` and `ack_message`).
    pub fn event(&self) -> (r: MonoEvent)
        ensures
            is_ack(r, ack_action(*self), ack_message(*self)),
    {
        let (action, message): (&str, String) = match self {
            Ack::Play { id } => ("play", with_number("playing track ", *id)),
            Ack::Pause => ("pause", "playback paused".to_owned()),
            Ack::Resume => ("resume", "playback resumed".to_owned()),
            Ack::Stop => ("stop", "playback stopped".to_owned()),
            Ack::Next => ("next", "skipped to next track".to_owned()),
            Ack::Previous => ("previous", "went to previous track".to_owned()),
            Ack::QueueAlbum { count } => ("queue_album", number_then(*count as u64, " tracks queued")),
            Ack::QueueAdd { id } => {
                let mut s = with_number("track ", *id);
                append_str(&mut s, " added to queue");
                ("queue_add", s)
            },
            Ack::QueueBatch { count } => ("queue_batch", number_then(*count as u64, " tracks queued")),
            Ack::QueueClear => ("queue_clear", "queue cleared".to_owned()),
            Ack::QueueReorder { from, to } => {
                let mut s = with_number("moved track from position ", *from as u64);
                append_str(&mut s, " to ");
                push_decimal(&mut s, *to as u64);
                ("queue_reorder", s)
            },
            Ack::HistoryClear => ("history_clear", "listen history cleared".to_owned()),
            Ack::Like { id, liked } => {
                if *liked {
                    ("like", with_number("liked track ", *id))
                } else {
                    ("like", with_number("unliked track ", *id))
                }
            },
            Ack::DeleteDownload { id, path } => match path {
                Some(p) => {
                    let mut s = "deleted download: ".to_owned();
                    append_str(&mut s, p.as_str());
                    ("delete_download", s)
                },
                None => {
                    let mut s = with_number("track ", *id);
                    append_str(&mut s, " was not downloaded");
                    ("delete_download", s)
                },
            },
        };
        MonoEvent::PlayerAck { action: action.to_owned(), message }
    }
}

/// A playlist request that was carried out.
pub enum PlaylistAck {
    /// A playlist was created with `count` tracks.
    Created { name: String, count: usize },
    /// Listing found no playlist.
    NoneFound,
    /// A playlist was deleted.
    Deleted { name: String },
    /// A playlist was renamed.
    Renamed { name: String, new_name: String },
    /// A track was appended to a playlist.
    Added { title: String, name: String },
    /// A track was removed from a playlist.
    Removed { title: String, name: String },
    /// A playlist's description was set.
    Described { name: String },
    /// A track was moved within a playlist.
    Moved { title: String, from: u32, to: u32 },
    /// A playlist was loaded into the queue.
    Playing { name: String, count: usize },
    /// The queue was saved as a playlist.
    Saved { name: String, count: usize },
    /// Research notes were saved for a playlist.
    ResearchSaved { name: String },
}

/// `'{text}'`
pub open spec fn quoted(text: Seq<char>) -> Seq<char> {
    "'"@ + text + "'"@
}

/// The action name a playlist acknowledgement reports.
pub open spec fn playlist_action(a: PlaylistAck) -> Seq<char> {
    match a {
        PlaylistAck::Created { .. } => "playlist_create"@,
        PlaylistAck::NoneFound => "playlist_list"@,
        PlaylistAck::Deleted { .. } => "playlist_delete"@,
        PlaylistAck::Renamed { .. } => "playlist_rename"@,
        PlaylistAck::Added { .. } => "playlist_add"@,
        PlaylistAck::Removed { .. } => "playlist_remove"@,
        PlaylistAck::Described { .. } => "playlist_describe"@,
        PlaylistAck::Moved { .. } => "playlist_reorder"@,
        PlaylistAck::Playing { .. } => "playlist_play"@,
        PlaylistAck::Saved { .. } => "playlist_save"@,
        PlaylistAck::ResearchSaved { .. } => "research_save"@,
    }
}

/// The message a playlist acknowledgement reports.
pub open spec fn playlist_message(a: PlaylistAck) -> Seq<char> {
    match a {
        PlaylistAck::Created { name, count } => if count > 0 {
            "created playlist "@ + quoted(name@) + " with "@ + decimal(count as nat) + " tracks"@
        } else {
            "created playlist "@ + quoted(name@)
        },
        PlaylistAck::NoneFound => "no playlists found"@,
        PlaylistAck::Deleted { name } => "deleted playlist "@ + quoted(name@),
        PlaylistAck::Renamed { name, new_name } => "renamed "@ + quoted(name@) + " to "@ + quoted(new_name@),
        PlaylistAck::Added { title, name } => "added "@ + quoted(title@) + " to playlist "@ + quoted(name@),
        PlaylistAck::Removed { title, name } => "removed "@ + quoted(title@) + " from playlist "@ + quoted(
            name@,
        ),
        PlaylistAck::Described { name } => "updated description for playlist "@ + quoted(name@),
        PlaylistAck::Moved { title, from, to } => "moved "@ + quoted(title@) + " from position "@ + decimal(
            from as nat,
        ) + " to "@ + decimal(to as nat),
        PlaylistAck::Playing { name, count } => "playing playlist "@ + quoted(name@) + " ("@ + decimal(
            count as nat,
        ) + " tracks)"@,
        PlaylistAck::Saved { name, count } => "saved "@ + decimal(count as nat) + " tracks as playlist "@
            + quoted(name@),
        PlaylistAck::ResearchSaved { name } => "saved research for "@ + quoted(name@),
    }
}

/// Append `'{text}'` to `out`.
fn push_quoted(out: &mut String, text: &str)
    ensures
        final(out)@ == old(out)@ + quoted(text@),
{
    append_str(out, "'");
    append_str(out, text);
    append_str(out, "'");
}

impl PlaylistAck {
    /// The acknowledgement event (see `playlist_action` and `playlist_message`).
    pub fn event(&self) -> (r: MonoEvent)
        ensures
            is_ack(r, playlist_action(*self), playlist_message(*self)),
    {
        let mut m = String::new();
        let action: &str = match self {
            PlaylistAck::Created { name, count } => {
                append_str(&mut m, "created playlist ");
                push_quoted(&mut m, name.as_str());
                if *count > 0 {
                    append_str(&mut m, " with ");
                    push_decimal(&mut m, *count as u64);
                    append_str(&mut m, " tracks");
                }
                "playlist_create"
            },
            PlaylistAck::NoneFound => {
                append_str(&mut m, "no playlists found");
                "playlist_list"
            },
            PlaylistAck::Deleted { name } => {
                append_str(&mut m, "deleted playlist ");
                push_quoted(&mut m, name.as_str());
                "playlist_delete"
            },
            PlaylistAck::Renamed { name, new_name } => {
                append_str(&mut m, "renamed ");
                push_quoted(&mut m, name.as_str());
                append_str(&mut m, " to ");
                push_quoted(&mut m, new_name.as_str());
                "playlist_rename"
            },
            PlaylistAck::Added { title, name } => {
                append_str(&mut m, "added ");
                push_quoted(&mut m, title.as_str());
                append_str(&mut m, " to playlist ");
                push_quoted(&mut m, name.as_str());
                "playlist_add"
            },
            PlaylistAck::Removed { title, name } => {
                append_str(&mut m, "removed ");
                push_quoted(&mut m, title.as_str());
                append_str(&mut m, " from playlist ");
                push_quoted(&mut m, name.as_str());
                "playlist_remove"
            },
            PlaylistAck::Described { name } => {
                append_str(&mut m, "updated description for playlist ");
                push_quoted(&mut m, name.as_str());
                "playlist_describe"
            },
            PlaylistAck::Moved { title, from, to } => {
                append_str(&mut m, "moved ");
                push_quoted(&mut m, title.as_str());
                append_str(&mut m, " from position ");
                push_decimal(&mut m, *from as u64);
                append_str(&mut m, " to ");
                push_decimal(&mut m, *to as u64);
                "playlist_reorder"
            },
            PlaylistAck::Playing { name, count } => {
                append_str(&mut m, "playing playlist ");
                push_quoted(&mut m, name.as_str());
                append_str(&mut m, " (");
                push_decimal(&mut m, *count as u64);
                append_str(&mut m, " tracks)");
                "playlist_play"
            },
            PlaylistAck::Saved { name, count } => {
                append_str(&mut m, "saved ");
                push_decimal(&mut m, *count as u64);
                append_str(&mut m, " tracks as playlist ");
                push_quoted(&mut m, name.as_str());
                "playlist_save"
            },
            PlaylistAck::ResearchSaved { name } => {
                append_str(&mut m, "saved research for ");
                push_quoted(&mut m, name.as_str());
                "research_save"
            },
        };
        MonoEvent::PlayerAck { action: action.to_owned(), message: m }
    }
}

} // verus!
