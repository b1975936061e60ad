//! Named playlists: their data and the edits made to them.
use vstd::prelude::*;

use crate::text::{append_str, decimal, push_decimal};
use crate::types::{MonoEvent, QueuedTrack};

verus! {

/// On-disk playlist format
#[derive(Debug)]
pub struct PlaylistData {
    pub name: String,
    pub description: String,
    pub tracks: Vec<QueuedTrack>,
    pub created_at: String,
    pub updated_at: String,
}

/// Why a playlist operation was refused.
#[derive(Debug)]
pub enum PlaylistError {
    /// A playlist of that name already exists.
    AlreadyExists { name: String },
    /// The index is past the end of a playlist of `len` tracks.
    IndexOutOfBounds { index: u32, len: usize },
    /// One of two positions is past the end of a playlist of `len` tracks.
    OutOfBounds { len: usize },
    /// The playlist has no tracks.
    Empty { name: String },
    /// The playback queue has no tracks to save.
    EmptyQueue,
}

impl PlaylistError {
    /// The human-readable error text.
    pub fn message(&self) -> (r: String)
        ensures
            match self {
                PlaylistError::AlreadyExists { name } => r@ == "playlist '"@ + name@ + "' already exists"@,
                PlaylistError::IndexOutOfBounds { index, len } => r@ == "index "@ + decimal(*index as nat)
                    + " out of bounds (playlist has "@ + decimal(*len as nat) + " tracks)"@,
                PlaylistError::OutOfBounds { len } => r@ == "index out of bounds (playlist has "@ + decimal(
                    *len as nat,
                ) + " tracks)"@,
                PlaylistError::Empty { name } => r@ == "playlist '"@ + name@ + "' is empty"@,
                PlaylistError::EmptyQueue => r@ == "queue is empty \u{2014} nothing to save"@,
            },
    {
        match self {
            PlaylistError::AlreadyExists { name } => {
                let mut s = "playlist '".to_owned();
                append_str(&mut s, name.as_str());
                append_str(&mut s, "' already exists");
                s
            },
            PlaylistError::IndexOutOfBounds { index, len } => {
                let mut s = "index ".to_owned();
                push_decimal(&mut s, *index as u64);
                append_str(&mut s, " out of bounds (playlist has ");
                push_decimal(&mut s, *len as u64);
                append_str(&mut s, " tracks)");
                s
            },
            PlaylistError::OutOfBounds { len } => {
                let mut s = "index out of bounds (playlist has ".to_owned();
                push_decimal(&mut s, *len as u64);
                append_str(&mut s, " tracks)");
                s
            },
            PlaylistError::Empty { name } => {
                let mut s = "playlist '".to_owned();
                append_str(&mut s, name.as_str());
                append_str(&mut s, "' is empty");
                s
            },
            PlaylistError::EmptyQueue => "queue is empty \u{2014} nothing to save".to_owned(),
        }
    }
}

impl PlaylistData {
    /// A new playlist created at `now` (an absent description is empty).
    pub fn create(name: String, description: Option<String>, tracks: Vec<QueuedTrack>, now: String) -> (r: Self)
        ensures
            r.name == name,
            r.description@ == (match description {
                Some(d) => d@,
                None => Seq::<char>::empty(),
            }),
            r.tracks@ == tracks@,
            r.created_at == now,
            r.updated_at == now,
    {
        PlaylistData {
            name,
            description: match description {
                Some(d) => d,
                None => String::new(),
            },
            tracks,
            created_at: now.clone(),
            updated_at: now,
        }
    }

    /// A playlist of the current track followed by the upcoming queue, created
    /// at `now`; refused when there is no track at all.
    pub fn from_queue(name: String, current: Option<QueuedTrack>, upcoming: Vec<QueuedTrack>, now: String) -> (r: Result<Self, PlaylistError>)
        ensures
            ({
                let all = match current {
                    Some(c) => seq![c] + upcoming@,
                    None => upcoming@,
                };
                if all.len() == 0 {
                    r matches Err(PlaylistError::EmptyQueue)
                } else {
                    r matches Ok(p) && p.name == name && p.description@ == Seq::<char>::empty()
                        && p.tracks@ == all && p.created_at == now && p.updated_at == now
                }
            }),
    {
        let ghost cur = current;
        let mut tracks: Vec<QueuedTrack> = Vec::new();
        if let Some(c) = current {
            tracks.push(c);
        }
        let mut up = upcoming;
        let ghost t0 = tracks@;
        tracks.append(&mut up);
        proof {
            match cur {
                Some(c) => {
                    assert(t0 == seq![c]);
                },
                None => {
                    assert(t0 == Seq::<QueuedTrack>::empty());
                    assert(tracks@ == upcoming@);
                },
            }
        }
        if tracks.len() == 0 {
            return Err(PlaylistError::EmptyQueue);
        }
        Ok(
            PlaylistData {
                name,
                description: String::new(),
                tracks,
                created_at: now.clone(),
                updated_at: now,
            },
        )
    }

    /// The summary event: name, description, track count and timestamps.
    pub fn info(&self) -> (r: MonoEvent)
        ensures
            r matches MonoEvent::PlaylistInfo { name, description, track_count, created_at, updated_at }
                && name == self.name && description == self.description && track_count
                == self.tracks@.len() && created_at == self.created_at && updated_at
                == self.updated_at,
    {
        MonoEvent::PlaylistInfo {
            name: self.name.clone(),
            description: self.description.clone(),
            track_count: self.tracks.len(),
            created_at: self.created_at.clone(),
            updated_at: self.updated_at.clone(),
        }
    }

    /// Refuse to play a playlist without tracks.
    pub fn check_playable(&self) -> (r: Result<(), PlaylistError>)
        ensures
            self.tracks@.len() == 0 ==> (r matches Err(PlaylistError::Empty { name }) && name == self.name),
            self.tracks@.len() > 0 ==> r is Ok,
    {
        if self.tracks.len() == 0 {
            Err(PlaylistError::Empty { name: self.name.clone() })
        } else {
            Ok(())
        }
    }

    /// Append a track; the playlist was updated at `now`.
    pub fn add_track(&mut self, track: QueuedTrack, now: String)
        ensures
            final(self).tracks@ == old(self).tracks@.push(track),
            final(self).updated_at == now,
            final(self).name == old(self).name,
            final(self).description == old(self).description,
            final(self).created_at == old(self).created_at,
    {
        self.tracks.push(track);
        self.updated_at = now;
    }

    /// Remove the track at `index` and return it; refused, changing nothing,
    /// when the index is past the end.
    pub fn remove_track(&mut self, index: u32, now: String) -> (r: Result<QueuedTrack, PlaylistError>)
        ensures
            index >= old(self).tracks@.len() ==> (r matches Err(PlaylistError::IndexOutOfBounds { index: i, len })
                && i == index && len == old(self).tracks@.len()) && *final(self) == *old(self),
            index < old(self).tracks@.len() ==> (r matches Ok(t) && t == old(self).tracks@[index as int])
                && final(self).tracks@ == old(self).tracks@.remove(index as int)
                && final(self).updated_at == now && final(self).name == old(self).name
                && final(self).description == old(self).description
                && final(self).created_at == old(self).created_at,
    {
        let idx = index as usize;
        if idx >= self.tracks.len() {
            return Err(PlaylistError::IndexOutOfBounds { index, len: self.tracks.len() });
        }
        let removed = self.tracks.remove(idx);
        self.updated_at = now;
        Ok(removed)
    }

    /// Set the description; the playlist was updated at `now`.
    pub fn describe(&mut self, description: String, now: String)
        ensures
            final(self).description == description,
            final(self).updated_at == now,
            final(self).name == old(self).name,
            final(self).tracks@ == old(self).tracks@,
            final(self).created_at == old(self).created_at,
    {
        self.description = description;
        self.updated_at = now;
    }

    /// Give the playlist a new name; it was updated at `now`.
    pub fn rename(&mut self, new_name: String, now: String)
        ensures
            final(self).name == new_name,
            final(self).updated_at == now,
            final(self).description == old(self).description,
            final(self).tracks@ == old(self).tracks@,
            final(self).created_at == old(self).created_at,
    {
        self.name = new_name;
        self.updated_at = now;
    }

    /// Move the track at `from` to position `to` and return a copy of the moved
    /// track; refused, changing nothing, when either position is past the end.
    pub fn reorder(&mut self, from: u32, to: u32, now: String) -> (r: Result<QueuedTrack, PlaylistError>)
        ensures
            (from >= old(self).tracks@.len() || to >= old(self).tracks@.len()) ==> (r matches Err(
                PlaylistError::OutOfBounds { len },
            ) && len == old(self).tracks@.len()) && *final(self) == *old(self),
            (from < old(self).tracks@.len() && to < old(self).tracks@.len()) ==> (r matches Ok(t)
                && t == old(self).tracks@[from as int]) && final(self).tracks@ == old(self).tracks@.remove(
                from as int,
            ).insert(to as int, old(self).tracks@[from as int]) && final(self).updated_at == now
                && final(self).name == old(self).name && final(self).description
                == old(self).description && final(self).created_at == old(self).created_at,
    {
        let f = from as usize;
        let t = to as usize;
        if f >= self.tracks.len() || t >= self.tracks.len() {
            return Err(PlaylistError::OutOfBounds { len: self.tracks.len() });
        }
        let track = self.tracks.remove(f);
        let moved = track.clone();
        self.tracks.insert(t, track);
        self.updated_at = now;
        Ok(moved)
    }
}


/// Removing the track just added undoes the addition.
pub proof fn law_remove_undoes_add(tracks: Seq<QueuedTrack>, t: QueuedTrack)
    ensures
        tracks.push(t)[tracks.len() as int] == t,
        tracks.push(t).remove(tracks.len() as int) == tracks,
{
    assert(tracks.push(t).remove(tracks.len() as int) =~= tracks);
}

} // verus!
