//! Data model: tracks, the catalog, the per-room playback state, and the
//! wire-level message and command types, together with their mathematical
//! views.

use vstd::prelude::*;

verus! {

/// One entry of the catalog: title, artist, and length in milliseconds.
#[derive(Debug, PartialEq)]
pub struct Track {
    pub title: String,
    pub artist: String,
    pub duration_ms: u64,
}

/// Mathematical image of a [`Track`].
#[verifier::ext_equal]
pub struct TrackModel {
    pub title: Seq<char>,
    pub artist: Seq<char>,
    pub duration_ms: u64,
}

impl View for Track {
    type V = TrackModel;

    open spec fn view(&self) -> TrackModel {
        TrackModel { title: self.title@, artist: self.artist@, duration_ms: self.duration_ms }
    }
}

impl Clone for Track {
    fn clone(&self) -> (r: Self)
        ensures
            r == *self,
    {
        Track {
            title: self.title.clone(),
            artist: self.artist.clone(),
            duration_ms: self.duration_ms,
        }
    }
}

/// The image of a sequence of tracks, entry by entry.
pub open spec fn tracks_view(tracks: Seq<Track>) -> Seq<TrackModel> {
    tracks.map_values(|t: Track| t@)
}

/// The fixed, ordered, non-empty list of tracks shared by every room.
///
/// Navigation in the engine is modular in the catalog length, so a catalog is
/// only ever constructed non-empty.
pub struct Catalog {
    tracks: Vec<Track>,
}

impl View for Catalog {
    type V = Seq<TrackModel>;

    closed spec fn view(&self) -> Seq<TrackModel> {
        tracks_view(self.tracks@)
    }
}

impl Catalog {
    /// Builds a catalog from a list of tracks; an empty list is refused.
    pub fn new(tracks: Vec<Track>) -> (r: Option<Catalog>)
        ensures
            r is Some <==> tracks@.len() >= 1,
            r matches Some(c) ==> c@ == tracks_view(tracks@),
    {
        if tracks.len() >= 1 {
            Some(Catalog { tracks })
        } else {
            None
        }
    }

    /// Number of tracks.
    pub fn len(&self) -> (n: usize)
        ensures
            n == self@.len(),
    {
        self.tracks.len()
    }

    /// Read-only access to the track at `i`.
    pub fn get(&self, i: usize) -> (t: &Track)
        requires
            i < self@.len(),
        ensures
            t@ == self@[i as int],
    {
        &self.tracks[i]
    }
}

/// The mutable snapshot describing one room's current track, elapsed time,
/// and play/pause flag.
#[derive(Debug, PartialEq)]
pub struct PlayerState {
    pub song_title: String,
    pub artist: String,
    pub is_playing: bool,
    pub progress_ms: u64,
    pub duration_ms: u64,
    pub current_index: usize,
    pub total_songs: usize,
}

/// Mathematical image of a [`PlayerState`].
#[verifier::ext_equal]
pub struct StateModel {
    pub song_title: Seq<char>,
    pub artist: Seq<char>,
    pub is_playing: bool,
    pub progress_ms: u64,
    pub duration_ms: u64,
    pub current_index: int,
    pub total_songs: int,
}

impl View for PlayerState {
    type V = StateModel;

    open spec fn view(&self) -> StateModel {
        StateModel {
            song_title: self.song_title@,
            artist: self.artist@,
            is_playing: self.is_playing,
            progress_ms: self.progress_ms,
            duration_ms: self.duration_ms,
            current_index: self.current_index as int,
            total_songs: self.total_songs as int,
        }
    }
}

impl Clone for PlayerState {
    fn clone(&self) -> (r: Self)
        ensures
            r == *self,
    {
        PlayerState {
            song_title: self.song_title.clone(),
            artist: self.artist.clone(),
            is_playing: self.is_playing,
            progress_ms: self.progress_ms,
            duration_ms: self.duration_ms,
            current_index: self.current_index,
            total_songs: self.total_songs,
        }
    }
}

/// A transport command a member may submit to its room.
#[derive(Debug, Clone, Copy, PartialEq, Eq)]
pub enum PlayerCommand {
    Play,
    Pause,
    Next,
    Prev,
    Restart,
    Seek(u64),
}

/// The wire-level unit: a state snapshot going out, or a command coming in.
#[derive(Debug, Clone, PartialEq)]
pub enum Message {
    StateUpdate(PlayerState),
    Command(PlayerCommand),
}

} // verus!
