//! The data model: tracks, playlists, and the shared playback state with its
//! invariants.

use vstd::prelude::*;

verus! {

use crate::text;

/// Relies on `uuid::Uuid::new_v4` and its hyphenated display form: a freshly
/// generated random identifier, rendered as 36 characters.
#[verifier::external_body]
pub fn fresh_id() -> (r: String)
    ensures
        r@.len() == 36,
{
    uuid::Uuid::new_v4().to_string()
}

/// Relies on `chrono::Utc::now`: the current wall-clock time as seconds since
/// the Unix epoch. Nothing is promised of the value.
#[verifier::external_body]
pub fn now_unix_seconds() -> (r: u64)
{
    chrono::Utc::now().timestamp() as u64
}

/// The policy at end of track or end of queue: stop at the end, replay the
/// current track, or wrap around to the start.
#[derive(Clone, Copy, PartialEq, Eq, Structural, Debug)]
pub enum RepeatMode {
    Off,
    One,
    All,
}

impl Default for RepeatMode {
    fn default() -> (r: Self)
        ensures
            r == RepeatMode::Off,
    {
        RepeatMode::Off
    }
}

impl RepeatMode {
    /// The next mode when a client toggles repeat without naming one:
    /// off, all, one, and around again.
    pub fn cycled(&self) -> (r: RepeatMode)
        ensures
            r == match *self {
                RepeatMode::Off => RepeatMode::All,
                RepeatMode::All => RepeatMode::One,
                RepeatMode::One => RepeatMode::Off,
            },
    {
        match *self {
            RepeatMode::Off => RepeatMode::All,
            RepeatMode::All => RepeatMode::One,
            RepeatMode::One => RepeatMode::Off,
        }
    }

    /// The mode's lower-case name.
    pub fn label(&self) -> (r: String)
        ensures
            r@ == match *self {
                RepeatMode::Off => "off"@,
                RepeatMode::One => "one"@,
                RepeatMode::All => "all"@,
            },
    {
        match *self {
            RepeatMode::Off => String::from_str("off"),
            RepeatMode::One => String::from_str("one"),
            RepeatMode::All => String::from_str("all"),
        }
    }
}

/// The mathematical value of a [`Track`].
pub ghost struct TrackModel {
    pub id: Seq<char>,
    pub url: Seq<char>,
    pub title: Seq<char>,
    pub alias: Option<Seq<char>>,
    pub duration: u64,
    pub added_at: u64,
    pub file_path: Seq<char>,
    pub available: bool,
}

/// One playable audio item. The core never mutates a track; it only copies
/// tracks into and out of the playback state.
#[derive(Debug, PartialEq)]
pub struct Track {
    pub id: String,
    pub url: String,
    pub title: String,
    pub alias: Option<String>,
    pub duration: u64,
    pub added_at: u64,
    pub file_path: String,
    pub available: bool,
}

impl View for Track {
    type V = TrackModel;

    open spec fn view(&self) -> TrackModel {
        TrackModel {
            id: self.id@,
            url: self.url@,
            title: self.title@,
            alias: match self.alias {
                Some(a) => Some(a@),
                None => None,
            },
            duration: self.duration,
            added_at: self.added_at,
            file_path: self.file_path@,
            available: self.available,
        }
    }
}

impl Clone for Track {
    fn clone(&self) -> (r: Self)
        ensures
            r == *self,
    {
        Track {
            id: self.id.clone(),
            url: self.url.clone(),
            title: self.title.clone(),
            alias: match &self.alias {
                Some(a) => Some(a.clone()),
                None => None,
            },
            duration: self.duration,
            added_at: self.added_at,
            file_path: self.file_path.clone(),
            available: self.available,
        }
    }
}

impl Track {
    /// A new track for the given source, stamped with a fresh identifier and
    /// the current time, available and without an alias.
    pub fn new(url: String, title: String, duration: u64, file_path: String) -> (r: Self)
        ensures
            r.id@.len() == 36,
            r.url == url,
            r.title == title,
            r.alias is None,
            r.duration == duration,
            r.file_path == file_path,
            r.available,
    {
        Track {
            id: fresh_id(),
            url,
            title,
            alias: None,
            duration,
            added_at: now_unix_seconds(),
            file_path,
            available: true,
        }
    }

    /// The alias if one is set, otherwise the title.
    pub fn display_name(&self) -> (r: &str)
        ensures
            r@ == self@.display_name(),
    {
        match &self.alias {
            Some(a) => a.as_str(),
            None => self.title.as_str(),
        }
    }

    /// The track's duration rendered as "M:SS".
    pub fn format_duration(&self) -> (r: String)
        ensures
            r@ == text::spec_format_duration(self.duration),
    {
        text::format_duration(self.duration)
    }
}

impl TrackModel {
    /// What a user-facing listing shows for the track.
    pub open spec fn display_name(self) -> Seq<char> {
        match self.alias {
            Some(a) => a,
            None => self.title,
        }
    }
}

/// A named, ordered collection of tracks.
#[derive(Debug, PartialEq)]
pub struct Playlist {
    pub id: String,
    pub name: String,
    pub created_at: u64,
}

impl Clone for Playlist {
    fn clone(&self) -> (r: Self)
        ensures
            r == *self,
    {
        Playlist { id: self.id.clone(), name: self.name.clone(), created_at: self.created_at }
    }
}

impl Playlist {
    /// A new playlist with a fresh identifier and the current creation time.
    pub fn new(name: String) -> (r: Self)
        ensures
            r.id@.len() == 36,
            r.name == name,
    {
        Playlist { id: fresh_id(), name, created_at: now_unix_seconds() }
    }
}

/// Membership of one track in one playlist, at a position.
#[derive(Debug, PartialEq)]
pub struct PlaylistTrack {
    pub playlist_id: String,
    pub track_id: String,
    pub position: i32,
}

impl Clone for PlaylistTrack {
    fn clone(&self) -> (r: Self)
        ensures
            r == *self,
    {
        PlaylistTrack {
            playlist_id: self.playlist_id.clone(),
            track_id: self.track_id.clone(),
            position: self.position,
        }
    }
}

/// The mathematical value of a [`PlaybackState`].
pub ghost struct StateModel {
    pub current_track: Option<TrackModel>,
    pub queue: Seq<TrackModel>,
    pub queue_index: int,
    pub is_playing: bool,
    pub volume: u8,
    pub position: u64,
    pub shuffle: bool,
    pub repeat: RepeatMode,
}

impl StateModel {
    /// The state invariant: the volume is a percentage, the queue index stays
    /// inside a non-empty queue, and an empty queue keeps the index at zero.
    pub open spec fn wf(self) -> bool {
        &&& self.volume <= 100
        &&& (self.queue.len() == 0 ==> self.queue_index == 0)
        &&& (self.queue.len() > 0 ==> 0 <= self.queue_index < self.queue.len())
    }
}

/// The single source of truth for transport and queue state. All components
/// mutate it only inside one short critical section at a time; every mutator
/// preserves [`StateModel::wf`].
#[derive(Debug, PartialEq)]
pub struct PlaybackState {
    pub current_track: Option<Track>,
    pub queue: Vec<Track>,
    pub queue_index: usize,
    pub is_playing: bool,
    pub volume: u8,
    pub position: u64,
    pub shuffle: bool,
    pub repeat: RepeatMode,
}

impl View for PlaybackState {
    type V = StateModel;

    open spec fn view(&self) -> StateModel {
        StateModel {
            current_track: match self.current_track {
                Some(t) => Some(t@),
                None => None,
            },
            queue: self.queue@.map_values(|t: Track| t@),
            queue_index: self.queue_index as int,
            is_playing: self.is_playing,
            volume: self.volume,
            position: self.position,
            shuffle: self.shuffle,
            repeat: self.repeat,
        }
    }
}

impl PlaybackState {
    /// The state invariant, stated over the model.
    pub open spec fn wf(&self) -> bool {
        self@.wf()
    }

    /// The startup state: nothing playing, an empty queue, volume 80.
    pub fn new() -> (r: Self)
        ensures
            r@ == (StateModel {
                current_track: None,
                queue: Seq::<TrackModel>::empty(),
                queue_index: 0,
                is_playing: false,
                volume: 80,
                position: 0,
                shuffle: false,
                repeat: RepeatMode::Off,
            }),
            r.wf(),
    {
        let r = PlaybackState {
            current_track: None,
            queue: Vec::new(),
            queue_index: 0,
            is_playing: false,
            volume: 80,
            position: 0,
            shuffle: false,
            repeat: RepeatMode::Off,
        };
        proof {
            assert(r@.queue =~= Seq::<TrackModel>::empty());
        }
        r
    }
}

/// A copy of a track vector, equal element by element.
pub fn clone_tracks(v: &Vec<Track>) -> (r: Vec<Track>)
    ensures
        r@ == v@,
{
    let mut r: Vec<Track> = Vec::new();
    let mut i: usize = 0;
    while i < v.len()
        invariant
            i <= v.len(),
            r@ == v@.take(i as int),
        decreases v.len() - i,
    {
        r.push(v[i].clone());
        i = i + 1;
        proof {
            assert(v@.take(i as int) =~= v@.take(i - 1).push(v@[i - 1]));
        }
    }
    proof {
        assert(v@.take(v.len() as int) =~= v@);
    }
    r
}

impl Clone for PlaybackState {
    fn clone(&self) -> (r: Self)
        ensures
            r@ == self@,
    {
        PlaybackState {
            current_track: match &self.current_track {
                Some(t) => Some(t.clone()),
                None => None,
            },
            queue: clone_tracks(&self.queue),
            queue_index: self.queue_index,
            is_playing: self.is_playing,
            volume: self.volume,
            position: self.position,
            shuffle: self.shuffle,
            repeat: self.repeat,
        }
    }
}

/// A snapshot of the whole catalog, for export and import.
#[derive(Debug, PartialEq)]
pub struct LibraryExport {
    pub version: String,
    pub exported_at: u64,
    pub tracks: Vec<Track>,
    pub playlists: Vec<Playlist>,
    pub playlist_tracks: Vec<PlaylistTrack>,
}

impl LibraryExport {
    /// A snapshot taken now, under the current export format version.
    pub fn new(tracks: Vec<Track>, playlists: Vec<Playlist>, playlist_tracks: Vec<PlaylistTrack>)
        -> (r: Self)
        ensures
            r.version@ == "1.0"@,
            r.tracks == tracks,
            r.playlists == playlists,
            r.playlist_tracks == playlist_tracks,
    {
        LibraryExport {
            version: String::from_str("1.0"),
            exported_at: now_unix_seconds(),
            tracks,
            playlists,
            playlist_tracks,
        }
    }
}

} // verus!
