//! Messages between the screens and the backend.

use vstd::prelude::*;

use crate::domain::{
    HistoryEntry, LyricSheet, PlaylistRow, SearchOutcome, Source, ThumbnailState, Track,
    TrackListeningStats,
};
use crate::keys::{KeyEvent, MouseEvent};
use crate::playback::{PlaybackStatus, QueueItemOrigin, RepeatMode};

verus! {

/// Input of the terminal.
#[derive(Debug, Clone, Copy, PartialEq, Eq, Structural)]
pub enum UiEvent {
    Key(KeyEvent),
    Mouse(MouseEvent),
    Resize(u16, u16),
}

/// What the screens ask the backend to do.
#[derive(Debug)]
pub enum BackendCommand {
    Search(String),
    SaveTrack(Box<Track>),
    /// Store the settings form as it stands.
    SaveSettings,
    LoadHistory,
    LoadListeningStats,
    LoadSources,
    LoadSettings,
    /// Play a song.
    Play(Box<Track>),
    Pause,
    Resume,
    Toggle,
    Stop,
    /// Jump to a second of the song with this identifier. If another song plays
    /// by then, the jump is void.
    Seek(u64, String),
    /// Volume from 0 to 100.
    Volume(u8),
    /// Recommendations and lyrics of a song. The answer repeats the generation.
    LoadRelated(Box<Track>, u64),
    /// Cover of a song.
    Thumbnail(Box<Track>),
    SetAutoplay(bool),
    /// Replace the whole queue.
    ReplaceQueue(Vec<Track>),
    /// Replace what autoplay added to the queue and keep what the user chose.
    ReplaceAutoplay(Vec<Track>),
    SetShuffle(bool),
    SetRepeat(RepeatMode),
    NextTrack,
    PrevTrack,
    ListPlaylists,
    CreatePlaylist(String),
    RenamePlaylist(i64, String),
    DeletePlaylist(i64),
    PlaylistTracks(i64),
    AddToPlaylist(i64, i64),
    RemoveFromPlaylist(i64, i64),
    MovePlaylistTrack(i64, i64, usize),
    SetArtworkOverride(i64, String),
    /// The liked songs.
    LoadLiked,
    ToggleLiked(Box<Track>),
    /// Play a whole playlist as the queue.
    PlayPlaylist(i64),
}

/// What the backend tells the screens.
#[derive(Debug)]
pub enum BackendEvent {
    SearchResults { query: String, outcome: Box<SearchOutcome> },
    TrackSaved { track: Box<Track>, internal_id: i64 },
    History(Vec<HistoryEntry>),
    ListeningStats(Vec<TrackListeningStats>),
    Sources(Vec<Source>),
    /// The settings form was filled in.
    Settings,
    Playback(PlaybackStatus),
    /// The same song was started again after its stream was renewed.
    RecoveryResumed(PlaybackStatus),
    /// A song started and was recorded; the statistics come with it.
    PlaybackStarted { status: PlaybackStatus, stats: Vec<TrackListeningStats> },
    PlaybackError(String),
    SeekStarted,
    SeekCompleted,
    SeekFailed,
    /// The stream had a problem that does not end the song.
    StreamError(String),
    Related {
        track: Box<Track>,
        /// Recommendations of the song alone.
        related: Vec<Track>,
        /// The queue with the recommendations in it.
        queue: Vec<Track>,
        /// Who added each song of the queue.
        origins: Vec<QueueItemOrigin>,
        synced: Option<LyricSheet>,
        /// Generation of the request.
        generation: u64,
    },
    QueueState { shuffle: bool, repeat: RepeatMode, len: usize },
    /// The cover of a song, by its identifier.
    Thumbnail { key: String, state: ThumbnailState },
    /// A fresh analysis of the audio is there.
    VisualFrame,
    Playlists(Vec<PlaylistRow>),
    PlaylistTracks { playlist_id: i64, tracks: Vec<Track> },
    /// All liked songs.
    L1K3D(Vec<Track>),
    /// A song was liked or not any more.
    L1K3DChanged { track: Box<Track>, liked: bool },
    /// The queue changed.
    Queue { queue: Vec<Track>, origins: Vec<QueueItemOrigin> },
    Message(String),
    Error(String),
}

} // verus!
