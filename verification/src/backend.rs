//! The decisions of the backend.
//!
//! A command or an event of the engine starts a job. A job asks for one piece
//! of outside work at a time (the engine, the queue, the store, the network),
//! gets the reply and goes on, until it has nothing left to ask. What it tells
//! the screens comes out on the way.

use vstd::prelude::*;

use crate::domain::{
    clone_tracks, ident, opt_ident, HistoryEntry, LyricSheet, PlaylistRow, SearchOutcome, Source,
    ThumbnailState, Track, TrackListeningStats, MILLISECOND,
};
use crate::event::{BackendCommand, BackendEvent};
use crate::playback::{
    decide_recovery, idle_status, is_transport_failure, PlaybackEvent, PlaybackState,
    PlaybackStatus, QueueItemOrigin, RecoveryAction, RecoveryBudget, RepeatMode,
};
use crate::taste::{taste_order, taste_ordered, Candidate};
use crate::text::{clone_opt, concat2, opt_text};

verus! {

/// How a song came to be played.
#[derive(Debug, Clone, Copy, PartialEq, Eq, Structural)]
pub enum PlayContext {
    /// The user chose it.
    Manual,
    /// The user skipped to it.
    Queue,
    /// It followed by itself.
    Autoplay,
}

/// What the user did with a song.
#[derive(Debug, Clone, Copy, PartialEq, Eq, Structural)]
pub enum SignalKind {
    Play,
    Completed,
    Skip,
    Like,
    Unlike,
}

/// An interaction to be stored.
#[derive(Debug, Clone, Copy, PartialEq, Eq, Structural)]
pub struct Signal {
    pub track_id: i64,
    pub kind: SignalKind,
    pub context: PlayContext,
    /// Time listened, in milliseconds.
    pub listened_ms: Option<i64>,
    /// Duration of the song, in milliseconds.
    pub total_ms: Option<i64>,
}

/// Outside work.
#[derive(Debug)]
pub enum Action {
    /// The state of the engine.
    EngineStatus,
    Pause,
    Resume,
    Stop,
    SetVolume(u8),
    /// Jump to a second.
    SeekTo(u64),
    /// Resolve the stream of a song and play it.
    PlayStream(Track),
    /// Resolve the stream of a song afresh and play it.
    RefreshStream(Track),
    /// Warm the cache for the next song if the current one is about to end.
    Preload { position: u64, duration: Option<u64>, next: Option<Track> },
    /// Anchor the queue at a song.
    QueueMarkPlayed(String),
    QueueReplace(Vec<Track>),
    QueueReplaceAutoplay(Vec<Track>),
    QueueShuffle(bool),
    QueueRepeat(RepeatMode),
    /// Append what is not in the queue, as recommendations.
    QueueAppend(Vec<Track>),
    /// Replace the queue by a playlist.
    QueueSetPlaylist(Vec<Track>),
    /// The neighbour of a song in the queue; of the anchor when `None`.
    QueuePick(bool, Option<String>),
    QueueInfo,
    StoreTrack(Track),
    RecordSignal(Signal),
    RecordHistory { track_id: i64, source: Source, duration: Option<u64> },
    LoadStats,
    /// The latest entries of the history.
    RecentHistory(usize),
    ListPlaylists,
    CreatePlaylist(String),
    RenamePlaylist(i64, String),
    DeletePlaylist(i64),
    PlaylistTracks(i64),
    AddToPlaylist(i64, i64),
    RemoveFromPlaylist(i64, i64),
    MovePlaylistTrack(i64, i64, usize),
    SetArtwork(i64, String),
    LikedTracks,
    IsLiked(i64),
    SetLiked(i64, bool),
    /// The internal number of a song of a source.
    LookupExternal(String),
    CachedLyrics(i64),
    CacheLyrics(i64, String),
    StorePalette(i64, [[u8; 3]; 3]),
    /// Search the catalogue, at most this many results.
    SearchCatalog(String, usize),
    /// Recommendations of a song of the source, with their durations.
    FetchRelated(String),
    FetchLyrics(Track),
    /// Rate candidates by the taste of the user.
    RateCandidates(Vec<Track>),
    FetchThumbnail(Track),
    PersistSettings,
    AvailableSources,
    /// Start to accumulate the sound profile of a song.
    BeginAcoustic(i64),
    /// Store the sound profile accumulated so far.
    PersistAcoustic,
}

/// What became of outside work.
#[derive(Debug)]
pub enum Reply {
    Done,
    Unit(Result<(), String>),
    Number(Result<i64, String>),
    MaybeNumber(Option<i64>),
    Flag(Result<bool, String>),
    Status(PlaybackStatus),
    Played(Result<PlaybackStatus, String>),
    /// `None`: there is no catalogue to search.
    Found(Option<Result<SearchOutcome, String>>),
    History(Result<Vec<HistoryEntry>, String>),
    Stats(Result<Vec<TrackListeningStats>, String>),
    Rows(Result<Vec<PlaylistRow>, String>),
    Tracks(Result<Vec<Track>, String>),
    Related(Vec<Track>),
    Sources(Vec<Source>),
    Lyrics(Option<LyricSheet>),
    /// The candidates as they were: nothing is known of the user's taste.
    Unrated(Vec<Track>),
    Rated(Vec<Candidate>),
    Queue {
        queue: Vec<Track>,
        origins: Vec<QueueItemOrigin>,
        shuffle: bool,
        repeat: RepeatMode,
        len: usize,
    },
    QueueInfo { empty: bool, last_played: Option<String> },
    Picked(Option<Track>),
    Thumbnail(ThumbnailState),
}

/// What follows the start of a song.
#[derive(Debug)]
pub enum AfterStart {
    Play,
    Skip,
    /// Autoplay, after this song ended.
    Autoplay(Option<String>),
    /// A playlist became the queue.
    Playlist {
        queue: Vec<Track>,
        origins: Vec<QueueItemOrigin>,
        shuffle: bool,
        repeat: RepeatMode,
        len: usize,
    },
}

/// How far the start of a song got.
#[derive(Debug)]
pub enum StartStage {
    /// The queue is being anchored.
    Marking,
    /// The stream is being resolved and played.
    Playing,
    /// The song plays and is being stored.
    Storing(PlaybackStatus),
    /// The interaction is being recorded.
    Signalling(PlaybackStatus, i64),
    /// The sound profile is being set up.
    Profiling(PlaybackStatus, i64),
    /// The history is being written.
    Recording(PlaybackStatus, i64),
    /// The statistics are being loaded.
    Counting(PlaybackStatus),
}

/// How far the search for recommendations got.
#[derive(Debug)]
pub enum RelatedStage {
    Fetching,
    /// Recommendations are there; lyrics are being fetched.
    Lyrics(Vec<Track>),
    /// The number of the song is being looked up.
    Looking(Vec<Track>, Option<LyricSheet>),
    /// Cached lyrics are being looked for.
    Cached(Vec<Track>, i64),
    /// The lyrics are being cached.
    Caching(Vec<Track>, Option<LyricSheet>),
    /// The recommendations are being rated.
    Rating(Option<LyricSheet>),
    /// The recommendations are being appended to the queue.
    Appending(Vec<Track>, Option<LyricSheet>),
}

/// A job that waits for a reply.
#[derive(Debug)]
pub enum Job {
    Settings,
    History,
    Stats,
    Sources,
    /// An order to the engine.
    Engine,
    /// Pause or resume: the state decides.
    Toggling,
    /// Paused or resumed, from this state.
    Toggled(PlaybackStatus),
    QueueModes,
    QueueShown,
    Searching(String),
    Saving(Track),
    Start(Track, PlayContext, AfterStart, StartStage),
    /// A skip waits for the neighbour in the queue.
    Skipping,
    /// The skip of the old song is being recorded.
    Skipped(Track),
    Related(Track, u64, RelatedStage),
    Thumbnail(Track),
    /// The colours of a cover are being stored.
    Palette(Track, ThumbnailState),
    Listing,
    /// A change of the playlists, with the word for its failure.
    Mutating(&'static str),
    PlaylistTracks(i64),
    Moving(i64),
    Moved(i64),
    Artwork,
    Liked,
    LikeStoring(Track),
    LikeReading(Track, i64),
    LikeWriting(Track, i64, bool),
    LikeSignalling(Track, bool),
    LikeListing(Track, bool),
    PlaylistLoading,
    PlaylistQueueing(Track),
    /// The song ended: its completion is being recorded.
    Completing,
    /// The sound profile is being stored.
    Profiled,
    /// Which song ended?
    Finished,
    /// May autoplay go on after this song?
    Autoplay(Option<String>),
    /// Autoplay waits for the neighbour in the queue.
    AutoplayPicking(Option<String>),
    /// Autoplay failed: is it still worth telling?
    AutoplayFailed(Option<String>, String),
    /// The stream failed with this message.
    Failed(String),
    Recovering(String),
    /// The engine is asked for its state to be shown.
    Forwarding,
    Ticking,
    Preloading(u64, Option<u64>),
    Preloaded,
}

/// One step of a job: what the screens are told, and what is to be done next.
#[derive(Debug)]
pub struct Step {
    pub emit: Vec<BackendEvent>,
    pub next: Option<(Action, Job)>,
}

/// The step tells nothing and goes on.
pub open spec fn asks(s: Step, action: Action, job: Job) -> bool {
    s.emit@ == Seq::<BackendEvent>::empty() && s.next == Some((action, job))
}

/// The job ends and tells these events.
pub open spec fn ends(s: Step, events: Seq<BackendEvent>) -> bool {
    s.emit@ == events && s.next is None
}

/// The job ends with an error.
pub open spec fn fails(s: Step, text: Seq<char>) -> bool {
    &&& s.next is None
    &&& s.emit@.len() == 1
    &&& s.emit@[0] matches BackendEvent::Error(t) && t@ == text
}

/// The job ends with a message.
pub open spec fn tells(s: Step, text: Seq<char>) -> bool {
    &&& s.next is None
    &&& s.emit@.len() == 1
    &&& s.emit@[0] matches BackendEvent::Message(t) && t@ == text
}

fn go_on(action: Action, job: Job) -> (s: Step)
    ensures
        asks(s, action, job),
{
    Step { emit: Vec::new(), next: Some((action, job)) }
}

fn end() -> (s: Step)
    ensures
        ends(s, Seq::empty()),
{
    Step { emit: Vec::new(), next: None }
}

fn end_with(event: BackendEvent) -> (s: Step)
    ensures
        ends(s, seq![event]),
{
    let mut emit: Vec<BackendEvent> = Vec::new();
    emit.push(event);
    assert(emit@ =~= seq![event]);
    Step { emit, next: None }
}

fn fail(prefix: &str, e: &String) -> (s: Step)
    ensures
        fails(s, prefix@ + e@),
{
    end_with(BackendEvent::Error(concat2(prefix, e.as_str())))
}

fn tell(text: &str) -> (s: Step)
    ensures
        tells(s, text@),
{
    end_with(BackendEvent::Message(text.to_string()))
}

/// What the backend remembers between jobs.
#[derive(Debug)]
pub struct Backend {
    pub autoplay: bool,
    /// The song that was started last.
    pub current: Option<Track>,
    /// How it came to be played.
    pub current_context: Option<PlayContext>,
    pub recovery_budget: RecoveryBudget,
}

/// Whether a command may take long. Such commands run beside the others, so
/// that the controls of the playback never wait.
pub open spec fn takes_long(cmd: BackendCommand) -> bool {
    match cmd {
        BackendCommand::SaveSettings | BackendCommand::LoadHistory
        | BackendCommand::LoadListeningStats | BackendCommand::LoadSources
        | BackendCommand::LoadSettings | BackendCommand::Pause | BackendCommand::Resume
        | BackendCommand::Toggle | BackendCommand::Stop | BackendCommand::Volume(_)
        | BackendCommand::SetAutoplay(_) | BackendCommand::ReplaceQueue(_)
        | BackendCommand::ReplaceAutoplay(_) | BackendCommand::SetShuffle(_)
        | BackendCommand::SetRepeat(_) => false,
        _ => true,
    }
}

/// Whether a command may take long.
pub fn is_heavy(cmd: &BackendCommand) -> (r: bool)
    ensures
        r == takes_long(*cmd),
{
    matches!(
        cmd,
        BackendCommand::Search(_)
            | BackendCommand::SaveTrack(_)
            | BackendCommand::Play(_)
            | BackendCommand::NextTrack
            | BackendCommand::PrevTrack
            | BackendCommand::LoadRelated(..)
            | BackendCommand::Thumbnail(_)
            | BackendCommand::Seek(..)
            | BackendCommand::ListPlaylists
            | BackendCommand::CreatePlaylist(_)
            | BackendCommand::RenamePlaylist(..)
            | BackendCommand::DeletePlaylist(_)
            | BackendCommand::PlaylistTracks(_)
            | BackendCommand::AddToPlaylist(..)
            | BackendCommand::RemoveFromPlaylist(..)
            | BackendCommand::MovePlaylistTrack(..)
            | BackendCommand::SetArtworkOverride(..)
            | BackendCommand::LoadLiked
            | BackendCommand::ToggleLiked(_)
            | BackendCommand::PlayPlaylist(_)
    )
}

/// Whether the rest of a job runs beside the others: it may start another stream,
/// and the controls of the playback never wait for that.
pub open spec fn leaves_the_loop(job: Job) -> bool {
    job is Autoplay || job is Recovering
}

/// Whether the rest of a job runs beside the others.
pub fn runs_beside(job: &Job) -> (r: bool)
    ensures
        r == leaves_the_loop(*job),
{
    matches!(job, Job::Autoplay(_) | Job::Recovering(_))
}

/// Whether an event of the engine is a change of state that the screens must
/// see at once, without waiting for the next tick. The others are told in their
/// own way.
pub open spec fn is_state_change(ev: PlaybackEvent) -> bool {
    ev is Buffering || ev is Playing || ev is Paused || ev is Stopped
}

pub fn forwards_real_state(ev: &PlaybackEvent) -> (r: bool)
    ensures
        r == is_state_change(*ev),
{
    matches!(
        ev,
        PlaybackEvent::Buffering
            | PlaybackEvent::Playing
            | PlaybackEvent::Paused
            | PlaybackEvent::Stopped
    )
}

/// A snapshot and the song to be stored, after `track` started with `status`:
/// the song of the snapshot if it has one, with the duration of the snapshot if
/// its own is unknown.
pub open spec fn started_song(track: Track, status: PlaybackStatus) -> Track {
    let t = match status.track {
        Some(t) => t,
        None => track,
    };
    if t.duration is None {
        Track { duration: status.duration, ..t }
    } else {
        t
    }
}

/// Milliseconds of a duration.
pub open spec fn millis(d: Option<u64>) -> Option<i64> {
    match d {
        Some(d) => Some((d / MILLISECOND) as i64),
        None => None,
    }
}

fn to_millis(d: Option<u64>) -> (r: Option<i64>)
    ensures
        r == millis(d),
{
    match d {
        Some(d) => Some((d / MILLISECOND) as i64),
        None => None,
    }
}

/// The internal number of the current song, if it is stored.
pub open spec fn current_id(b: Backend) -> Option<i64> {
    match b.current {
        Some(t) if t.id > 0 => Some(t.id),
        _ => None,
    }
}

/// How the current song came to be played; by hand if it is not known.
pub open spec fn context_or_manual(b: Backend) -> PlayContext {
    match b.current_context {
        Some(c) => c,
        None => PlayContext::Manual,
    }
}

/// `post` is `pre` with a song being started.
pub open spec fn song_started(pre: Backend, track: Track, context: PlayContext, post: Backend) -> bool {
    &&& post.autoplay == pre.autoplay
    &&& post.current == Some(track)
    &&& post.current_context == Some(context)
    &&& opt_text(post.recovery_budget.armed) == Some(ident(track))
}

/// The first step of starting a song: the queue is anchored at it.
pub open spec fn start_begun(
    pre: Backend,
    track: Track,
    context: PlayContext,
    after: AfterStart,
    post: Backend,
    s: Step,
) -> bool {
    &&& song_started(pre, track, context, post)
    &&& s.emit@ == Seq::<BackendEvent>::empty()
    &&& s.next matches Some((Action::QueueMarkPlayed(key), job)) && key@ == ident(track) && job
        == Job::Start(track, context, after, StartStage::Marking)
}

/// How a failed start ends.
pub open spec fn start_failed(after: AfterStart, e: Seq<char>, s: Step) -> bool {
    match after {
        AfterStart::Play => {
            &&& s.next is None
            &&& s.emit@.len() == 1
            &&& s.emit@[0] matches BackendEvent::PlaybackError(t) && t@ == e
        },
        AfterStart::Skip => tells(s, "salto: "@ + e),
        AfterStart::Autoplay(finished) => {
            &&& s.emit@ == Seq::<BackendEvent>::empty()
            &&& s.next matches Some((Action::QueueInfo, Job::AutoplayFailed(f, t))) && f == finished
                && t@ == "autoplay: "@ + e
        },
        AfterStart::Playlist { queue, origins, shuffle, repeat, len } => {
            &&& s.next is None
            &&& s.emit@.len() == 3
            &&& s.emit@[0] == (BackendEvent::Queue { queue, origins })
            &&& s.emit@[1] == (BackendEvent::QueueState { shuffle, repeat, len })
            &&& s.emit@[2] matches BackendEvent::PlaybackError(t) && t@ == e
        },
    }
}

/// How a start that worked ends.
pub open spec fn start_worked(
    after: AfterStart,
    status: PlaybackStatus,
    stats: Vec<TrackListeningStats>,
    s: Step,
) -> bool {
    let started = BackendEvent::PlaybackStarted { status, stats };
    match after {
        AfterStart::Playlist { queue, origins, shuffle, repeat, len } => ends(
            s,
            seq![
                BackendEvent::Queue { queue, origins },
                BackendEvent::QueueState { shuffle, repeat, len },
                started,
            ],
        ),
        _ => ends(s, seq![started]),
    }
}

/// What a reply does to the start of a song.
pub open spec fn start_resumed(
    pre: Backend,
    track: Track,
    context: PlayContext,
    after: AfterStart,
    stage: StartStage,
    reply: Reply,
    post: Backend,
    s: Step,
) -> bool {
    match (stage, reply) {
        (StartStage::Marking, _) => post == pre && asks(
            s,
            Action::PlayStream(track),
            Job::Start(track, context, after, StartStage::Playing),
        ),
        (StartStage::Playing, Reply::Played(Ok(status))) => {
            let song = started_song(track, status);
            &&& post == pre
            &&& asks(
                s,
                Action::StoreTrack(song),
                Job::Start(
                    song,
                    context,
                    after,
                    StartStage::Storing(PlaybackStatus { track: Some(song), ..status }),
                ),
            )
        },
        (StartStage::Playing, Reply::Played(Err(e))) => post == pre && start_failed(after, e@, s),
        (StartStage::Storing(status), Reply::Number(Ok(id))) => post == pre && asks(
            s,
            Action::RecordSignal(
                Signal {
                    track_id: id,
                    kind: SignalKind::Play,
                    context,
                    listened_ms: None,
                    total_ms: millis(track.duration),
                },
            ),
            Job::Start(track, context, after, StartStage::Signalling(status, id)),
        ),
        (StartStage::Storing(status), Reply::Number(Err(e))) => post == pre && start_failed(
            after,
            "guardar escucha: "@ + e@,
            s,
        ),
        (StartStage::Signalling(status, id), _) => post == pre && asks(
            s,
            Action::BeginAcoustic(id),
            Job::Start(track, context, after, StartStage::Profiling(status, id)),
        ),
        (StartStage::Profiling(status, id), _) => post == pre && asks(
            s,
            Action::RecordHistory { track_id: id, source: track.source, duration: track.duration },
            Job::Start(track, context, after, StartStage::Recording(status, id)),
        ),
        (StartStage::Recording(status, id), Reply::Unit(Ok(_))) => {
            &&& post == (Backend {
                current: match pre.current {
                    Some(t) => Some(
                        Track {
                            id,
                            duration: if t.duration is None {
                                track.duration
                            } else {
                                t.duration
                            },
                            ..t
                        },
                    ),
                    None => None,
                },
                ..pre
            })
            &&& asks(
                s,
                Action::LoadStats,
                Job::Start(track, context, after, StartStage::Counting(status)),
            )
        },
        (StartStage::Recording(status, id), Reply::Unit(Err(e))) => post == pre && start_failed(
            after,
            "historial: "@ + e@,
            s,
        ),
        (StartStage::Counting(status), Reply::Stats(Ok(stats))) => post == pre && start_worked(
            after,
            status,
            stats,
            s,
        ),
        (StartStage::Counting(status), Reply::Stats(Err(e))) => post == pre && start_failed(
            after,
            "estadísticas: "@ + e@,
            s,
        ),
        _ => post == pre && ends(s, Seq::empty()),
    }
}

impl Backend {
    /// Autoplay is on and nothing has been played.
    pub fn new() -> (r: Backend)
        ensures
            r.autoplay,
            r.current is None,
            r.current_context is None,
            r.recovery_budget.armed is None,
    {
        Backend {
            autoplay: true,
            current: None,
            current_context: None,
            recovery_budget: RecoveryBudget::default(),
        }
    }

    /// A jump is void when the song it was asked on is not the current one any
    /// more, or when there is none.
    pub fn seek_is_stale(current: Option<&Track>, for_track: &String) -> (r: bool)
        ensures
            r == (match current {
                Some(t) => ident(*t) != for_track@,
                None => true,
            }),
    {
        match current {
            Some(t) => !t.has_identifier(for_track),
            None => true,
        }
    }

    fn begin_start(&mut self, track: Track, context: PlayContext, after: AfterStart) -> (s: Step)
        ensures
            start_begun(*old(self), track, context, after, *final(self), s),
    {
        let key = track.identifier();
        self.current = Some(track.clone());
        self.current_context = Some(context);
        self.recovery_budget.arm(&key);
        go_on(
            Action::QueueMarkPlayed(key),
            Job::Start(track, context, after, StartStage::Marking),
        )
    }

    fn resume_start(
        &mut self,
        track: Track,
        context: PlayContext,
        after: AfterStart,
        stage: StartStage,
        reply: Reply,
    ) -> (s: Step)
        ensures
            start_resumed(*old(self), track, context, after, stage, reply, *final(self), s),
    {
        match (stage, reply) {
            (StartStage::Marking, _) => go_on(
                Action::PlayStream(track.clone()),
                Job::Start(track, context, after, StartStage::Playing),
            ),
            (StartStage::Playing, Reply::Played(Ok(status))) => {
                let PlaybackStatus { track: found, state, position, duration, stalled } = status;
                let mut song = match found {
                    Some(t) => t,
                    None => track,
                };
                if song.duration.is_none() {
                    song.duration = duration;
                }
                let shown = PlaybackStatus {
                    track: Some(song.clone()),
                    state,
                    position,
                    duration,
                    stalled,
                };
                go_on(
                    Action::StoreTrack(song.clone()),
                    Job::Start(song, context, after, StartStage::Storing(shown)),
                )
            },
            (StartStage::Playing, Reply::Played(Err(e))) => finish_failed(after, e),
            (StartStage::Storing(status), Reply::Number(Ok(id))) => {
                let signal = Signal {
                    track_id: id,
                    kind: SignalKind::Play,
                    context,
                    listened_ms: None,
                    total_ms: to_millis(track.duration),
                };
                go_on(
                    Action::RecordSignal(signal),
                    Job::Start(track, context, after, StartStage::Signalling(status, id)),
                )
            },
            (StartStage::Storing(_), Reply::Number(Err(e))) => finish_failed(
                after,
                concat2("guardar escucha: ", e.as_str()),
            ),
            (StartStage::Signalling(status, id), _) => go_on(
                Action::BeginAcoustic(id),
                Job::Start(track, context, after, StartStage::Profiling(status, id)),
            ),
            (StartStage::Profiling(status, id), _) => {
                let action = Action::RecordHistory {
                    track_id: id,
                    source: track.source,
                    duration: track.duration,
                };
                go_on(
                    action,
                    Job::Start(track, context, after, StartStage::Recording(status, id)),
                )
            },
            (StartStage::Recording(status, id), Reply::Unit(Ok(_))) => {
                self.note_stored(id, track.duration);
                go_on(
                    Action::LoadStats,
                    Job::Start(track, context, after, StartStage::Counting(status)),
                )
            },
            (StartStage::Recording(_, _), Reply::Unit(Err(e))) => finish_failed(
                after,
                concat2("historial: ", e.as_str()),
            ),
            (StartStage::Counting(status), Reply::Stats(Ok(stats))) => finish_worked(
                after,
                status,
                stats,
            ),
            (StartStage::Counting(_), Reply::Stats(Err(e))) => finish_failed(
                after,
                concat2("estadísticas: ", e.as_str()),
            ),
            _ => end(),
        }
    }

    /// The current song was stored under a number.
    fn note_stored(&mut self, id: i64, duration: Option<u64>)
        ensures
            *final(self) == (Backend {
                current: match old(self).current {
                    Some(t) => Some(
                        Track {
                            id,
                            duration: if t.duration is None {
                                duration
                            } else {
                                t.duration
                            },
                            ..t
                        },
                    ),
                    None => None,
                },
                ..*old(self)
            }),
    {
        if let Some(t) = self.current.as_mut() {
            t.id = id;
            if t.duration.is_none() {
                t.duration = duration;
            }
        }
    }
}

fn finish_failed(after: AfterStart, e: String) -> (s: Step)
    ensures
        start_failed(after, e@, s),
{
    match after {
        AfterStart::Play => end_with(BackendEvent::PlaybackError(e)),
        AfterStart::Skip => end_with(BackendEvent::Message(concat2("salto: ", e.as_str()))),
        AfterStart::Autoplay(finished) => go_on(
            Action::QueueInfo,
            Job::AutoplayFailed(finished, concat2("autoplay: ", e.as_str())),
        ),
        AfterStart::Playlist { queue, origins, shuffle, repeat, len } => {
            let mut emit: Vec<BackendEvent> = Vec::new();
            emit.push(BackendEvent::Queue { queue, origins });
            emit.push(BackendEvent::QueueState { shuffle, repeat, len });
            emit.push(BackendEvent::PlaybackError(e));
            Step { emit, next: None }
        },
    }
}

fn finish_worked(after: AfterStart, status: PlaybackStatus, stats: Vec<TrackListeningStats>) -> (s:
    Step)
    ensures
        start_worked(after, status, stats, s),
{
    let started = BackendEvent::PlaybackStarted { status, stats };
    match after {
        AfterStart::Playlist { queue, origins, shuffle, repeat, len } => {
            let mut emit: Vec<BackendEvent> = Vec::new();
            let first = BackendEvent::Queue { queue, origins };
            let second = BackendEvent::QueueState { shuffle, repeat, len };
            emit.push(first);
            emit.push(second);
            emit.push(started);
            assert(emit@ =~= seq![first, second, started]);
            Step { emit, next: None }
        },
        _ => end_with(started),
    }
}

/// The identifier that the source gave to a song, or nothing.
pub open spec fn source_key(t: Track) -> Seq<char> {
    match t.external_id {
        Some(id) => id@,
        None => Seq::empty(),
    }
}

/// The first step of a command.
pub open spec fn command_begun(pre: Backend, cmd: BackendCommand, post: Backend, s: Step) -> bool {
    match cmd {
        BackendCommand::SetAutoplay(on) => {
            &&& post == (Backend { autoplay: on, ..pre })
            &&& ends(s, Seq::empty())
        },
        BackendCommand::Play(track) => start_begun(
            pre,
            *track,
            PlayContext::Manual,
            AfterStart::Play,
            post,
            s,
        ),
        BackendCommand::Seek(secs, song) => {
            &&& post == pre
            &&& if opt_ident(pre.current) == Some(song@) {
                asks(s, Action::SeekTo(secs), Job::Engine)
            } else {
                ends(s, Seq::empty())
            }
        },
        BackendCommand::LoadRelated(track, generation) => {
            &&& post == pre
            &&& s.emit@ == Seq::<BackendEvent>::empty()
            &&& s.next matches Some((Action::FetchRelated(key), job)) && key@ == source_key(*track)
                && job == Job::Related(*track, generation, RelatedStage::Fetching)
        },
        BackendCommand::LoadSettings => post == pre && ends(s, seq![BackendEvent::Settings]),
        _ => post == pre && asks(s, command_work(cmd).0, command_work(cmd).1),
    }
}

/// The outside work of a command that begins with it, and the job that waits.
pub open spec fn command_work(cmd: BackendCommand) -> (Action, Job) {
    match cmd {
        BackendCommand::Search(query) => (
            Action::SearchCatalog(query, 10),
            Job::Searching(query),
        ),
        BackendCommand::SaveTrack(t) => (Action::StoreTrack(*t), Job::Saving(*t)),
        BackendCommand::SaveSettings => (Action::PersistSettings, Job::Settings),
        BackendCommand::LoadHistory => (Action::RecentHistory(30), Job::History),
        BackendCommand::LoadListeningStats => (Action::LoadStats, Job::Stats),
        BackendCommand::LoadSources => (Action::AvailableSources, Job::Sources),
        BackendCommand::Pause => (Action::Pause, Job::Engine),
        BackendCommand::Resume => (Action::Resume, Job::Engine),
        BackendCommand::Toggle => (Action::EngineStatus, Job::Toggling),
        BackendCommand::Stop => (Action::Stop, Job::Engine),
        BackendCommand::Volume(v) => (Action::SetVolume(v), Job::Engine),
        BackendCommand::Thumbnail(t) => (Action::FetchThumbnail(*t), Job::Thumbnail(*t)),
        BackendCommand::ReplaceQueue(tracks) => (Action::QueueReplace(tracks), Job::QueueModes),
        BackendCommand::ReplaceAutoplay(tracks) => (
            Action::QueueReplaceAutoplay(tracks),
            Job::QueueShown,
        ),
        BackendCommand::SetShuffle(on) => (Action::QueueShuffle(on), Job::QueueModes),
        BackendCommand::SetRepeat(mode) => (Action::QueueRepeat(mode), Job::QueueModes),
        BackendCommand::NextTrack => (Action::QueuePick(true, None), Job::Skipping),
        BackendCommand::PrevTrack => (Action::QueuePick(false, None), Job::Skipping),
        BackendCommand::ListPlaylists => (Action::ListPlaylists, Job::Listing),
        BackendCommand::CreatePlaylist(name) => (
            Action::CreatePlaylist(name),
            Job::Mutating("crear playlist: "),
        ),
        BackendCommand::RenamePlaylist(id, name) => (
            Action::RenamePlaylist(id, name),
            Job::Mutating("renombrar playlist: "),
        ),
        BackendCommand::DeletePlaylist(id) => (
            Action::DeletePlaylist(id),
            Job::Mutating("borrar playlist: "),
        ),
        BackendCommand::PlaylistTracks(id) => (Action::PlaylistTracks(id), Job::PlaylistTracks(id)),
        BackendCommand::AddToPlaylist(pid, tid) => (
            Action::AddToPlaylist(pid, tid),
            Job::Mutating("añadir: "),
        ),
        BackendCommand::RemoveFromPlaylist(pid, tid) => (
            Action::RemoveFromPlaylist(pid, tid),
            Job::Mutating("quitar: "),
        ),
        BackendCommand::MovePlaylistTrack(pid, tid, to) => (
            Action::MovePlaylistTrack(pid, tid, to),
            Job::Moving(pid),
        ),
        BackendCommand::SetArtworkOverride(tid, image) => (
            Action::SetArtwork(tid, image),
            Job::Artwork,
        ),
        BackendCommand::LoadLiked => (Action::LikedTracks, Job::Liked),
        BackendCommand::ToggleLiked(t) => (Action::StoreTrack(*t), Job::LikeStoring(*t)),
        BackendCommand::PlayPlaylist(id) => (Action::PlaylistTracks(id), Job::PlaylistLoading),
        // The commands that `command_begun` treats by themselves.
        _ => (Action::QueueInfo, Job::Finished),
    }
}

/// What a reply does to the search for recommendations: recommendations, then
/// lyrics, from the cache if they are not found, then the rating, then the
/// queue.
pub open spec fn related_resumed(
    track: Track,
    generation: u64,
    stage: RelatedStage,
    reply: Reply,
    s: Step,
) -> bool {
    match (stage, reply) {
        (RelatedStage::Fetching, Reply::Related(related)) => asks(
            s,
            Action::FetchLyrics(track),
            Job::Related(track, generation, RelatedStage::Lyrics(related)),
        ),
        (RelatedStage::Lyrics(related), Reply::Lyrics(sheet)) => if track.id > 0 {
            lyrics_numbered(track, generation, related, sheet, track.id, s)
        } else if source_key(track).len() > 0 {
            &&& s.emit@ == Seq::<BackendEvent>::empty()
            &&& s.next matches Some((Action::LookupExternal(key), job)) && key@ == source_key(track)
                && job == Job::Related(track, generation, RelatedStage::Looking(related, sheet))
        } else {
            rating_asked(track, generation, related, sheet, s)
        },
        (RelatedStage::Looking(related, sheet), Reply::MaybeNumber(Some(id))) => lyrics_numbered(
            track,
            generation,
            related,
            sheet,
            id,
            s,
        ),
        (RelatedStage::Looking(related, sheet), Reply::MaybeNumber(None)) => rating_asked(
            track,
            generation,
            related,
            sheet,
            s,
        ),
        (RelatedStage::Cached(related, id), Reply::Lyrics(Some(sheet))) => caching_asked(
            track,
            generation,
            related,
            sheet,
            id,
            s,
        ),
        (RelatedStage::Cached(related, id), Reply::Lyrics(None)) => rating_asked(
            track,
            generation,
            related,
            None,
            s,
        ),
        (RelatedStage::Caching(related, sheet), _) => rating_asked(
            track,
            generation,
            related,
            sheet,
            s,
        ),
        (RelatedStage::Rating(sheet), Reply::Unrated(tracks)) => appending_asked(
            track,
            generation,
            tracks@,
            sheet,
            s,
        ),
        (RelatedStage::Rating(sheet), Reply::Rated(candidates)) => appending_asked(
            track,
            generation,
            taste_ordered(candidates@),
            sheet,
            s,
        ),
        (RelatedStage::Appending(related, sheet), Reply::Queue {
            queue,
            origins,
            shuffle,
            repeat,
            len,
        }) => ends(
            s,
            seq![
                BackendEvent::Related {
                    track: Box::new(track),
                    related,
                    queue,
                    origins,
                    synced: sheet,
                    generation,
                },
            ],
        ),
        _ => ends(s, Seq::empty()),
    }
}

/// The number of the song is known: found lyrics are cached, missing ones are
/// looked for in the cache.
pub open spec fn lyrics_numbered(
    track: Track,
    generation: u64,
    related: Vec<Track>,
    sheet: Option<LyricSheet>,
    id: i64,
    s: Step,
) -> bool {
    match sheet {
        Some(found) => caching_asked(track, generation, related, found, id, s),
        None => asks(
            s,
            Action::CachedLyrics(id),
            Job::Related(track, generation, RelatedStage::Cached(related, id)),
        ),
    }
}

pub open spec fn caching_asked(
    track: Track,
    generation: u64,
    related: Vec<Track>,
    sheet: LyricSheet,
    id: i64,
    s: Step,
) -> bool {
    asks(
        s,
        Action::CacheLyrics(id, sheet.text),
        Job::Related(track, generation, RelatedStage::Caching(related, Some(sheet))),
    )
}

pub open spec fn rating_asked(
    track: Track,
    generation: u64,
    related: Vec<Track>,
    sheet: Option<LyricSheet>,
    s: Step,
) -> bool {
    asks(
        s,
        Action::RateCandidates(related),
        Job::Related(track, generation, RelatedStage::Rating(sheet)),
    )
}

pub open spec fn appending_asked(
    track: Track,
    generation: u64,
    related: Seq<Track>,
    sheet: Option<LyricSheet>,
    s: Step,
) -> bool {
    &&& s.emit@ == Seq::<BackendEvent>::empty()
    &&& s.next matches Some((Action::QueueAppend(a), Job::Related(
        t,
        g,
        RelatedStage::Appending(b, l),
    ))) && a@ == related && b@ == related && t == track && g == generation && l == sheet
}

fn number_lyrics(
    track: Track,
    generation: u64,
    related: Vec<Track>,
    sheet: Option<LyricSheet>,
    id: i64,
) -> (s: Step)
    ensures
        lyrics_numbered(track, generation, related, sheet, id, s),
{
    match sheet {
        Some(found) => ask_caching(track, generation, related, found, id),
        None => go_on(
            Action::CachedLyrics(id),
            Job::Related(track, generation, RelatedStage::Cached(related, id)),
        ),
    }
}

fn ask_caching(
    track: Track,
    generation: u64,
    related: Vec<Track>,
    sheet: LyricSheet,
    id: i64,
) -> (s: Step)
    ensures
        caching_asked(track, generation, related, sheet, id, s),
{
    go_on(
        Action::CacheLyrics(id, sheet.text.clone()),
        Job::Related(track, generation, RelatedStage::Caching(related, Some(sheet))),
    )
}

fn ask_rating(track: Track, generation: u64, related: Vec<Track>, sheet: Option<LyricSheet>) -> (s:
    Step)
    ensures
        rating_asked(track, generation, related, sheet, s),
{
    go_on(
        Action::RateCandidates(related),
        Job::Related(track, generation, RelatedStage::Rating(sheet)),
    )
}

fn ask_appending(
    track: Track,
    generation: u64,
    related: Vec<Track>,
    sheet: Option<LyricSheet>,
) -> (s: Step)
    ensures
        appending_asked(track, generation, related@, sheet, s),
{
    go_on(
        Action::QueueAppend(clone_tracks(&related)),
        Job::Related(track, generation, RelatedStage::Appending(related, sheet)),
    )
}

fn resume_related(track: Track, generation: u64, stage: RelatedStage, reply: Reply) -> (s: Step)
    ensures
        related_resumed(track, generation, stage, reply, s),
{
    match (stage, reply) {
        (RelatedStage::Fetching, Reply::Related(related)) => go_on(
            Action::FetchLyrics(track.clone()),
            Job::Related(track, generation, RelatedStage::Lyrics(related)),
        ),
        (RelatedStage::Lyrics(related), Reply::Lyrics(sheet)) => {
            if track.id > 0 {
                let id: i64 = track.id;
                return number_lyrics(track, generation, related, sheet, id);
            }
            let key = match &track.external_id {
                Some(id) => id.clone(),
                None => String::new(),
            };
            if key.as_str().is_empty() {
                ask_rating(track, generation, related, sheet)
            } else {
                go_on(
                    Action::LookupExternal(key),
                    Job::Related(track, generation, RelatedStage::Looking(related, sheet)),
                )
            }
        },
        (RelatedStage::Looking(related, sheet), Reply::MaybeNumber(Some(id))) => number_lyrics(
            track,
            generation,
            related,
            sheet,
            id,
        ),
        (RelatedStage::Looking(related, sheet), Reply::MaybeNumber(None)) => ask_rating(
            track,
            generation,
            related,
            sheet,
        ),
        (RelatedStage::Cached(related, id), Reply::Lyrics(Some(sheet))) => ask_caching(
            track,
            generation,
            related,
            sheet,
            id,
        ),
        (RelatedStage::Cached(related, _), Reply::Lyrics(None)) => ask_rating(
            track,
            generation,
            related,
            None,
        ),
        (RelatedStage::Caching(related, sheet), _) => ask_rating(track, generation, related, sheet),
        (RelatedStage::Rating(sheet), Reply::Unrated(tracks)) => ask_appending(
            track,
            generation,
            tracks,
            sheet,
        ),
        (RelatedStage::Rating(sheet), Reply::Rated(candidates)) => ask_appending(
            track,
            generation,
            taste_order(candidates),
            sheet,
        ),
        (RelatedStage::Appending(related, sheet), Reply::Queue {
            queue,
            origins,
            shuffle: _,
            repeat: _,
            len: _,
        }) => end_with(
            BackendEvent::Related {
                track: Box::new(track),
                related,
                queue,
                origins,
                synced: sheet,
                generation,
            },
        ),
        _ => end(),
    }
}

/// The signal of a skip: of the current song, if it is stored.
pub open spec fn skip_signal(b: Backend, id: i64) -> Signal {
    Signal {
        track_id: id,
        kind: SignalKind::Skip,
        context: context_or_manual(b),
        listened_ms: None,
        total_ms: None,
    }
}

/// The signal of a song heard to its end.
pub open spec fn completion_signal(b: Backend, id: i64, ms: i64) -> Signal {
    Signal {
        track_id: id,
        kind: SignalKind::Completed,
        context: context_or_manual(b),
        listened_ms: Some(ms),
        total_ms: Some(ms),
    }
}

/// A skip waits for its song. The song that is left is recorded as skipped
/// before the next one starts.
pub open spec fn skip_resumed(pre: Backend, reply: Reply, post: Backend, s: Step) -> bool {
    match reply {
        Reply::Picked(Some(next)) => match current_id(pre) {
            Some(id) => post == pre && asks(
                s,
                Action::RecordSignal(skip_signal(pre, id)),
                Job::Skipped(next),
            ),
            None => start_begun(pre, next, PlayContext::Queue, AfterStart::Skip, post, s),
        },
        Reply::Picked(None) => post == pre && tells(
            s,
            "Sin cola de recomendaciones. Reproduce una canción para cargarlas."@,
        ),
        _ => post == pre && ends(s, Seq::empty()),
    }
}

/// A cover arrived. Its colours are stored for stored songs.
pub open spec fn thumbnail_resumed(track: Track, reply: Reply, s: Step) -> bool {
    match reply {
        Reply::Thumbnail(state) => match state {
            ThumbnailState::Loaded(img) if track.id > 0 && img.palette is Some => asks(
                s,
                Action::StorePalette(track.id, img.palette->0),
                Job::Palette(track, state),
            ),
            _ => cover_told(track, state, s),
        },
        _ => ends(s, Seq::empty()),
    }
}

pub open spec fn cover_told(track: Track, state: ThumbnailState, s: Step) -> bool {
    &&& s.next is None
    &&& s.emit@.len() == 1
    &&& s.emit@[0] matches BackendEvent::Thumbnail { key, state: st } && key@ == ident(track) && st
        == state
}

fn tell_cover(track: &Track, state: ThumbnailState) -> (s: Step)
    ensures
        cover_told(*track, state, s),
{
    end_with(BackendEvent::Thumbnail { key: track.identifier(), state })
}

fn resume_thumbnail(track: Track, reply: Reply) -> (s: Step)
    ensures
        thumbnail_resumed(track, reply, s),
{
    match reply {
        Reply::Thumbnail(state) => {
            let palette: Option<[[u8; 3]; 3]> = match &state {
                ThumbnailState::Loaded(img) => img.palette,
                _ => None,
            };
            match palette {
                Some(p) if track.id > 0 => {
                    let id: i64 = track.id;
                    go_on(Action::StorePalette(id, p), Job::Palette(track, state))
                },
                _ => tell_cover(&track, state),
            }
        },
        _ => end(),
    }
}

/// The listing is told, or its failure.
pub open spec fn listing_told(reply: Reply, s: Step) -> bool {
    match reply {
        Reply::Rows(Ok(rows)) => ends(s, seq![BackendEvent::Playlists(rows)]),
        Reply::Rows(Err(e)) => fails(s, "playlists: "@ + e@),
        _ => ends(s, Seq::empty()),
    }
}

fn tell_listing(reply: Reply) -> (s: Step)
    ensures
        listing_told(reply, s),
{
    match reply {
        Reply::Rows(Ok(rows)) => end_with(BackendEvent::Playlists(rows)),
        Reply::Rows(Err(e)) => fail("playlists: ", &e),
        _ => end(),
    }
}

/// What a reply does to a change of a song's mark: the song is stored, its mark
/// read and switched over, the interaction recorded, and the change told
/// together with the listing.
pub open spec fn like_resumed(job: Job, reply: Reply, s: Step) -> bool {
    match (job, reply) {
        (Job::LikeStoring(t), Reply::Number(Ok(id))) => asks(
            s,
            Action::IsLiked(id),
            Job::LikeReading(t, id),
        ),
        (Job::LikeStoring(t), Reply::Number(Err(e))) => fails(s, "guardar: "@ + e@),
        (Job::LikeReading(t, id), Reply::Flag(Ok(liked))) => asks(
            s,
            Action::SetLiked(id, !liked),
            Job::LikeWriting(t, id, !liked),
        ),
        (Job::LikeReading(t, id), Reply::Flag(Err(e))) => fails(s, "L1K3D: "@ + e@),
        (Job::LikeWriting(t, id, on), Reply::Unit(Ok(_))) => asks(
            s,
            Action::RecordSignal(
                Signal {
                    track_id: id,
                    kind: if on {
                        SignalKind::Like
                    } else {
                        SignalKind::Unlike
                    },
                    context: PlayContext::Manual,
                    listened_ms: None,
                    total_ms: None,
                },
            ),
            Job::LikeSignalling(t, on),
        ),
        (Job::LikeWriting(t, id, on), Reply::Unit(Err(e))) => fails(s, "L1K3D: "@ + e@),
        (Job::LikeSignalling(t, on), _) => asks(
            s,
            Action::ListPlaylists,
            Job::LikeListing(t, on),
        ),
        (Job::LikeListing(t, on), Reply::Rows(Ok(rows))) => ends(
            s,
            seq![
                BackendEvent::L1K3DChanged { track: Box::new(t), liked: on },
                BackendEvent::Playlists(rows),
            ],
        ),
        (Job::LikeListing(t, on), Reply::Rows(Err(e))) => {
            &&& s.next is None
            &&& s.emit@.len() == 2
            &&& s.emit@[0] == (BackendEvent::L1K3DChanged { track: Box::new(t), liked: on })
            &&& s.emit@[1] matches BackendEvent::Error(text) && text@ == "playlists: "@ + e@
        },
        _ => ends(s, Seq::empty()),
    }
}

fn resume_like(job: Job, reply: Reply) -> (s: Step)
    ensures
        like_resumed(job, reply, s),
{
    match (job, reply) {
        (Job::LikeStoring(t), Reply::Number(Ok(id))) => go_on(
            Action::IsLiked(id),
            Job::LikeReading(t, id),
        ),
        (Job::LikeStoring(_), Reply::Number(Err(e))) => fail("guardar: ", &e),
        (Job::LikeReading(t, id), Reply::Flag(Ok(liked))) => go_on(
            Action::SetLiked(id, !liked),
            Job::LikeWriting(t, id, !liked),
        ),
        (Job::LikeReading(_, _), Reply::Flag(Err(e))) => fail("L1K3D: ", &e),
        (Job::LikeWriting(t, id, on), Reply::Unit(Ok(_))) => {
            let signal = Signal {
                track_id: id,
                kind: if on {
                    SignalKind::Like
                } else {
                    SignalKind::Unlike
                },
                context: PlayContext::Manual,
                listened_ms: None,
                total_ms: None,
            };
            go_on(Action::RecordSignal(signal), Job::LikeSignalling(t, on))
        },
        (Job::LikeWriting(_, _, _), Reply::Unit(Err(e))) => fail("L1K3D: ", &e),
        (Job::LikeSignalling(t, on), _) => go_on(Action::ListPlaylists, Job::LikeListing(t, on)),
        (Job::LikeListing(t, on), Reply::Rows(Ok(rows))) => {
            let mut emit: Vec<BackendEvent> = Vec::new();
            let changed = BackendEvent::L1K3DChanged { track: Box::new(t), liked: on };
            let listing = BackendEvent::Playlists(rows);
            emit.push(changed);
            emit.push(listing);
            assert(emit@ =~= seq![changed, listing]);
            Step { emit, next: None }
        },
        (Job::LikeListing(t, on), Reply::Rows(Err(e))) => {
            let mut emit: Vec<BackendEvent> = Vec::new();
            emit.push(BackendEvent::L1K3DChanged { track: Box::new(t), liked: on });
            emit.push(BackendEvent::Error(concat2("playlists: ", e.as_str())));
            Step { emit, next: None }
        },
        _ => end(),
    }
}

/// What a reply does to a job about the playlists.
pub open spec fn playlist_resumed(pre: Backend, job: Job, reply: Reply, post: Backend, s: Step) -> bool {
    match (job, reply) {
        (Job::Listing, _) => post == pre && listing_told(reply, s),
        (Job::Mutating(word), Reply::Unit(Ok(_))) => post == pre && asks(
            s,
            Action::ListPlaylists,
            Job::Listing,
        ),
        (Job::Mutating(word), Reply::Unit(Err(e))) => post == pre && fails(s, word@ + e@),
        (Job::PlaylistTracks(id), Reply::Tracks(Ok(tracks))) => post == pre && ends(
            s,
            seq![BackendEvent::PlaylistTracks { playlist_id: id, tracks }],
        ),
        (Job::PlaylistTracks(id), Reply::Tracks(Err(e))) => post == pre && fails(
            s,
            "tracks playlist: "@ + e@,
        ),
        (Job::Moving(id), Reply::Unit(Ok(_))) => post == pre && asks(
            s,
            Action::PlaylistTracks(id),
            Job::Moved(id),
        ),
        (Job::Moving(id), Reply::Unit(Err(e))) => post == pre && fails(s, "reordenar: "@ + e@),
        (Job::Moved(id), Reply::Tracks(Ok(tracks))) => {
            &&& post == pre
            &&& s.next is None
            &&& s.emit@.len() == 2
            &&& s.emit@[0] == (BackendEvent::PlaylistTracks { playlist_id: id, tracks })
            &&& s.emit@[1] matches BackendEvent::Message(t) && t@ == "Playlist reordenada."@
        },
        (Job::Moved(id), Reply::Tracks(Err(e))) => post == pre && fails(
            s,
            "tracks playlist: "@ + e@,
        ),
        (Job::PlaylistLoading, Reply::Tracks(Ok(tracks))) => {
            &&& post == pre
            &&& if tracks@.len() == 0 {
                tells(s, "La playlist no tiene canciones."@)
            } else {
                asks(s, Action::QueueSetPlaylist(tracks), Job::PlaylistQueueing(tracks@[0]))
            }
        },
        (Job::PlaylistLoading, Reply::Tracks(Err(e))) => post == pre && fails(
            s,
            "playlist: "@ + e@,
        ),
        (Job::PlaylistQueueing(first), Reply::Queue { queue, origins, shuffle, repeat, len }) =>
            start_begun(
            pre,
            first,
            PlayContext::Manual,
            AfterStart::Playlist { queue, origins, shuffle, repeat, len },
            post,
            s,
        ),
        _ => post == pre && ends(s, Seq::empty()),
    }
}

/// What a reply does after a song ended: its completion and its sound profile
/// are stored, and autoplay goes on from there, unless it is off, the queue is
/// empty or another song was started meanwhile.
pub open spec fn finish_resumed(pre: Backend, job: Job, reply: Reply, post: Backend, s: Step) -> bool {
    match (job, reply) {
        (Job::Completing, _) => post == pre && asks(s, Action::PersistAcoustic, Job::Profiled),
        (Job::Profiled, _) => post == pre && asks(s, Action::QueueInfo, Job::Finished),
        (Job::Finished, Reply::QueueInfo { empty, last_played }) => post == pre && asks(
            s,
            Action::QueueInfo,
            Job::Autoplay(last_played),
        ),
        (Job::Autoplay(finished), Reply::QueueInfo { empty, last_played }) => {
            &&& post == pre
            &&& if pre.autoplay && !empty && opt_text(last_played) == opt_text(finished) {
                asks(s, Action::QueuePick(true, finished), Job::AutoplayPicking(finished))
            } else {
                ends(s, Seq::empty())
            }
        },
        (Job::AutoplayPicking(finished), Reply::Picked(Some(next))) => start_begun(
            pre,
            next,
            PlayContext::Autoplay,
            AfterStart::Autoplay(finished),
            post,
            s,
        ),
        (Job::AutoplayPicking(finished), Reply::Picked(None)) => {
            &&& post == pre
            &&& s.emit@ == Seq::<BackendEvent>::empty()
            &&& s.next matches Some((Action::QueueInfo, Job::AutoplayFailed(f, t))) && f == finished
                && t@ == "sin siguiente recomendación"@
        },
        (Job::AutoplayFailed(finished, e), Reply::QueueInfo { empty, last_played }) => {
            &&& post == pre
            &&& ends(
                s,
                if opt_text(last_played) == opt_text(finished) {
                    seq![BackendEvent::PlaybackError(e)]
                } else {
                    Seq::empty()
                },
            )
        },
        _ => post == pre && ends(s, Seq::empty()),
    }
}

/// Whether the failure of the current song may be recovered from: it is one of
/// transport, there is a song, and its recovery is not spent.
pub open spec fn may_recover(b: Backend, msg: String) -> bool {
    &&& is_transport_failure(PlaybackEvent::Error(msg))
    &&& b.current is Some
    &&& opt_text(b.recovery_budget.armed) == Some(ident(b.current->0))
}

/// What a reply does after the stream failed. The real state of the engine is
/// told first; then the stream is renewed if it may be, and the failure told
/// otherwise.
pub open spec fn failure_resumed(pre: Backend, job: Job, reply: Reply, post: Backend, s: Step) -> bool {
    match (job, reply) {
        (Job::Failed(msg), Reply::Status(status)) => if may_recover(pre, msg) {
            &&& post == (Backend { recovery_budget: RecoveryBudget { armed: None }, ..pre })
            &&& s.emit@ == seq![BackendEvent::Playback(status)]
            &&& s.next == Some((Action::RefreshStream(pre.current->0), Job::Recovering(msg)))
        } else {
            &&& post == pre
            &&& ends(s, seq![BackendEvent::Playback(status), BackendEvent::StreamError(msg)])
        },
        (Job::Recovering(msg), Reply::Played(Ok(status))) => {
            &&& post == pre
            &&& s.next is None
            &&& s.emit@.len() == 2
            &&& s.emit@[0] matches BackendEvent::Message(t) && t@
                == "stream renovado tras un fallo; seguimos donde estabas."@
            &&& s.emit@[1] == BackendEvent::RecoveryResumed(status)
        },
        (Job::Recovering(msg), Reply::Played(Err(_))) => post == pre && ends(
            s,
            seq![BackendEvent::StreamError(msg)],
        ),
        _ => post == pre && ends(s, Seq::empty()),
    }
}

/// What a reply does to a tick: the state is told unless the engine is stopped,
/// and while it plays the next song may be prepared.
pub open spec fn tick_resumed(job: Job, reply: Reply, s: Step) -> bool {
    match (job, reply) {
        (Job::Ticking, Reply::Status(status)) => {
            &&& s.emit@ == (if status.state == PlaybackState::Stopped {
                Seq::empty()
            } else {
                seq![BackendEvent::Playback(status)]
            })
            &&& if status.state == PlaybackState::Playing && status.track is Some {
                s.next matches Some((Action::QueuePick(true, key), job)) && opt_text(key) == Some(
                    ident(status.track->0),
                ) && job == Job::Preloading(status.position, status.duration)
            } else {
                s.next is None
            }
        },
        (Job::Preloading(position, duration), Reply::Picked(next)) => asks(
            s,
            Action::Preload { position, duration, next },
            Job::Preloaded,
        ),
        _ => ends(s, Seq::empty()),
    }
}

/// What a reply does to an order to the engine or to a plain request.
pub open spec fn plain_resumed(job: Job, reply: Reply, s: Step) -> bool {
    match (job, reply) {
        (Job::Settings, Reply::Unit(Ok(_))) => ends(s, seq![BackendEvent::Settings]),
        (Job::Settings, Reply::Unit(Err(e))) => fails(s, "guardar ajustes: "@ + e@),
        (Job::History, Reply::History(Ok(entries))) => ends(
            s,
            seq![BackendEvent::History(entries)],
        ),
        (Job::History, Reply::History(Err(e))) => fails(s, "historial: "@ + e@),
        (Job::Stats, Reply::Stats(Ok(stats))) => ends(s, seq![BackendEvent::ListeningStats(stats)]),
        (Job::Stats, Reply::Stats(Err(e))) => fails(s, "estadísticas: "@ + e@),
        (Job::Sources, Reply::Sources(sources)) => ends(s, seq![BackendEvent::Sources(sources)]),
        (Job::Engine, Reply::Played(Ok(status))) => ends(s, seq![BackendEvent::Playback(status)]),
        (Job::Engine, Reply::Played(Err(e))) => ends(s, seq![BackendEvent::PlaybackError(e)]),
        (Job::Toggling, Reply::Status(status)) => if status.state == PlaybackState::Playing {
            asks(s, Action::Pause, Job::Toggled(status))
        } else if status.state == PlaybackState::Paused {
            asks(s, Action::Resume, Job::Toggled(status))
        } else {
            ends(s, seq![BackendEvent::Playback(status)])
        },
        (Job::Toggled(before), Reply::Played(Ok(status))) => ends(
            s,
            seq![BackendEvent::Playback(status)],
        ),
        (Job::Toggled(before), Reply::Played(Err(_))) => ends(
            s,
            seq![BackendEvent::Playback(before)],
        ),
        (Job::QueueModes, Reply::Queue { queue, origins, shuffle, repeat, len }) => ends(
            s,
            seq![BackendEvent::QueueState { shuffle, repeat, len }],
        ),
        (Job::QueueShown, Reply::Queue { queue, origins, shuffle, repeat, len }) => ends(
            s,
            seq![BackendEvent::Queue { queue, origins }],
        ),
        (Job::Searching(query), Reply::Found(Some(Ok(outcome)))) => ends(
            s,
            seq![BackendEvent::SearchResults { query, outcome: Box::new(outcome) }],
        ),
        (Job::Searching(query), Reply::Found(Some(Err(e)))) => fails(s, "búsqueda: "@ + e@),
        (Job::Searching(query), Reply::Found(None)) => tells(
            s,
            "No hay fuentes de catálogo activas (revisa los feature flags en .env)."@,
        ),
        (Job::Saving(t), Reply::Number(Ok(id))) => ends(
            s,
            seq![BackendEvent::TrackSaved { track: Box::new(t), internal_id: id }],
        ),
        (Job::Saving(t), Reply::Number(Err(e))) => fails(s, "guardar: "@ + e@),
        (Job::Artwork, Reply::Unit(Ok(_))) => tells(s, "Portada actualizada."@),
        (Job::Artwork, Reply::Unit(Err(e))) => fails(s, "portada: "@ + e@),
        (Job::Liked, Reply::Tracks(Ok(tracks))) => ends(s, seq![BackendEvent::L1K3D(tracks)]),
        (Job::Liked, Reply::Tracks(Err(e))) => fails(s, "L1K3D: "@ + e@),
        (Job::Forwarding, Reply::Status(status)) => ends(s, seq![BackendEvent::Playback(status)]),
        _ => ends(s, Seq::empty()),
    }
}

fn resume_plain(job: Job, reply: Reply) -> (s: Step)
    ensures
        plain_resumed(job, reply, s),
{
    match (job, reply) {
        (Job::Settings, Reply::Unit(Ok(_))) => end_with(BackendEvent::Settings),
        (Job::Settings, Reply::Unit(Err(e))) => fail("guardar ajustes: ", &e),
        (Job::History, Reply::History(Ok(entries))) => end_with(BackendEvent::History(entries)),
        (Job::History, Reply::History(Err(e))) => fail("historial: ", &e),
        (Job::Stats, Reply::Stats(Ok(stats))) => end_with(BackendEvent::ListeningStats(stats)),
        (Job::Stats, Reply::Stats(Err(e))) => fail("estadísticas: ", &e),
        (Job::Sources, Reply::Sources(sources)) => end_with(BackendEvent::Sources(sources)),
        (Job::Engine, Reply::Played(Ok(status))) => end_with(BackendEvent::Playback(status)),
        (Job::Engine, Reply::Played(Err(e))) => end_with(BackendEvent::PlaybackError(e)),
        (Job::Toggling, Reply::Status(status)) => match status.state {
            PlaybackState::Playing => go_on(Action::Pause, Job::Toggled(status)),
            PlaybackState::Paused => go_on(Action::Resume, Job::Toggled(status)),
            _ => end_with(BackendEvent::Playback(status)),
        },
        (Job::Toggled(_), Reply::Played(Ok(status))) => end_with(BackendEvent::Playback(status)),
        (Job::Toggled(before), Reply::Played(Err(_))) => end_with(BackendEvent::Playback(before)),
        (Job::QueueModes, Reply::Queue { queue: _, origins: _, shuffle, repeat, len }) => end_with(
            BackendEvent::QueueState { shuffle, repeat, len },
        ),
        (Job::QueueShown, Reply::Queue { queue, origins, shuffle: _, repeat: _, len: _ }) =>
            end_with(BackendEvent::Queue { queue, origins }),
        (Job::Searching(query), Reply::Found(Some(Ok(outcome)))) => end_with(
            BackendEvent::SearchResults { query, outcome: Box::new(outcome) },
        ),
        (Job::Searching(_), Reply::Found(Some(Err(e)))) => fail("búsqueda: ", &e),
        (Job::Searching(_), Reply::Found(None)) => tell(
            "No hay fuentes de catálogo activas (revisa los feature flags en .env).",
        ),
        (Job::Saving(t), Reply::Number(Ok(id))) => end_with(
            BackendEvent::TrackSaved { track: Box::new(t), internal_id: id },
        ),
        (Job::Saving(_), Reply::Number(Err(e))) => fail("guardar: ", &e),
        (Job::Artwork, Reply::Unit(Ok(_))) => tell("Portada actualizada."),
        (Job::Artwork, Reply::Unit(Err(e))) => fail("portada: ", &e),
        (Job::Liked, Reply::Tracks(Ok(tracks))) => end_with(BackendEvent::L1K3D(tracks)),
        (Job::Liked, Reply::Tracks(Err(e))) => fail("L1K3D: ", &e),
        (Job::Forwarding, Reply::Status(status)) => end_with(BackendEvent::Playback(status)),
        _ => end(),
    }
}

fn resume_tick(job: Job, reply: Reply) -> (s: Step)
    ensures
        tick_resumed(job, reply, s),
{
    match (job, reply) {
        (Job::Ticking, Reply::Status(status)) => {
            let next = match (&status.state, &status.track) {
                (PlaybackState::Playing, Some(t)) => Some(
                    (
                        Action::QueuePick(true, Some(t.identifier())),
                        Job::Preloading(status.position, status.duration),
                    ),
                ),
                _ => None,
            };
            let mut emit: Vec<BackendEvent> = Vec::new();
            if !matches!(status.state, PlaybackState::Stopped) {
                let ev = BackendEvent::Playback(status);
                emit.push(ev);
                assert(emit@ =~= seq![ev]);
            }
            Step { emit, next }
        },
        (Job::Preloading(position, duration), Reply::Picked(next)) => go_on(
            Action::Preload { position, duration, next },
            Job::Preloaded,
        ),
        _ => end(),
    }
}

/// The family of jobs that a job belongs to.
#[derive(Debug, Clone, Copy, PartialEq, Eq, Structural)]
pub enum Family {
    Start,
    Related,
    Like,
    Playlist,
    Skip,
    Thumbnail,
    Finish,
    Failure,
    Tick,
    Plain,
}

pub open spec fn family_of(job: Job) -> Family {
    match job {
        Job::Start(..) => Family::Start,
        Job::Related(..) => Family::Related,
        Job::LikeStoring(_) | Job::LikeReading(..) | Job::LikeWriting(..) | Job::LikeSignalling(..)
        | Job::LikeListing(..) => Family::Like,
        Job::Listing | Job::Mutating(_) | Job::PlaylistTracks(_) | Job::Moving(_) | Job::Moved(_)
        | Job::PlaylistLoading | Job::PlaylistQueueing(_) => Family::Playlist,
        Job::Skipping | Job::Skipped(_) => Family::Skip,
        Job::Thumbnail(_) | Job::Palette(..) => Family::Thumbnail,
        Job::Completing | Job::Profiled | Job::Finished | Job::Autoplay(_)
        | Job::AutoplayPicking(_) | Job::AutoplayFailed(..) => Family::Finish,
        Job::Failed(_) | Job::Recovering(_) => Family::Failure,
        Job::Ticking | Job::Preloading(..) | Job::Preloaded => Family::Tick,
        _ => Family::Plain,
    }
}

fn family(job: &Job) -> (r: Family)
    ensures
        r == family_of(*job),
{
    match job {
        Job::Start(..) => Family::Start,
        Job::Related(..) => Family::Related,
        Job::LikeStoring(_) | Job::LikeReading(..) | Job::LikeWriting(..) | Job::LikeSignalling(..)
        | Job::LikeListing(..) => Family::Like,
        Job::Listing | Job::Mutating(_) | Job::PlaylistTracks(_) | Job::Moving(_) | Job::Moved(_)
        | Job::PlaylistLoading | Job::PlaylistQueueing(_) => Family::Playlist,
        Job::Skipping | Job::Skipped(_) => Family::Skip,
        Job::Thumbnail(_) | Job::Palette(..) => Family::Thumbnail,
        Job::Completing | Job::Profiled | Job::Finished | Job::Autoplay(_)
        | Job::AutoplayPicking(_) | Job::AutoplayFailed(..) => Family::Finish,
        Job::Failed(_) | Job::Recovering(_) => Family::Failure,
        Job::Ticking | Job::Preloading(..) | Job::Preloaded => Family::Tick,
        _ => Family::Plain,
    }
}

/// What a reply does to a job. A reply of the wrong kind ends it in silence.
pub open spec fn job_resumed(pre: Backend, job: Job, reply: Reply, post: Backend, s: Step) -> bool {
    match family_of(job) {
        Family::Start => job matches Job::Start(t, c, a, stage) && start_resumed(
            pre,
            t,
            c,
            a,
            stage,
            reply,
            post,
            s,
        ),
        Family::Related => job matches Job::Related(t, g, stage) && post == pre && related_resumed(
            t,
            g,
            stage,
            reply,
            s,
        ),
        Family::Like => post == pre && like_resumed(job, reply, s),
        Family::Playlist => playlist_resumed(pre, job, reply, post, s),
        Family::Skip => match job {
            Job::Skipped(next) => start_begun(
                pre,
                next,
                PlayContext::Queue,
                AfterStart::Skip,
                post,
                s,
            ),
            _ => skip_resumed(pre, reply, post, s),
        },
        Family::Thumbnail => {
            &&& post == pre
            &&& match job {
                Job::Palette(t, state) => cover_told(t, state, s),
                Job::Thumbnail(t) => thumbnail_resumed(t, reply, s),
                _ => true,
            }
        },
        Family::Finish => finish_resumed(pre, job, reply, post, s),
        Family::Failure => failure_resumed(pre, job, reply, post, s),
        Family::Tick => post == pre && tick_resumed(job, reply, s),
        Family::Plain => post == pre && plain_resumed(job, reply, s),
    }
}

/// What an event of the engine starts.
pub open spec fn engine_event_begun(pre: Backend, ev: PlaybackEvent, post: Backend, s: Step) -> bool {
    &&& post == pre
    &&& match ev {
        PlaybackEvent::Finished => {
            &&& s.emit@ == seq![BackendEvent::Playback(idle_status())]
            &&& s.next == Some(completion_work(pre))
        },
        PlaybackEvent::Cut(msg) => {
            &&& s.emit@ == seq![
                BackendEvent::StreamError(msg),
                BackendEvent::Playback(idle_status()),
            ]
            &&& s.next == Some(completion_work(pre))
        },
        PlaybackEvent::Error(msg) => asks(s, Action::EngineStatus, Job::Failed(msg)),
        PlaybackEvent::SeekStarted => ends(s, seq![BackendEvent::SeekStarted]),
        PlaybackEvent::SeekCompleted => ends(s, seq![BackendEvent::SeekCompleted]),
        PlaybackEvent::SeekFailed => ends(s, seq![BackendEvent::SeekFailed]),
        _ => asks(s, Action::EngineStatus, Job::Forwarding),
    }
}

/// The work after a song ended: of a stored song, the completion (if its
/// duration is known) and the sound profile; then autoplay.
pub open spec fn completion_work(b: Backend) -> (Action, Job) {
    match current_id(b) {
        Some(id) => match millis(b.current->0.duration) {
            Some(ms) => (Action::RecordSignal(completion_signal(b, id, ms)), Job::Completing),
            None => (Action::PersistAcoustic, Job::Profiled),
        },
        None => (Action::QueueInfo, Job::Finished),
    }
}

impl Backend {
    /// Starts a command.
    pub fn handle(&mut self, cmd: BackendCommand) -> (s: Step)
        ensures
            command_begun(*old(self), cmd, *final(self), s),
    {
        match cmd {
            BackendCommand::SetAutoplay(on) => {
                self.autoplay = on;
                end()
            },
            BackendCommand::Play(track) => self.begin_start(
                *track,
                PlayContext::Manual,
                AfterStart::Play,
            ),
            BackendCommand::Seek(secs, song) => {
                let stale = match &self.current {
                    Some(t) => Backend::seek_is_stale(Some(t), &song),
                    None => Backend::seek_is_stale(None, &song),
                };
                if stale {
                    end()
                } else {
                    go_on(Action::SeekTo(secs), Job::Engine)
                }
            },
            BackendCommand::LoadRelated(track, generation) => {
                let key = match &track.external_id {
                    Some(id) => id.clone(),
                    None => String::new(),
                };
                go_on(
                    Action::FetchRelated(key),
                    Job::Related(*track, generation, RelatedStage::Fetching),
                )
            },
            BackendCommand::LoadSettings => end_with(BackendEvent::Settings),
            BackendCommand::Search(query) => go_on(
                Action::SearchCatalog(query.clone(), 10),
                Job::Searching(query),
            ),
            BackendCommand::SaveTrack(t) => go_on(Action::StoreTrack((*t).clone()), Job::Saving(*t)),
            BackendCommand::SaveSettings => go_on(Action::PersistSettings, Job::Settings),
            BackendCommand::LoadHistory => go_on(Action::RecentHistory(30), Job::History),
            BackendCommand::LoadListeningStats => go_on(Action::LoadStats, Job::Stats),
            BackendCommand::LoadSources => go_on(Action::AvailableSources, Job::Sources),
            BackendCommand::Pause => go_on(Action::Pause, Job::Engine),
            BackendCommand::Resume => go_on(Action::Resume, Job::Engine),
            BackendCommand::Toggle => go_on(Action::EngineStatus, Job::Toggling),
            BackendCommand::Stop => go_on(Action::Stop, Job::Engine),
            BackendCommand::Volume(v) => go_on(Action::SetVolume(v), Job::Engine),
            BackendCommand::Thumbnail(t) => go_on(
                Action::FetchThumbnail((*t).clone()),
                Job::Thumbnail(*t),
            ),
            BackendCommand::ReplaceQueue(tracks) => go_on(
                Action::QueueReplace(tracks),
                Job::QueueModes,
            ),
            BackendCommand::ReplaceAutoplay(tracks) => go_on(
                Action::QueueReplaceAutoplay(tracks),
                Job::QueueShown,
            ),
            BackendCommand::SetShuffle(on) => go_on(Action::QueueShuffle(on), Job::QueueModes),
            BackendCommand::SetRepeat(mode) => go_on(Action::QueueRepeat(mode), Job::QueueModes),
            BackendCommand::NextTrack => go_on(Action::QueuePick(true, None), Job::Skipping),
            BackendCommand::PrevTrack => go_on(Action::QueuePick(false, None), Job::Skipping),
            BackendCommand::ListPlaylists => go_on(Action::ListPlaylists, Job::Listing),
            BackendCommand::CreatePlaylist(name) => go_on(
                Action::CreatePlaylist(name),
                Job::Mutating("crear playlist: "),
            ),
            BackendCommand::RenamePlaylist(id, name) => go_on(
                Action::RenamePlaylist(id, name),
                Job::Mutating("renombrar playlist: "),
            ),
            BackendCommand::DeletePlaylist(id) => go_on(
                Action::DeletePlaylist(id),
                Job::Mutating("borrar playlist: "),
            ),
            BackendCommand::PlaylistTracks(id) => go_on(
                Action::PlaylistTracks(id),
                Job::PlaylistTracks(id),
            ),
            BackendCommand::AddToPlaylist(pid, tid) => go_on(
                Action::AddToPlaylist(pid, tid),
                Job::Mutating("añadir: "),
            ),
            BackendCommand::RemoveFromPlaylist(pid, tid) => go_on(
                Action::RemoveFromPlaylist(pid, tid),
                Job::Mutating("quitar: "),
            ),
            BackendCommand::MovePlaylistTrack(pid, tid, to) => go_on(
                Action::MovePlaylistTrack(pid, tid, to),
                Job::Moving(pid),
            ),
            BackendCommand::SetArtworkOverride(tid, image) => go_on(
                Action::SetArtwork(tid, image),
                Job::Artwork,
            ),
            BackendCommand::LoadLiked => go_on(Action::LikedTracks, Job::Liked),
            BackendCommand::ToggleLiked(t) => go_on(
                Action::StoreTrack((*t).clone()),
                Job::LikeStoring(*t),
            ),
            BackendCommand::PlayPlaylist(id) => go_on(
                Action::PlaylistTracks(id),
                Job::PlaylistLoading,
            ),
        }
    }

    fn resume_skip(&mut self, reply: Reply) -> (s: Step)
        ensures
            skip_resumed(*old(self), reply, *final(self), s),
    {
        match reply {
            Reply::Picked(Some(next)) => {
                let context = match self.current_context {
                    Some(c) => c,
                    None => PlayContext::Manual,
                };
                match self.stored_id() {
                    Some(id) => {
                        let signal = Signal {
                            track_id: id,
                            kind: SignalKind::Skip,
                            context,
                            listened_ms: None,
                            total_ms: None,
                        };
                        go_on(Action::RecordSignal(signal), Job::Skipped(next))
                    },
                    None => self.begin_start(next, PlayContext::Queue, AfterStart::Skip),
                }
            },
            Reply::Picked(None) => tell(
                "Sin cola de recomendaciones. Reproduce una canción para cargarlas.",
            ),
            _ => end(),
        }
    }

    fn stored_id(&self) -> (r: Option<i64>)
        ensures
            r == current_id(*self),
    {
        match &self.current {
            Some(t) => if t.id > 0 {
                Some(t.id)
            } else {
                None
            },
            None => None,
        }
    }

    fn resume_playlist(&mut self, job: Job, reply: Reply) -> (s: Step)
        ensures
            playlist_resumed(*old(self), job, reply, *final(self), s),
    {
        match (job, reply) {
            (Job::Listing, reply) => tell_listing(reply),
            (Job::Mutating(_), Reply::Unit(Ok(_))) => go_on(Action::ListPlaylists, Job::Listing),
            (Job::Mutating(word), Reply::Unit(Err(e))) => fail(word, &e),
            (Job::PlaylistTracks(id), Reply::Tracks(Ok(tracks))) => end_with(
                BackendEvent::PlaylistTracks { playlist_id: id, tracks },
            ),
            (Job::PlaylistTracks(_), Reply::Tracks(Err(e))) => fail("tracks playlist: ", &e),
            (Job::Moving(id), Reply::Unit(Ok(_))) => go_on(
                Action::PlaylistTracks(id),
                Job::Moved(id),
            ),
            (Job::Moving(_), Reply::Unit(Err(e))) => fail("reordenar: ", &e),
            (Job::Moved(id), Reply::Tracks(Ok(tracks))) => {
                let mut emit: Vec<BackendEvent> = Vec::new();
                emit.push(BackendEvent::PlaylistTracks { playlist_id: id, tracks });
                emit.push(BackendEvent::Message("Playlist reordenada.".to_string()));
                Step { emit, next: None }
            },
            (Job::Moved(_), Reply::Tracks(Err(e))) => fail("tracks playlist: ", &e),
            (Job::PlaylistLoading, Reply::Tracks(Ok(tracks))) => {
                if tracks.len() == 0 {
                    tell("La playlist no tiene canciones.")
                } else {
                    let first = tracks[0].clone();
                    go_on(Action::QueueSetPlaylist(tracks), Job::PlaylistQueueing(first))
                }
            },
            (Job::PlaylistLoading, Reply::Tracks(Err(e))) => fail("playlist: ", &e),
            (Job::PlaylistQueueing(first), Reply::Queue { queue, origins, shuffle, repeat, len }) =>
                self.begin_start(
                first,
                PlayContext::Manual,
                AfterStart::Playlist { queue, origins, shuffle, repeat, len },
            ),
            _ => end(),
        }
    }

    fn resume_finish(&mut self, job: Job, reply: Reply) -> (s: Step)
        ensures
            finish_resumed(*old(self), job, reply, *final(self), s),
    {
        match (job, reply) {
            (Job::Completing, _) => go_on(Action::PersistAcoustic, Job::Profiled),
            (Job::Profiled, _) => go_on(Action::QueueInfo, Job::Finished),
            (Job::Finished, Reply::QueueInfo { empty: _, last_played }) => go_on(
                Action::QueueInfo,
                Job::Autoplay(last_played),
            ),
            (Job::Autoplay(finished), Reply::QueueInfo { empty, last_played }) => {
                if self.autoplay && !empty && same_key(&last_played, &finished) {
                    go_on(
                        Action::QueuePick(true, clone_opt(&finished)),
                        Job::AutoplayPicking(finished),
                    )
                } else {
                    end()
                }
            },
            (Job::AutoplayPicking(finished), Reply::Picked(Some(next))) => self.begin_start(
                next,
                PlayContext::Autoplay,
                AfterStart::Autoplay(finished),
            ),
            (Job::AutoplayPicking(finished), Reply::Picked(None)) => go_on(
                Action::QueueInfo,
                Job::AutoplayFailed(finished, "sin siguiente recomendación".to_string()),
            ),
            (Job::AutoplayFailed(finished, e), Reply::QueueInfo { empty: _, last_played }) => {
                if same_key(&last_played, &finished) {
                    end_with(BackendEvent::PlaybackError(e))
                } else {
                    end()
                }
            },
            _ => end(),
        }
    }

    fn resume_failure(&mut self, job: Job, reply: Reply) -> (s: Step)
        ensures
            failure_resumed(*old(self), job, reply, *final(self), s),
    {
        match (job, reply) {
            (Job::Failed(msg), Reply::Status(status)) => {
                let mut emit: Vec<BackendEvent> = Vec::new();
                let shown = BackendEvent::Playback(status);
                emit.push(shown);
                assert(emit@ =~= seq![shown]);
                match self.recoverable(&msg) {
                    Some(track) => Step {
                        emit,
                        next: Some((Action::RefreshStream(track), Job::Recovering(msg))),
                    },
                    None => {
                        let told = BackendEvent::StreamError(msg);
                        emit.push(told);
                        assert(emit@ =~= seq![shown, told]);
                        Step { emit, next: None }
                    },
                }
            },
            (Job::Recovering(_), Reply::Played(Ok(status))) => {
                let mut emit: Vec<BackendEvent> = Vec::new();
                emit.push(
                    BackendEvent::Message(
                        "stream renovado tras un fallo; seguimos donde estabas.".to_string(),
                    ),
                );
                emit.push(BackendEvent::RecoveryResumed(status));
                Step { emit, next: None }
            },
            (Job::Recovering(msg), Reply::Played(Err(_))) => end_with(
                BackendEvent::StreamError(msg),
            ),
            _ => end(),
        }
    }

    /// Spends the recovery of the current song if the failure allows it. The
    /// failure is classified first: one that cannot be recovered spends nothing.
    fn recoverable(&mut self, msg: &String) -> (r: Option<Track>)
        ensures
            may_recover(*old(self), *msg) ==> r == old(self).current && *final(self) == (Backend {
                recovery_budget: RecoveryBudget { armed: None },
                ..*old(self)
            }),
            !may_recover(*old(self), *msg) ==> r is None && *final(self) == *old(self),
    {
        let event = PlaybackEvent::Error(msg.clone());
        if !matches!(decide_recovery(&event), RecoveryAction::RefreshAndResume) {
            return None;
        }
        match &self.current {
            Some(t) => {
                let key = t.identifier();
                let track = t.clone();
                if self.recovery_budget.try_consume(&key) {
                    Some(track)
                } else {
                    None
                }
            },
            None => None,
        }
    }

    /// Goes on with a job after the reply to what it asked for.
    pub fn resume(&mut self, job: Job, reply: Reply) -> (s: Step)
        ensures
            job_resumed(*old(self), job, reply, *final(self), s),
    {
        match family(&job) {
            Family::Start => match job {
                Job::Start(track, context, after, stage) => self.resume_start(
                    track,
                    context,
                    after,
                    stage,
                    reply,
                ),
                _ => end(),
            },
            Family::Related => match job {
                Job::Related(track, generation, stage) => resume_related(
                    track,
                    generation,
                    stage,
                    reply,
                ),
                _ => end(),
            },
            Family::Like => resume_like(job, reply),
            Family::Playlist => self.resume_playlist(job, reply),
            Family::Skip => match job {
                Job::Skipped(next) => self.begin_start(next, PlayContext::Queue, AfterStart::Skip),
                _ => self.resume_skip(reply),
            },
            Family::Thumbnail => match job {
                Job::Palette(track, state) => tell_cover(&track, state),
                Job::Thumbnail(track) => resume_thumbnail(track, reply),
                _ => end(),
            },
            Family::Finish => self.resume_finish(job, reply),
            Family::Failure => self.resume_failure(job, reply),
            Family::Tick => resume_tick(job, reply),
            Family::Plain => resume_plain(job, reply),
        }
    }

    /// Takes an event of the engine.
    pub fn on_engine(&mut self, ev: PlaybackEvent) -> (s: Step)
        ensures
            engine_event_begun(*old(self), ev, *final(self), s),
    {
        match ev {
            PlaybackEvent::Finished => {
                let mut emit: Vec<BackendEvent> = Vec::new();
                let idle = BackendEvent::Playback(PlaybackStatus::idle());
                emit.push(idle);
                assert(emit@ =~= seq![idle]);
                Step { emit, next: Some(self.after_song()) }
            },
            PlaybackEvent::Cut(msg) => {
                let mut emit: Vec<BackendEvent> = Vec::new();
                let reason = BackendEvent::StreamError(msg);
                let idle = BackendEvent::Playback(PlaybackStatus::idle());
                emit.push(reason);
                emit.push(idle);
                assert(emit@ =~= seq![reason, idle]);
                Step { emit, next: Some(self.after_song()) }
            },
            PlaybackEvent::Error(msg) => go_on(Action::EngineStatus, Job::Failed(msg)),
            PlaybackEvent::SeekStarted => end_with(BackendEvent::SeekStarted),
            PlaybackEvent::SeekCompleted => end_with(BackendEvent::SeekCompleted),
            PlaybackEvent::SeekFailed => end_with(BackendEvent::SeekFailed),
            _ => go_on(Action::EngineStatus, Job::Forwarding),
        }
    }

    fn after_song(&self) -> (r: (Action, Job))
        ensures
            r == completion_work(*self),
    {
        let context = match self.current_context {
            Some(c) => c,
            None => PlayContext::Manual,
        };
        match &self.current {
            Some(t) => {
                if t.id <= 0 {
                    return (Action::QueueInfo, Job::Finished);
                }
                match to_millis(t.duration) {
                    Some(ms) => (
                        Action::RecordSignal(
                            Signal {
                                track_id: t.id,
                                kind: SignalKind::Completed,
                                context,
                                listened_ms: Some(ms),
                                total_ms: Some(ms),
                            },
                        ),
                        Job::Completing,
                    ),
                    None => (Action::PersistAcoustic, Job::Profiled),
                }
            },
            None => (Action::QueueInfo, Job::Finished),
        }
    }

    /// The regular tick: asks the engine for its state.
    pub fn on_tick(&self) -> (s: Step)
        ensures
            asks(s, Action::EngineStatus, Job::Ticking),
    {
        go_on(Action::EngineStatus, Job::Ticking)
    }

    /// Whether a fresh analysis of the audio is to be told: it is wanted and was
    /// not told before.
    pub fn tells_frame(enabled: bool, last_sent: Option<u64>, timestamp: u64) -> (r: bool)
        ensures
            r == (enabled && last_sent != Some(timestamp)),
    {
        match last_sent {
            Some(t) => enabled && t != timestamp,
            None => enabled,
        }
    }
}

fn same_key(a: &Option<String>, b: &Option<String>) -> (r: bool)
    ensures
        r == (opt_text(*a) == opt_text(*b)),
{
    match (a, b) {
        (Some(x), Some(y)) => *x == *y,
        (None, None) => true,
        _ => false,
    }
}

/// How many more replies a job can wait for.
pub open spec fn rank(job: Job) -> nat {
    match job {
        Job::Start(_, _, _, stage) => match stage {
            StartStage::Marking => 7,
            StartStage::Playing => 6,
            StartStage::Storing(_) => 5,
            StartStage::Signalling(..) => 4,
            StartStage::Profiling(..) => 3,
            StartStage::Recording(..) => 2,
            StartStage::Counting(_) => 1,
        },
        Job::Related(_, _, stage) => match stage {
            RelatedStage::Fetching => 6,
            RelatedStage::Lyrics(_) => 5,
            RelatedStage::Looking(..) => 4,
            RelatedStage::Cached(..) => 3,
            RelatedStage::Caching(..) => 2,
            RelatedStage::Rating(_) => 1,
            RelatedStage::Appending(..) => 0,
        },
        Job::LikeStoring(_) => 4,
        Job::LikeReading(..) => 3,
        Job::LikeWriting(..) => 2,
        Job::LikeSignalling(..) => 1,
        Job::Skipping => 9,
        Job::Skipped(_) => 8,
        Job::PlaylistLoading => 9,
        Job::PlaylistQueueing(_) => 8,
        Job::Completing => 12,
        Job::Profiled => 11,
        Job::Finished => 10,
        Job::Autoplay(_) => 9,
        Job::AutoplayPicking(_) => 8,
        Job::Mutating(_) | Job::Moving(_) | Job::Toggling | Job::Thumbnail(_) | Job::Failed(_)
        | Job::Preloading(..) => 1,
        Job::Ticking => 2,
        _ => 0,
    }
}

/// Every job comes to its end, whatever the replies: each reply brings it
/// nearer.
pub proof fn law_jobs_end(pre: Backend, job: Job, reply: Reply, post: Backend, s: Step)
    requires
        job_resumed(pre, job, reply, post, s),
    ensures
        s.next is Some ==> rank((s.next->0).1) < rank(job),
{
}

/// No command waits for more than ten replies, and the controls of the playback
/// for no more than two.
pub proof fn law_commands_are_short(pre: Backend, cmd: BackendCommand, post: Backend, s: Step)
    requires
        command_begun(pre, cmd, post, s),
    ensures
        s.next is Some ==> rank((s.next->0).1) <= 9,
        s.next is Some && !takes_long(cmd) ==> rank((s.next->0).1) <= 1,
{
}

/// A jump that was asked on another song than the current one does nothing.
pub proof fn law_stale_seeks_are_void(
    pre: Backend,
    secs: u64,
    song: String,
    post: Backend,
    s: Step,
)
    requires
        command_begun(pre, BackendCommand::Seek(secs, song), post, s),
        opt_ident(pre.current) != Some(song@),
    ensures
        post == pre,
        ends(s, Seq::empty()),
{
}

/// A song is recovered at most once: after the first time no failure leads to
/// another attempt before a song is started again.
pub proof fn law_one_recovery_per_song(
    pre: Backend,
    msg: String,
    status: PlaybackStatus,
    post: Backend,
    s: Step,
    again: String,
)
    requires
        job_resumed(pre, Job::Failed(msg), Reply::Status(status), post, s),
        s.next is Some,
    ensures
        !may_recover(post, again),
{
}

/// A failure that cannot be recovered from spends nothing and is told.
pub proof fn law_reported_failures_spend_nothing(
    pre: Backend,
    msg: String,
    status: PlaybackStatus,
    post: Backend,
    s: Step,
)
    requires
        job_resumed(pre, Job::Failed(msg), Reply::Status(status), post, s),
        !is_transport_failure(PlaybackEvent::Error(msg)),
    ensures
        post == pre,
        ends(s, seq![BackendEvent::Playback(status), BackendEvent::StreamError(msg)]),
{
}

/// A failed recovery is told with the message of the original failure.
pub proof fn law_failed_recoveries_tell_the_cause(
    pre: Backend,
    msg: String,
    e: String,
    post: Backend,
    s: Step,
)
    requires
        job_resumed(pre, Job::Recovering(msg), Reply::Played(Err(e)), post, s),
    ensures
        ends(s, seq![BackendEvent::StreamError(msg)]),
{
}

/// Autoplay never takes over a song that was started while it made up its mind.
pub proof fn law_autoplay_yields_to_the_user(
    pre: Backend,
    finished: Option<String>,
    empty: bool,
    last_played: Option<String>,
    post: Backend,
    s: Step,
)
    requires
        job_resumed(
            pre,
            Job::Autoplay(finished),
            Reply::QueueInfo { empty, last_played },
            post,
            s,
        ),
        !pre.autoplay || empty || opt_text(last_played) != opt_text(finished),
    ensures
        post == pre,
        ends(s, Seq::empty()),
{
}

/// Starting a song arms its recovery and makes it the current one.
pub proof fn law_starting_arms_the_recovery(
    pre: Backend,
    track: Track,
    context: PlayContext,
    after: AfterStart,
    post: Backend,
    s: Step,
)
    requires
        start_begun(pre, track, context, after, post, s),
    ensures
        opt_ident(post.current) == Some(ident(track)),
        opt_text(post.recovery_budget.armed) == Some(ident(track)),
{
}

/// Changes of the engine's state are shown at once; what the engine tells in its
/// own way is not shown twice.
pub proof fn law_state_changes_are_forwarded(
    pre: Backend,
    ev: PlaybackEvent,
    post: Backend,
    s: Step,
)
    requires
        engine_event_begun(pre, ev, post, s),
    ensures
        is_state_change(ev) <==> s.next is Some && s.next->0 == (
            Action::EngineStatus,
            Job::Forwarding,
        ),
{
}

} // verus!
