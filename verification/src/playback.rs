//! Playback state, the master position clock, seeking and recovery.

use vstd::prelude::*;

use crate::domain::{Track, SECOND};
use crate::text::{opt_text, starts_with};

verus! {

/// What the engine is doing.
#[derive(Debug, Clone, Copy, PartialEq, Eq, Structural)]
pub enum PlaybackState {
    Playing,
    Paused,
    Stopped,
    /// The stream is being prepared or refilled.
    Buffering,
    /// A jump is under way.
    Seeking,
}

/// A snapshot of the engine.
#[derive(Debug)]
pub struct PlaybackStatus {
    pub track: Option<Track>,
    pub state: PlaybackState,
    pub position: u64,
    pub duration: Option<u64>,
    /// The stream is slow and the buffer is being refilled.
    pub stalled: bool,
}

impl PlaybackStatus {
    /// Nothing is playing.
    pub fn idle() -> (r: PlaybackStatus)
        ensures
            r == idle_status(),
    {
        PlaybackStatus {
            track: None,
            state: PlaybackState::Stopped,
            position: 0,
            duration: None,
            stalled: false,
        }
    }
}

pub open spec fn idle_status() -> PlaybackStatus {
    PlaybackStatus {
        track: None,
        state: PlaybackState::Stopped,
        position: 0,
        duration: None,
        stalled: false,
    }
}

impl Clone for PlaybackStatus {
    fn clone(&self) -> (r: Self)
        ensures
            r == *self,
    {
        PlaybackStatus {
            track: clone_track(&self.track),
            state: self.state,
            position: self.position,
            duration: self.duration,
            stalled: self.stalled,
        }
    }
}

/// A copy of an optional song.
pub fn clone_track(t: &Option<Track>) -> (r: Option<Track>)
    ensures
        r == *t,
{
    match t {
        Some(t) => Some(t.clone()),
        None => None,
    }
}

/// A snapshot whose song knows its duration: the one of the snapshot is copied
/// to a song that has none.
pub open spec fn with_known_duration(s: PlaybackStatus) -> PlaybackStatus {
    PlaybackStatus {
        track: match s.track {
            Some(t) => Some(
                if t.duration is None {
                    Track { duration: s.duration, ..t }
                } else {
                    t
                },
            ),
            None => None,
        },
        ..s
    }
}

/// Copies the duration of the snapshot to a song that has none.
pub fn fill_duration(status: PlaybackStatus) -> (r: PlaybackStatus)
    ensures
        r == with_known_duration(status),
{
    let PlaybackStatus { track, state, position, duration, stalled } = status;
    let track = match track {
        Some(t) => {
            let mut t = t;
            if t.duration.is_none() {
                t.duration = duration;
            }
            Some(t)
        },
        None => None,
    };
    PlaybackStatus { track, state, position, duration, stalled }
}

/// What happens at the ends of the queue.
#[derive(Debug, Clone, Copy, PartialEq, Eq, Structural)]
pub enum RepeatMode {
    /// The queue stops at its ends.
    Off,
    /// The queue goes round.
    All,
    /// The current song starts again.
    One,
}

impl Default for RepeatMode {
    fn default() -> (r: Self)
        ensures
            r == RepeatMode::All,
    {
        RepeatMode::All
    }
}

/// The mode after the next press of the repeat key.
pub open spec fn next_repeat(m: RepeatMode) -> RepeatMode {
    match m {
        RepeatMode::Off => RepeatMode::All,
        RepeatMode::All => RepeatMode::One,
        RepeatMode::One => RepeatMode::Off,
    }
}

impl RepeatMode {
    pub fn next(self) -> (r: RepeatMode)
        ensures
            r == next_repeat(self),
    {
        match self {
            RepeatMode::Off => RepeatMode::All,
            RepeatMode::All => RepeatMode::One,
            RepeatMode::One => RepeatMode::Off,
        }
    }
}

/// Who put a song into the queue.
#[derive(Debug, Clone, Copy, PartialEq, Eq, Structural)]
pub enum QueueItemOrigin {
    User,
    Search,
    Playlist,
    Recommendation,
}

impl QueueItemOrigin {
    /// Whether autoplay added the song.
    pub fn is_auto(self) -> (r: bool)
        ensures
            r == (self == QueueItemOrigin::Recommendation),
    {
        matches!(self, QueueItemOrigin::Recommendation)
    }
}

/// What the upper band of the Related screen shows.
#[derive(Debug, Clone, Copy, PartialEq, Eq, Structural)]
pub enum VisualContent {
    /// Lyrics when there are any, else the visualizer.
    Auto,
    Lyrics,
    Visual,
}

impl Default for VisualContent {
    fn default() -> (r: Self)
        ensures
            r == VisualContent::Auto,
    {
        VisualContent::Auto
    }
}

pub open spec fn next_content(c: VisualContent) -> VisualContent {
    match c {
        VisualContent::Auto => VisualContent::Lyrics,
        VisualContent::Lyrics => VisualContent::Visual,
        VisualContent::Visual => VisualContent::Auto,
    }
}

pub open spec fn content_text(c: VisualContent) -> Seq<char> {
    match c {
        VisualContent::Auto => "Auto"@,
        VisualContent::Lyrics => "Letras"@,
        VisualContent::Visual => "Visual"@,
    }
}

impl VisualContent {
    pub fn next(self) -> (r: VisualContent)
        ensures
            r == next_content(self),
    {
        match self {
            VisualContent::Auto => VisualContent::Lyrics,
            VisualContent::Lyrics => VisualContent::Visual,
            VisualContent::Visual => VisualContent::Auto,
        }
    }

    pub fn label(self) -> (r: &'static str)
        ensures
            r@ == content_text(self),
    {
        match self {
            VisualContent::Auto => "Auto",
            VisualContent::Lyrics => "Letras",
            VisualContent::Visual => "Visual",
        }
    }
}

/// The position `delta` seconds away: never before the start, never after a
/// known end.
pub open spec fn seek_target(position: int, delta: int, duration: Option<u64>) -> int {
    let moved = position + delta * SECOND;
    let up = if moved < 0 {
        0
    } else if moved > u64::MAX {
        u64::MAX as int
    } else {
        moved
    };
    match duration {
        Some(d) => if up > d {
            d as int
        } else {
            up
        },
        None => up,
    }
}

/// The target of a jump of `delta` seconds from `position`.
pub fn clamp_seek_target(position: u64, delta: i64, duration: Option<u64>) -> (r: u64)
    ensures
        r == seek_target(position as int, delta as int, duration),
{
    let moved: i128 = position as i128 + delta as i128 * SECOND as i128;
    let up: u64 = if moved < 0 {
        0
    } else if moved > u64::MAX as i128 {
        u64::MAX
    } else {
        moved as u64
    };
    match duration {
        Some(d) => if up > d {
            d
        } else {
            up
        },
        None => up,
    }
}

/// What a sample of the engine meant to the clock.
#[derive(Debug, Clone, Copy, PartialEq, Eq, Structural)]
pub enum ClockEvent {
    /// Nothing is playing any more.
    Cleared,
    /// Another song started.
    NewTrack,
    /// The same song jumped far back.
    Restarted,
}

/// Backward differences below this are noise of the decoder.
pub const BLIP: u64 = 500_000_000;

/// A sample this close to the target of a jump has arrived there: jumps are
/// ordered in whole seconds.
pub const ARRIVAL: u64 = 1_000_000_000;

/// The master clock: the position of the audio, extrapolated between samples.
///
/// It never runs backwards within a song except for a real restart, and a
/// wished jump stays pending until the audio gets there.
#[derive(Debug)]
pub struct PositionClock {
    pub track_key: Option<String>,
    pub position: u64,
    /// When the last sample arrived.
    pub anchor: Option<u64>,
    /// Target of the jump that was asked for and not seen yet.
    pub pending_seek: Option<u64>,
}

/// How far apart two positions are.
pub open spec fn distance(a: u64, b: u64) -> int {
    if a < b {
        b - a
    } else {
        a - b
    }
}

/// What a sample does to the clock: the new position, the new pending jump and
/// the event. `same` says that the sample is of the song the clock follows.
pub open spec fn clock_step(c: PositionClock, same: bool, position: u64) -> (
    u64,
    Option<u64>,
    Option<ClockEvent>,
) {
    if !same {
        (position, None, Some(ClockEvent::NewTrack))
    } else {
        match c.pending_seek {
            Some(target) => (
                position,
                if distance(position, target) <= ARRIVAL {
                    None
                } else {
                    Some(target)
                },
                None,
            ),
            None => if position >= c.position {
                (position, None, None)
            } else if c.position - position < BLIP {
                (c.position, None, None)
            } else {
                (position, None, Some(ClockEvent::Restarted))
            },
        }
    }
}

/// What a sample means: that nothing plays, or what the position says.
pub open spec fn clock_event(c: PositionClock, key: Option<Seq<char>>, position: u64) -> Option<
    ClockEvent,
> {
    match key {
        Some(k) => clock_step(c, opt_text(c.track_key) == Some(k), position).2,
        None => Some(ClockEvent::Cleared),
    }
}

/// `post` is `pre` after a sample.
pub open spec fn clock_sampled(
    pre: PositionClock,
    key: Option<Seq<char>>,
    position: u64,
    now: u64,
    post: PositionClock,
) -> bool {
    match key {
        Some(k) => {
            let same = opt_text(pre.track_key) == Some(k);
            let step = clock_step(pre, same, position);
            &&& opt_text(post.track_key) == Some(k)
            &&& same ==> post.track_key == pre.track_key
            &&& post.position == step.0
            &&& post.anchor == Some(now)
            &&& post.pending_seek == step.1
        },
        None => post == cleared_clock(),
    }
}

/// The position at `now`: extrapolated while the audio runs, frozen while it
/// does not, and never beyond a known end.
pub open spec fn clock_reading(
    c: PositionClock,
    playing: bool,
    stalled: bool,
    duration: Option<u64>,
    now: u64,
) -> int {
    let run = if playing && !stalled && c.anchor is Some && now > c.anchor->0 {
        now - c.anchor->0
    } else {
        0
    };
    let raw = if c.position + run > u64::MAX {
        u64::MAX as int
    } else {
        c.position + run
    };
    match duration {
        Some(d) => if raw > d {
            d as int
        } else {
            raw
        },
        None => raw,
    }
}

pub open spec fn cleared_clock() -> PositionClock {
    PositionClock { track_key: None, position: 0, anchor: None, pending_seek: None }
}

impl PositionClock {
    /// A clock that follows nothing.
    pub fn new() -> (r: PositionClock)
        ensures
            r == cleared_clock(),
    {
        PositionClock { track_key: None, position: 0, anchor: None, pending_seek: None }
    }

    /// Takes a sample of the engine: the song it plays, if any, and its position.
    pub fn update(&mut self, key: Option<&String>, position: u64, now: u64) -> (r: Option<
        ClockEvent,
    >)
        ensures
            clock_sampled(
                *old(self),
                match key {
                    Some(k) => Some(k@),
                    None => None,
                },
                position,
                now,
                *final(self),
            ),
            r == clock_event(
                *old(self),
                match key {
                    Some(k) => Some(k@),
                    None => None,
                },
                position,
            ),
    {
        match key {
            None => {
                self.clear();
                Some(ClockEvent::Cleared)
            },
            Some(key) => {
                let same = match &self.track_key {
                    Some(k) => *k == *key,
                    None => false,
                };
                self.anchor = Some(now);
                if !same {
                    self.track_key = Some(key.clone());
                    self.position = position;
                    self.pending_seek = None;
                    return Some(ClockEvent::NewTrack);
                }
                match self.pending_seek {
                    Some(target) => {
                        self.position = position;
                        let gap: u64 = if position < target {
                            target - position
                        } else {
                            position - target
                        };
                        if gap <= ARRIVAL {
                            self.pending_seek = None;
                        }
                        None
                    },
                    None => {
                        if position >= self.position {
                            self.position = position;
                            None
                        } else if self.position - position < BLIP {
                            None
                        } else {
                            self.position = position;
                            Some(ClockEvent::Restarted)
                        }
                    },
                }
            },
        }
    }

    /// Notes that a jump was asked for. The clock keeps following the audio.
    pub fn begin_seek(&mut self, target: u64)
        ensures
            *final(self) == (PositionClock { pending_seek: Some(target), ..*old(self) }),
    {
        self.pending_seek = Some(target);
    }

    /// The engine confirmed the pending jump: the audio is at its target.
    pub fn confirm_seek(&mut self, now: u64)
        ensures
            *final(self) == (match old(self).pending_seek {
                Some(target) => PositionClock {
                    position: target,
                    anchor: Some(now),
                    pending_seek: None,
                    ..*old(self)
                },
                None => *old(self),
            }),
    {
        if let Some(target) = self.pending_seek {
            self.position = target;
            self.anchor = Some(now);
            self.pending_seek = None;
        }
    }

    /// Forgets the pending jump.
    pub fn cancel_pending_seek(&mut self)
        ensures
            *final(self) == (PositionClock { pending_seek: None, ..*old(self) }),
    {
        self.pending_seek = None;
    }

    /// Follows nothing from now on.
    pub fn clear(&mut self)
        ensures
            *final(self) == cleared_clock(),
    {
        self.track_key = None;
        self.position = 0;
        self.anchor = None;
        self.pending_seek = None;
    }

    /// The song it follows starts again from the beginning.
    pub fn restart_same_track(&mut self)
        ensures
            *final(self) == (PositionClock { position: 0, anchor: None, ..*old(self) }),
    {
        self.position = 0;
        self.anchor = None;
    }

    /// The position at `now`.
    pub fn snapshot(&self, playing: bool, stalled: bool, duration: Option<u64>, now: u64) -> (r:
        u64)
        ensures
            r == clock_reading(*self, playing, stalled, duration, now),
    {
        let mut raw: u64 = self.position;
        if playing && !stalled {
            if let Some(anchor) = self.anchor {
                raw = self.position.saturating_add(now.saturating_sub(anchor));
            }
        }
        match duration {
            Some(d) => if raw > d {
                d
            } else {
                raw
            },
            None => raw,
        }
    }
}

/// The recommendations that were asked for and have not arrived.
#[derive(Debug)]
pub struct LoadingRequest {
    pub track: String,
    pub generation: u64,
}

/// Which song has its recommendations loaded, and which request is in flight.
///
/// Every request gets a fresh generation, so an answer to an earlier session is
/// told apart even when it is about the same song.
#[derive(Debug)]
pub struct RecommendationSession {
    pub loaded: Option<String>,
    pub loading: Option<LoadingRequest>,
    pub generation: u64,
}

/// The song whose recommendations are in flight, with the generation.
pub open spec fn in_flight(s: RecommendationSession) -> Option<(Seq<char>, u64)> {
    match s.loading {
        Some(l) => Some((l.track@, l.generation)),
        None => None,
    }
}

/// Whether a request for `id` would be answered by what is loaded or in flight.
pub open spec fn covers(s: RecommendationSession, id: Seq<char>) -> bool {
    opt_text(s.loaded) == Some(id) || (s.loading is Some && s.loading->0.track@ == id)
}

/// The generation of the next request.
pub open spec fn next_generation(g: u64) -> u64 {
    if g == u64::MAX {
        0
    } else {
        (g + 1) as u64
    }
}

impl RecommendationSession {
    pub fn new() -> (r: RecommendationSession)
        ensures
            r == (RecommendationSession { loaded: None, loading: None, generation: 0 }),
    {
        RecommendationSession { loaded: None, loading: None, generation: 0 }
    }

    /// Asks for the recommendations of a song. `None` when they are loaded or
    /// in flight already; else the generation of the new request.
    pub fn request(&mut self, id: &String) -> (r: Option<u64>)
        ensures
            covers(*old(self), id@) ==> r is None && *final(self) == *old(self),
            !covers(*old(self), id@) ==> {
                &&& r == Some(next_generation(old(self).generation))
                &&& final(self).loaded == old(self).loaded
                &&& final(self).generation == next_generation(old(self).generation)
                &&& in_flight(*final(self)) == Some((id@, final(self).generation))
            },
    {
        if let Some(k) = &self.loaded {
            if *k == *id {
                return None;
            }
        }
        if let Some(l) = &self.loading {
            if l.track == *id {
                return None;
            }
        }
        let g: u64 = if self.generation == u64::MAX {
            0
        } else {
            self.generation + 1
        };
        self.generation = g;
        self.loading = Some(LoadingRequest { track: id.clone(), generation: g });
        Some(g)
    }

    /// Takes an answer. It counts only if it is the one in flight.
    pub fn complete(&mut self, id: &String, generation: u64) -> (r: bool)
        ensures
            r == (in_flight(*old(self)) == Some((id@, generation))),
            r ==> {
                &&& opt_text(final(self).loaded) == Some(id@)
                &&& final(self).loading is None
                &&& final(self).generation == old(self).generation
            },
            !r ==> *final(self) == *old(self),
    {
        let matches_request = match &self.loading {
            Some(l) => l.track == *id && l.generation == generation,
            None => false,
        };
        if matches_request {
            self.loaded = Some(id.clone());
            self.loading = None;
        }
        matches_request
    }

    /// Another song plays: nothing is loaded and nothing is expected.
    pub fn on_track_changed(&mut self)
        ensures
            *final(self) == (RecommendationSession { loaded: None, loading: None, ..*old(self) }),
    {
        self.loaded = None;
        self.loading = None;
    }

    /// Drops the session so that the next request is made afresh.
    pub fn reset(&mut self)
        ensures
            *final(self) == (RecommendationSession { loaded: None, loading: None, ..*old(self) }),
    {
        self.loaded = None;
        self.loading = None;
    }

    /// Stops waiting for the request in flight.
    pub fn abort(&mut self)
        ensures
            *final(self) == (RecommendationSession { loading: None, ..*old(self) }),
    {
        self.loading = None;
    }

    pub fn is_loading(&self) -> (r: bool)
        ensures
            r == (self.loading is Some),
    {
        self.loading.is_some()
    }
}

/// What the playback engine reports.
#[derive(Debug)]
pub enum PlaybackEvent {
    Playing,
    Paused,
    Stopped,
    Buffering,
    /// The song ended.
    Finished,
    /// The song ended where the stream was cut, with the reason.
    Cut(String),
    /// The stream failed.
    Error(String),
    SeekStarted,
    SeekCompleted,
    SeekFailed,
}

/// What to do about a failed stream.
#[derive(Debug, Clone, Copy, PartialEq, Eq, Structural)]
pub enum RecoveryAction {
    /// Resolve the stream again and resume.
    RefreshAndResume,
    /// Only tell the user.
    Report,
}

/// Whether a failure was one of transport: reading the stream, not decoding it.
pub open spec fn is_transport_failure(ev: PlaybackEvent) -> bool {
    ev matches PlaybackEvent::Error(msg) && "leer stream"@.is_prefix_of(msg@)
}

/// Classifies a failure without spending anything.
pub fn decide_recovery(ev: &PlaybackEvent) -> (r: RecoveryAction)
    ensures
        r == (if is_transport_failure(*ev) {
            RecoveryAction::RefreshAndResume
        } else {
            RecoveryAction::Report
        }),
{
    match ev {
        PlaybackEvent::Error(msg) => if starts_with(msg.as_str(), "leer stream") {
            RecoveryAction::RefreshAndResume
        } else {
            RecoveryAction::Report
        },
        _ => RecoveryAction::Report,
    }
}

/// One recovery per song.
#[derive(Debug)]
pub struct RecoveryBudget {
    /// The song that may still be recovered.
    pub armed: Option<String>,
}

impl Default for RecoveryBudget {
    fn default() -> (r: Self)
        ensures
            r.armed is None,
    {
        RecoveryBudget { armed: None }
    }
}

impl RecoveryBudget {
    /// A song starts: it may be recovered once.
    pub fn arm(&mut self, key: &String)
        ensures
            opt_text(final(self).armed) == Some(key@),
    {
        self.armed = Some(key.clone());
    }

    /// Spends the recovery of a song; `false` when it has none left.
    pub fn try_consume(&mut self, key: &String) -> (r: bool)
        ensures
            r == (opt_text(old(self).armed) == Some(key@)),
            r ==> final(self).armed is None,
            !r ==> *final(self) == *old(self),
    {
        let mine = match &self.armed {
            Some(k) => *k == *key,
            None => false,
        };
        if mine {
            self.armed = None;
        }
        mine
    }
}

/// A jump never leaves the song.
pub proof fn law_seek_stays_in_the_song(position: u64, delta: int, duration: Option<u64>)
    ensures
        0 <= seek_target(position as int, delta, duration) <= u64::MAX,
        duration is Some ==> seek_target(position as int, delta, duration) <= duration->0,
{
}

/// Three presses of the repeat key bring the mode back.
pub proof fn law_repeat_cycles(m: RepeatMode)
    ensures
        next_repeat(m) != m,
        next_repeat(next_repeat(m)) != m,
        next_repeat(next_repeat(next_repeat(m))) == m,
{
}

/// Three presses of the content key bring the band back, by way of the two other
/// contents.
pub proof fn law_content_cycles(c: VisualContent)
    ensures
        next_content(c) != c,
        next_content(next_content(c)) != c,
        next_content(next_content(c)) != next_content(c),
        next_content(next_content(next_content(c))) == c,
{
}

/// While the audio does not run, the clock stands at the last sample, whatever
/// the time.
pub proof fn law_clock_freezes(c: PositionClock, stalled: bool, duration: Option<u64>, now: u64)
    requires
        duration is Some ==> c.position <= duration->0,
    ensures
        clock_reading(c, false, stalled, duration, now) == c.position,
        clock_reading(c, true, true, duration, now) == c.position,
{
}

/// While the audio runs, the clock never falls behind the last sample, never
/// runs backwards and never passes a known end.
pub proof fn law_clock_is_monotone(
    c: PositionClock,
    duration: Option<u64>,
    now: u64,
    later: u64,
)
    requires
        now <= later,
        duration is Some ==> c.position <= duration->0,
    ensures
        c.position <= clock_reading(c, true, false, duration, now),
        clock_reading(c, true, false, duration, now) <= clock_reading(
            c,
            true,
            false,
            duration,
            later,
        ),
        duration is Some ==> clock_reading(c, true, false, duration, later) <= duration->0,
{
}

/// Within a song and without a pending jump, a sample moves the clock back only
/// by a real restart.
pub proof fn law_samples_never_rewind_silently(c: PositionClock, position: u64)
    requires
        c.pending_seek is None,
    ensures
        ({
            let (p, _, ev) = clock_step(c, true, position);
            p < c.position ==> ev == Some(ClockEvent::Restarted) && c.position - p >= BLIP
        }),
{
}

/// A pending jump stays pending until a sample is near its target, and the
/// clock follows the audio meanwhile.
pub proof fn law_pending_seek_follows_the_audio(c: PositionClock, position: u64)
    requires
        c.pending_seek is Some,
    ensures
        clock_step(c, true, position).0 == position,
        clock_step(c, true, position).1 is None <==> distance(position, c.pending_seek->0)
            <= ARRIVAL,
{
}

/// A jump goes exactly as far as it was asked to wherever that is still in the
/// song; only a jump over the start stops at zero, and only one over the end
/// stops there.
pub proof fn law_seek_is_exact_in_the_song(
    position: u64,
    delta: i64,
    duration: Option<u64>,
    target: u64,
)
    requires
        call_ensures(clamp_seek_target, (position, delta, duration), target),
    ensures
        ({
            let wish = position + delta * 1_000_000_000;
            let end = if duration is Some {
                duration->0
            } else {
                u64::MAX
            };
            &&& 0 <= wish <= end ==> target == wish
            &&& wish < 0 ==> target == 0
            &&& wish > end ==> target == end
        }),
{
}

/// A jump back by as much undoes a jump that stayed in the song.
pub proof fn law_seeks_undo_each_other(
    position: u64,
    delta: i64,
    duration: Option<u64>,
    there: u64,
    back: u64,
)
    requires
        delta > i64::MIN,
        duration is Some ==> position <= duration->0,
        0 < there < (if duration is Some {
            duration->0
        } else {
            u64::MAX
        }),
        call_ensures(clamp_seek_target, (position, delta, duration), there),
        call_ensures(clamp_seek_target, (there, (-delta) as i64, duration), back),
    ensures
        back == position,
{
}

/// Only a failure of reading the stream is worth another try; any other news of
/// the engine is only told.
pub proof fn law_only_reading_is_tried_again(ev: PlaybackEvent, action: RecoveryAction)
    requires
        call_ensures(decide_recovery, (&ev,), action),
    ensures
        action is RefreshAndResume <==> ev is Error && ev->Error_0@.len() >= 11
            && ev->Error_0@.take(11) == "leer stream"@,
{
    reveal_strlit("leer stream");
    let word = "leer stream"@;
    assert(word.len() == 11);
    if ev is Error {
        let msg = ev->Error_0@;
        if word.is_prefix_of(msg) {
            assert(msg.take(11) =~= word);
        }
        if msg.len() >= 11 && msg.take(11) == word {
            assert(msg.subrange(0, 11) =~= msg.take(11));
        }
    }
}

/// Recommendations that are not there and not on their way are asked for under the
/// next generation; a second request for them is none. Exactly the answer to that
/// request counts, and it counts once.
pub proof fn law_requests_are_answered_once(
    s: &mut RecommendationSession,
    id: String,
    asked: Option<u64>,
    again: &mut RecommendationSession,
    twice: Option<u64>,
    done: &mut RecommendationSession,
    generation: u64,
    counts: bool,
    late: &mut RecommendationSession,
    counts_again: bool,
)
    requires
        old(s).loaded is None,
        old(s).loading is None,
        old(s).generation < u64::MAX,
        call_ensures(RecommendationSession::request, (s, &id), asked),
        *old(again) == *final(s),
        call_ensures(RecommendationSession::request, (again, &id), twice),
        *old(done) == *final(s),
        call_ensures(RecommendationSession::complete, (done, &id, generation), counts),
        *old(late) == *final(done),
        call_ensures(RecommendationSession::complete, (late, &id, generation), counts_again),
    ensures
        asked is Some,
        asked->0 == old(s).generation + 1,
        twice is None,
        *final(again) == *final(s),
        counts <==> generation == asked->0,
        counts ==> final(done).loaded is Some && final(done).loaded->0@ == id@
            && final(done).loading is None && !counts_again,
{
}

/// A song may be recovered once after it started, and no other song may.
pub proof fn law_one_recovery_after_a_start(
    b: &mut RecoveryBudget,
    key: String,
    other: String,
    c: &mut RecoveryBudget,
    spent: bool,
    d: &mut RecoveryBudget,
    again: bool,
    e: &mut RecoveryBudget,
    foreign: bool,
)
    requires
        key@ != other@,
        call_ensures(RecoveryBudget::arm, (b, &key), ()),
        *old(c) == *final(b),
        call_ensures(RecoveryBudget::try_consume, (c, &key), spent),
        *old(d) == *final(c),
        call_ensures(RecoveryBudget::try_consume, (d, &key), again),
        *old(e) == *final(b),
        call_ensures(RecoveryBudget::try_consume, (e, &other), foreign),
    ensures
        spent,
        !again,
        !foreign,
{
}

/// The clock reads the last position while nothing plays, and a clock that is sent
/// somewhere reads that once it is confirmed.
pub proof fn law_confirmed_jumps_are_read(
    c: &mut PositionClock,
    target: u64,
    d: &mut PositionClock,
    now: u64,
    playing: bool,
    stalled: bool,
    before: u64,
    after: u64,
)
    requires
        call_ensures(PositionClock::begin_seek, (c, target), ()),
        *old(d) == *final(c),
        call_ensures(PositionClock::confirm_seek, (d, now), ()),
        call_ensures(PositionClock::snapshot, (final(c), false, stalled, None::<u64>, now), before),
        call_ensures(PositionClock::snapshot, (final(d), playing, stalled, None::<u64>, now), after),
    ensures
        before == old(c).position,
        after == target,
        final(d).pending_seek is None,
{
}

} // verus!
