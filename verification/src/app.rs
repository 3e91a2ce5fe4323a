//! The state of the interface and the steps that every screen shares.
//!
//! The application answers keys and backend events by changing this state and
//! by queueing commands for the backend in `outbox`.

use vstd::prelude::*;
use vstd::view::View as _;

use crate::domain::{
    first_position, ident, opt_ident, position_of, HistoryEntry, PlaylistRow, Source,
    ThumbnailState, Track, TrackListeningStats, MILLISECOND,
};
use crate::event::BackendCommand;
use crate::glyphs::{glyph, spinner_glyph, UiGlyphs};
use crate::keymap::KeyMap;
use crate::keys::MouseEvent;
use crate::liked::Liked;
use crate::navigation::ListState;
use crate::notices::Notices;
use crate::playback::{
    cleared_clock, clock_event, clock_reading, clock_sampled, covers, idle_status, in_flight,
    next_generation, ClockEvent, PlaybackState, PlaybackStatus, PositionClock,
    RecommendationSession, RepeatMode, VisualContent,
};
use crate::playlists::PlaylistState;
use crate::related::{lyrics_cleared, scroll_rewound, RelatedState};
use crate::search::SearchState;
use crate::text::{concat3, opt_text};
use crate::view::View;

verus! {

/// The state of the interface.
#[derive(Debug)]
pub struct App {
    pub view: View,
    pub should_quit: bool,
    /// Commands for the backend, oldest first.
    pub outbox: Vec<BackendCommand>,
    pub search: SearchState,
    pub now_playing: Option<Track>,
    pub playback: PlaybackStatus,
    pub related: RelatedState,
    pub history: Vec<HistoryEntry>,
    pub listening_stats: Vec<TrackListeningStats>,
    pub sources: Vec<Source>,
    /// The settings form is filled in.
    pub settings_ready: bool,
    pub playlists: Vec<PlaylistRow>,
    pub playlist_view: PlaylistState,
    /// The table of shortcuts is open; any key closes it.
    pub show_help: bool,
    pub liked: Liked,
    /// Last position of the mouse, column and row.
    pub mouse_pos: Option<(u16, u16)>,
    /// A click that no list has taken yet.
    pub mouse_click: bool,
    pub status: Option<String>,
    pub notices: Notices,
    pub autoplay: bool,
    pub recs: RecommendationSession,
    /// The song that the user asked for and that has not started. Until then,
    /// news about other songs does not count.
    pub pending_track: Option<String>,
    pub thumbnails: KeyMap<ThumbnailState>,
    pub visual_mode: VisualContent,
    /// When the last analysis of the audio arrived.
    pub features_at: Option<u64>,
    /// Counts the frames that were drawn.
    pub frame: u64,
    /// The master clock.
    pub clock: PositionClock,
    pub shuffle: bool,
    pub repeat: RepeatMode,
    pub glyphs: UiGlyphs,
}

/// The status line says `text`.
pub open spec fn says(status: Option<String>, text: Seq<char>) -> bool {
    opt_text(status) == Some(text)
}

/// The song is not the one on the screen.
pub open spec fn song_changed(a: App, t: Track) -> bool {
    opt_ident(a.now_playing) != Some(ident(t))
}

/// Adopting a song asks for its recommendations: it is another song, or they
/// are neither loaded nor in flight.
pub open spec fn asks_related(a: App, t: Track) -> bool {
    song_changed(a, t) || !covers(a.recs, ident(t))
}

/// The command that asks for recommendations.
pub open spec fn related_request(a: App, t: Track) -> BackendCommand {
    BackendCommand::LoadRelated(Box::new(t), next_generation(a.recs.generation))
}

/// The commands that adopting a song sends: for its cover, unless it is known
/// or asked for, and for its recommendations.
pub open spec fn adoption_commands(a: App, t: Track) -> Seq<BackendCommand> {
    (if a.thumbnails@.contains_key(ident(t)) {
        Seq::empty()
    } else {
        seq![BackendCommand::Thumbnail(Box::new(t))]
    }) + (if asks_related(a, t) {
        seq![related_request(a, t)]
    } else {
        Seq::empty()
    })
}

pub open spec fn loading_text(t: Track) -> Seq<char> {
    "Cargando recomendaciones de «"@ + t.title@ + "»..."@
}

/// The session after a song was adopted.
pub open spec fn session_adopted(pre: App, t: Track, recs: RecommendationSession) -> bool {
    if asks_related(pre, t) {
        &&& recs.generation == next_generation(pre.recs.generation)
        &&& in_flight(recs) == Some((ident(t), recs.generation))
        &&& recs.loaded == (if song_changed(pre, t) {
            None
        } else {
            pre.recs.loaded
        })
    } else {
        recs == pre.recs
    }
}

/// The selection of the queue after a song was adopted: it moves to the song
/// only when the song changed and is in the queue.
pub open spec fn selection_adopted(pre: App, t: Track) -> ListState {
    match first_position(pre.related.tracks@, ident(t)) {
        Some(i) if song_changed(pre, t) => ListState { selected: Some(i as usize) },
        _ => pre.related.list_state,
    }
}

/// What became of the queue and the lyrics: the selection is `list_state`, the
/// lyrics were dropped or their window was rewound.
pub open spec fn related_moved(
    pre: RelatedState,
    list_state: ListState,
    drop_lyrics: bool,
    rewind: bool,
    post: RelatedState,
) -> bool {
    let kept = RelatedState { list_state, ..pre };
    if drop_lyrics {
        lyrics_cleared(kept, post)
    } else if rewind {
        scroll_rewound(kept, post)
    } else {
        post == kept
    }
}

/// The song on the screen, the covers and the session after a song was adopted.
pub open spec fn song_adopted(pre: App, t: Track, post: App) -> bool {
    &&& post.now_playing == Some(t)
    &&& post.thumbnails.wf()
    &&& post.thumbnails@ == (if pre.thumbnails@.contains_key(ident(t)) {
        pre.thumbnails@
    } else {
        pre.thumbnails@.insert(ident(t), ThumbnailState::Loading)
    })
    &&& session_adopted(pre, t, post.recs)
}

/// `post` is `pre` after a song was adopted as the one on the screen.
pub open spec fn adopts_song(pre: App, t: Track, post: App) -> bool {
    &&& post == (App {
        now_playing: post.now_playing,
        thumbnails: post.thumbnails,
        recs: post.recs,
        related: post.related,
        status: post.status,
        outbox: post.outbox,
        ..pre
    })
    &&& song_adopted(pre, t, post)
    &&& post.outbox@ == pre.outbox@ + adoption_commands(pre, t)
    &&& related_moved(
        pre.related,
        selection_adopted(pre, t),
        song_changed(pre, t),
        false,
        post.related,
    )
    &&& if asks_related(pre, t) {
        says(post.status, loading_text(t))
    } else {
        post.status == pre.status
    }
}

/// The commands that opening a screen sends.
pub open spec fn view_commands(v: View) -> Seq<BackendCommand> {
    match v {
        View::History => seq![BackendCommand::LoadHistory],
        View::Sources => seq![BackendCommand::LoadSources],
        View::Settings => seq![BackendCommand::LoadSettings],
        View::Playlists => seq![BackendCommand::ListPlaylists],
        View::Metadata | View::NowPlaying | View::Search | View::Related => Seq::empty(),
    }
}

/// `post` is `pre` on another screen.
pub open spec fn view_switched(pre: App, v: View, post: App) -> bool {
    &&& post == (App { view: v, outbox: post.outbox, ..pre })
    &&& post.outbox@ == pre.outbox@ + view_commands(v)
}

/// `post` is `pre` after a request for recommendations that the session may
/// find unnecessary.
pub open spec fn related_loaded(pre: App, post: App) -> bool {
    &&& post == (App {
        recs: post.recs,
        status: post.status,
        outbox: post.outbox,
        ..pre
    })
    &&& match pre.now_playing {
        None => {
            &&& post.recs == pre.recs
            &&& post.outbox@ == pre.outbox@
            &&& says(post.status, "Sin canción seleccionada. Reproduce algo primero."@)
        },
        Some(t) => if covers(pre.recs, ident(t)) {
            &&& post.recs == pre.recs
            &&& post.outbox@ == pre.outbox@
            &&& post.status == pre.status
        } else {
            &&& post.recs.loaded == pre.recs.loaded
            &&& post.recs.generation == next_generation(pre.recs.generation)
            &&& in_flight(post.recs) == Some((ident(t), post.recs.generation))
            &&& post.outbox@ == pre.outbox@.push(related_request(pre, t))
            &&& says(post.status, loading_text(t))
        },
    }
}

/// `post` is `pre` after the recommendations were asked for again.
pub open spec fn related_reloaded(pre: App, post: App) -> bool {
    &&& post == (App {
        recs: post.recs,
        related: post.related,
        status: post.status,
        outbox: post.outbox,
        ..pre
    })
    &&& lyrics_cleared(pre.related, post.related)
    &&& post.recs.loaded is None
    &&& match pre.now_playing {
        None => {
            &&& post.recs.loading is None
            &&& post.recs.generation == pre.recs.generation
            &&& post.outbox@ == pre.outbox@
            &&& says(post.status, "Sin canción seleccionada. Reproduce algo primero."@)
        },
        Some(t) => {
            &&& post.recs.generation == next_generation(pre.recs.generation)
            &&& in_flight(post.recs) == Some((ident(t), post.recs.generation))
            &&& post.outbox@ == pre.outbox@.push(related_request(pre, t))
            &&& says(post.status, loading_text(t))
        },
    }
}

/// `post` is `pre` after the user asked for a song.
pub open spec fn song_requested(pre: App, t: Track, post: App) -> bool {
    &&& post == (App {
        now_playing: post.now_playing,
        thumbnails: post.thumbnails,
        recs: post.recs,
        related: post.related,
        status: post.status,
        outbox: post.outbox,
        pending_track: post.pending_track,
        playback: PlaybackStatus {
            state: PlaybackState::Buffering,
            stalled: false,
            ..pre.playback
        },
        clock: cleared_clock(),
        ..pre
    })
    &&& opt_text(post.pending_track) == Some(ident(t))
    &&& song_adopted(pre, t, post)
    &&& post.outbox@ == (pre.outbox@ + adoption_commands(pre, t)).push(
        BackendCommand::Play(Box::new(t)),
    )
    &&& lyrics_cleared(
        RelatedState { list_state: selection_adopted(pre, t), ..pre.related },
        post.related,
    )
    &&& says(
        post.status,
        if asks_related(pre, t) {
            loading_text(t)
        } else {
            "Guardando «"@ + t.title@ + "»..."@
        },
    )
}

/// What a sample of the engine does to clock and lyrics.
pub open spec fn sample_taken(pre: App, status: PlaybackStatus, now: u64, post: App) -> bool {
    let key = opt_ident(status.track);
    let ev = clock_event(pre.clock, key, status.position);
    &&& post == (App { clock: post.clock, related: post.related, ..pre })
    &&& clock_sampled(pre.clock, key, status.position, now, post.clock)
    &&& related_moved(
        pre.related,
        pre.related.list_state,
        ev == Some(ClockEvent::Cleared) || ev == Some(ClockEvent::NewTrack),
        ev == Some(ClockEvent::Restarted),
        post.related,
    )
}

/// What the state of the engine is called, with its symbol.
pub open spec fn state_text(state: PlaybackState, glyphs: UiGlyphs, frame: u64) -> Seq<char> {
    match state {
        PlaybackState::Playing => glyph(glyphs.theme, "▶"@, ">"@) + " reproduciendo"@,
        PlaybackState::Paused => glyph(glyphs.theme, "‖"@, "||"@) + " pausado"@,
        PlaybackState::Stopped => glyph(glyphs.theme, "■"@, "[]"@) + " detenido"@,
        PlaybackState::Buffering => seq![spinner_glyph(glyphs.theme, frame)] + " preparando"@,
        PlaybackState::Seeking => glyph(glyphs.theme, "»"@, ">>"@) + " buscando"@,
    }
}

/// The line that tells what plays.
pub open spec fn playback_text(p: PlaybackStatus, glyphs: UiGlyphs, frame: u64) -> Seq<char> {
    let track = match p.track {
        Some(t) => crate::domain::display_text(t),
        None => "sin track"@,
    };
    if p.stalled {
        "["@ + state_text(p.state, glyphs, frame) + " "@ + seq![spinner_glyph(glyphs.theme, frame)]
            + " stream lento · rellenando…] "@ + track
    } else {
        "["@ + state_text(p.state, glyphs, frame) + "] "@ + track
    }
}

/// A character followed by a text.
pub fn char_and(c: char, rest: &str) -> (r: String)
    ensures
        r@ == seq![c] + rest@,
{
    let mut s: String = String::new();
    s.push(c);
    assert(s@ =~= seq![c]);
    vstd::string::StringExecFns::append(&mut s, rest);
    s
}

/// The name of the engine's state, with its symbol.
pub fn state_label(state: PlaybackState, glyphs: UiGlyphs, frame: u64) -> (r: String)
    ensures
        r@ == state_text(state, glyphs, frame),
{
    match state {
        PlaybackState::Playing => crate::text::concat2(glyphs.play(), " reproduciendo"),
        PlaybackState::Paused => crate::text::concat2(glyphs.pause(), " pausado"),
        PlaybackState::Stopped => crate::text::concat2(glyphs.stop(), " detenido"),
        PlaybackState::Buffering => char_and(glyphs.spinner(frame), " preparando"),
        PlaybackState::Seeking => crate::text::concat2(glyphs.seeking(), " buscando"),
    }
}

/// The line that tells what plays.
pub fn playback_label(p: &PlaybackStatus, glyphs: UiGlyphs, frame: u64) -> (r: String)
    ensures
        r@ == playback_text(*p, glyphs, frame),
{
    let state = state_label(p.state, glyphs, frame);
    let track = match &p.track {
        Some(t) => t.display_title(),
        None => "sin track".to_string(),
    };
    let mut s: String = "[".to_string();
    vstd::string::StringExecFns::append(&mut s, &state);
    if p.stalled {
        vstd::string::StringExecFns::append(&mut s, " ");
        let spin = char_and(glyphs.spinner(frame), "");
        proof {
            reveal_strlit("");
            assert(spin@ =~= seq![spinner_glyph(glyphs.theme, frame)]);
        }
        vstd::string::StringExecFns::append(&mut s, &spin);
        vstd::string::StringExecFns::append(&mut s, " stream lento · rellenando…] ");
    } else {
        vstd::string::StringExecFns::append(&mut s, "] ");
    }
    vstd::string::StringExecFns::append(&mut s, &track);
    s
}

/// Announcing a song, adopting it, preparing it and sending it off is requesting it.
proof fn lemma_request(pre: App, t: Track, mid: App, adopted: App, prepared: App, post: App)
    requires
        mid == (App { status: mid.status, pending_track: mid.pending_track, ..pre }),
        says(mid.status, "Guardando «"@ + t.title@ + "»..."@),
        opt_text(mid.pending_track) == Some(ident(t)),
        adopts_song(mid, t, adopted),
        prepared == (App {
            playback: PlaybackStatus {
                state: PlaybackState::Buffering,
                stalled: false,
                ..adopted.playback
            },
            clock: cleared_clock(),
            related: prepared.related,
            ..adopted
        }),
        lyrics_cleared(adopted.related, prepared.related),
        post == (App { outbox: post.outbox, ..prepared }),
        post.outbox@ == prepared.outbox@.push(BackendCommand::Play(Box::new(t))),
    ensures
        song_requested(pre, t, post),
{
    assert(song_changed(mid, t) == song_changed(pre, t));
    assert(asks_related(mid, t) == asks_related(pre, t));
    assert(adoption_commands(mid, t) == adoption_commands(pre, t));
    assert(selection_adopted(mid, t) == selection_adopted(pre, t));
    assert(song_adopted(pre, t, post));
    assert(lyrics_cleared(
        RelatedState { list_state: selection_adopted(pre, t), ..pre.related },
        post.related,
    ));
    assert(post.outbox@ == (pre.outbox@ + adoption_commands(pre, t)).push(
        BackendCommand::Play(Box::new(t)),
    ));
}

impl App {
    /// What holds of the state at every moment.
    pub open spec fn wf(&self) -> bool {
        &&& self.search.wf()
        &&& self.related.wf()
        &&& self.liked.wf()
        &&& self.notices.wf()
        &&& self.thumbnails.wf()
    }

    /// The state before anything happened.
    pub fn new(glyphs: UiGlyphs) -> (r: App)
        ensures
            r.wf(),
            r.view == View::NowPlaying,
            !r.should_quit,
            r.outbox@ == Seq::<BackendCommand>::empty(),
            r.now_playing is None,
            r.playback == idle_status(),
            r.related.is_blank(),
            !r.settings_ready,
            r.playlist_view.detail is None,
            r.playlist_view.listing.selected is None,
            !r.playlist_view.creating,
            r.playlist_view.draft@ == Seq::<char>::empty(),
            !r.show_help,
            r.mouse_pos is None,
            !r.mouse_click,
            r.status is None,
            r.notices@ == Seq::<(Seq<char>, u64)>::empty(),
            r.autoplay,
            r.recs == (RecommendationSession { loaded: None, loading: None, generation: 0 }),
            r.pending_track is None,
            r.thumbnails@ == Map::<Seq<char>, ThumbnailState>::empty(),
            r.visual_mode == VisualContent::Auto,
            r.features_at is None,
            r.frame == 0,
            r.clock == cleared_clock(),
            !r.shuffle,
            r.repeat == RepeatMode::All,
            r.glyphs == glyphs,
            !r.search.editing,
            r.search.input@ == Seq::<char>::empty(),
            r.search.cursor == 0,
            r.search.results@ == Seq::<Track>::empty(),
            r.search.related_from == 0,
            r.search.list_state.selected is None,
            !r.search.searching,
            r.search.last_query is None,
            r.history@ == Seq::<HistoryEntry>::empty(),
            r.listening_stats@ == Seq::<TrackListeningStats>::empty(),
            r.sources@ == Seq::<Source>::empty(),
            r.playlists@ == Seq::<PlaylistRow>::empty(),
            r.liked.keys@ == Set::<Seq<char>>::empty(),
            r.liked.ids@ == Set::<i64>::empty(),
    {
        App {
            view: View::NowPlaying,
            should_quit: false,
            outbox: Vec::new(),
            search: SearchState::default(),
            now_playing: None,
            playback: PlaybackStatus::idle(),
            related: RelatedState::default(),
            history: Vec::new(),
            listening_stats: Vec::new(),
            sources: Vec::new(),
            settings_ready: false,
            playlists: Vec::new(),
            playlist_view: PlaylistState::default(),
            show_help: false,
            liked: Liked::default(),
            mouse_pos: None,
            mouse_click: false,
            status: None,
            notices: Notices::default(),
            autoplay: true,
            recs: RecommendationSession::new(),
            pending_track: None,
            thumbnails: KeyMap::new(),
            visual_mode: VisualContent::Auto,
            features_at: None,
            frame: 0,
            clock: PositionClock::new(),
            shuffle: false,
            repeat: RepeatMode::All,
            glyphs,
        }
    }

    /// Takes the queued commands out, oldest first.
    pub fn take_commands(&mut self) -> (r: Vec<BackendCommand>)
        ensures
            r@ == old(self).outbox@,
            *final(self) == (App { outbox: final(self).outbox, ..*old(self) }),
            final(self).outbox@ == Seq::<BackendCommand>::empty(),
    {
        let mut r: Vec<BackendCommand> = Vec::new();
        r.append(&mut self.outbox);
        assert(r@ =~= old(self).outbox@);
        r
    }

    pub(crate) fn send(&mut self, cmd: BackendCommand)
        ensures
            *final(self) == (App { outbox: final(self).outbox, ..*old(self) }),
            final(self).outbox@ == old(self).outbox@.push(cmd),
    {
        self.outbox.push(cmd);
    }

    /// Asks for everything that the screens show at the start.
    pub fn request_initial_data(&mut self)
        ensures
            *final(self) == (App { outbox: final(self).outbox, ..*old(self) }),
            final(self).outbox@ == old(self).outbox@ + seq![
                BackendCommand::LoadHistory,
                BackendCommand::LoadListeningStats,
                BackendCommand::LoadSources,
                BackendCommand::LoadSettings,
                BackendCommand::ListPlaylists,
                BackendCommand::LoadLiked,
                BackendCommand::SetAutoplay(old(self).autoplay),
            ],
    {
        self.send(BackendCommand::LoadHistory);
        self.send(BackendCommand::LoadListeningStats);
        self.send(BackendCommand::LoadSources);
        self.send(BackendCommand::LoadSettings);
        self.send(BackendCommand::ListPlaylists);
        self.send(BackendCommand::LoadLiked);
        self.send(BackendCommand::SetAutoplay(self.autoplay));
    }

    /// Whether something on the screen moves, so that it is redrawn in between
    /// events.
    pub fn animation_active(&self) -> (r: bool)
        ensures
            r == (self.playback.state == PlaybackState::Playing || self.playback.state
                == PlaybackState::Buffering || self.playback.state == PlaybackState::Seeking),
    {
        matches!(
            self.playback.state,
            PlaybackState::Playing | PlaybackState::Buffering | PlaybackState::Seeking
        )
    }

    /// Counts a frame and brings the shown position up to date with the clock.
    pub fn begin_frame(&mut self, now: u64)
        ensures
            *final(self) == (App {
                frame: if old(self).frame == u64::MAX {
                    0
                } else {
                    (old(self).frame + 1) as u64
                },
                playback: PlaybackStatus {
                    position: old(self).reading(now) as u64,
                    ..old(self).playback
                },
                ..*old(self)
            }),
    {
        self.frame = if self.frame == u64::MAX {
            0
        } else {
            self.frame + 1
        };
        self.playback.position = self.karaoke_now(now);
    }

    /// The position that the clock reads at `now`.
    pub open spec fn reading(&self, now: u64) -> int {
        clock_reading(
            self.clock,
            self.playback.state == PlaybackState::Playing,
            self.playback.stalled,
            self.playback.duration,
            now,
        )
    }

    /// The position at `now`.
    pub fn karaoke_now(&self, now: u64) -> (r: u64)
        ensures
            r == self.reading(now),
    {
        self.clock.snapshot(
            matches!(self.playback.state, PlaybackState::Playing),
            self.playback.stalled,
            self.playback.duration,
            now,
        )
    }

    /// Whether the last analysis of the audio is recent enough to be shown.
    pub fn features_fresh(&self, now: u64) -> (r: bool)
        ensures
            r == (self.features_at is Some && (now <= self.features_at->0 || now
                - self.features_at->0 < 900 * MILLISECOND)),
    {
        match self.features_at {
            Some(at) => now <= at || now - at < 900 * MILLISECOND,
            None => false,
        }
    }

    /// Takes a mouse event.
    pub fn on_mouse(&mut self, mouse: MouseEvent)
        ensures
            *final(self) == (App {
                mouse_pos: Some((mouse.column, mouse.row)),
                mouse_click: old(self).mouse_click || mouse.left_down,
                ..*old(self)
            }),
    {
        self.mouse_pos = Some((mouse.column, mouse.row));
        if mouse.left_down {
            self.mouse_click = true;
        }
    }

    /// Whether typed characters are text: a query, a setting or the name of a
    /// playlist. Then they are no shortcuts.
    pub open spec fn editing(&self) -> bool {
        self.search.editing || self.view == View::Settings || self.playlist_view.creating
    }

    pub fn is_editing_text(&self) -> (r: bool)
        ensures
            r == self.editing(),
    {
        self.search.editing || self.view == View::Settings || self.playlist_view.creating
    }

    /// Opens a screen and asks for what it shows. Opening the Related screen
    /// asks for nothing: it shows the recommendations of the session.
    pub fn switch_view(&mut self, view: View)
        ensures
            view_switched(*old(self), view, *final(self)),
    {
        self.view = view;
        match view {
            View::History => self.send(BackendCommand::LoadHistory),
            View::Sources => self.send(BackendCommand::LoadSources),
            View::Settings => self.send(BackendCommand::LoadSettings),
            View::Playlists => self.send(BackendCommand::ListPlaylists),
            View::Metadata | View::NowPlaying | View::Search | View::Related => {},
        }
        assert(self.outbox@ =~= old(self).outbox@ + view_commands(view));
    }

    /// Asks for the recommendations and lyrics of the current song, unless the
    /// session has them or waits for them.
    pub fn load_related(&mut self)
        ensures
            related_loaded(*old(self), *final(self)),
    {
        let track = match &self.now_playing {
            Some(t) => t.clone(),
            None => {
                self.status = Some(
                    "Sin canción seleccionada. Reproduce algo primero.".to_string(),
                );
                return;
            },
        };
        let id = track.identifier();
        match self.recs.request(&id) {
            Some(generation) => {
                self.status = Some(
                    concat3("Cargando recomendaciones de «", track.title.as_str(), "»..."),
                );
                self.send(BackendCommand::LoadRelated(Box::new(track), generation));
            },
            None => {},
        }
    }

    /// Asks for the recommendations again, whatever the session has.
    pub fn reload_related(&mut self)
        ensures
            related_reloaded(*old(self), *final(self)),
    {
        self.recs.reset();
        self.related.clear_lyrics();
        self.load_related();
    }

    /// Asks for the cover of a song, once.
    pub fn request_thumbnail(&mut self, track: &Track)
        requires
            old(self).thumbnails.wf(),
        ensures
            *final(self) == (App {
                thumbnails: final(self).thumbnails,
                outbox: final(self).outbox,
                ..*old(self)
            }),
            final(self).thumbnails.wf(),
            old(self).thumbnails@.contains_key(ident(*track)) ==> {
                &&& final(self).thumbnails@ == old(self).thumbnails@
                &&& final(self).outbox@ == old(self).outbox@
            },
            !old(self).thumbnails@.contains_key(ident(*track)) ==> {
                &&& final(self).thumbnails@ == old(self).thumbnails@.insert(
                    ident(*track),
                    ThumbnailState::Loading,
                )
                &&& final(self).outbox@ == old(self).outbox@.push(
                    BackendCommand::Thumbnail(Box::new(*track)),
                )
            },
    {
        let key = track.identifier();
        if self.thumbnails.contains_key(&key) {
            return;
        }
        self.thumbnails.insert(key, ThumbnailState::Loading);
        self.send(BackendCommand::Thumbnail(Box::new(track.clone())));
    }

    /// Adopts a song as the one on the screen. If it is another one, the lyrics
    /// are dropped, the selection moves to it and its recommendations are asked
    /// for; the queue stays.
    #[verifier::spinoff_prover]
    #[verifier::rlimit(60)]
    pub fn on_new_now_playing(&mut self, track: Track)
        requires
            old(self).thumbnails.wf(),
        ensures
            adopts_song(*old(self), track, *final(self)),
    {
        self.request_thumbnail(&track);
        let id = track.identifier();
        let changed = !crate::domain::is_song(&self.now_playing, &id);
        let ghost t = track;
        self.now_playing = Some(track);
        if changed {
            self.related.clear_lyrics();
            self.recs.on_track_changed();
            if let Some(i) = position_of(&self.related.tracks, &id) {
                self.related.list_state.select(Some(i));
            }
        }
        self.load_related();
        assert(self.outbox@ =~= old(self).outbox@ + adoption_commands(*old(self), t));
    }

    /// Shows the requested song as being prepared: no position, no lyrics.
    fn show_preparing(&mut self)
        ensures
            *final(self) == (App {
                playback: PlaybackStatus {
                    state: PlaybackState::Buffering,
                    stalled: false,
                    ..old(self).playback
                },
                clock: cleared_clock(),
                related: final(self).related,
                ..*old(self)
            }),
            lyrics_cleared(old(self).related, final(self).related),
    {
        self.playback.state = PlaybackState::Buffering;
        self.playback.stalled = false;
        self.clock.clear();
        self.related.clear_lyrics();
    }

    /// Plays a song that the user chose: it is on the screen at once, as being
    /// prepared, and what arrives about other songs does not count any more.
    pub fn save_and_play(&mut self, track: Track)
        requires
            old(self).thumbnails.wf(),
        ensures
            song_requested(*old(self), track, *final(self)),
    {
        self.status = Some(concat3("Guardando «", track.title.as_str(), "»..."));
        self.pending_track = Some(track.identifier());
        let ghost mid = *self;
        self.on_new_now_playing(track.clone());
        let ghost adopted = *self;
        self.show_preparing();
        let ghost prepared = *self;
        self.send(BackendCommand::Play(Box::new(track)));
        proof {
            lemma_request(*old(self), track, mid, adopted, prepared, *self);
        }
    }

    /// Goes to the next or the previous song of the queue. The queue is the
    /// backend's, so the jump is left to it even when the list is empty here.
    pub fn skip_track(&mut self, forward: bool)
        ensures
            *final(self) == (App { outbox: final(self).outbox, ..*old(self) }),
            final(self).outbox@ == old(self).outbox@.push(
                if forward {
                    BackendCommand::NextTrack
                } else {
                    BackendCommand::PrevTrack
                },
            ),
    {
        if forward {
            self.send(BackendCommand::NextTrack);
        } else {
            self.send(BackendCommand::PrevTrack);
        }
    }

    /// Gives the clock a sample of the engine and lets the lyrics follow.
    pub fn update_karaoke_clock(&mut self, status: &PlaybackStatus, now: u64)
        ensures
            sample_taken(*old(self), *status, now, *final(self)),
    {
        let key = match &status.track {
            Some(t) => Some(t.identifier()),
            None => None,
        };
        match self.clock.update(key.as_ref(), status.position, now) {
            Some(ClockEvent::Cleared) | Some(ClockEvent::NewTrack) => self.related.clear_lyrics(),
            Some(ClockEvent::Restarted) => self.related.scroll.reset(),
            None => {},
        }
    }

    /// The line that tells what plays.
    pub fn playback_line(&self) -> (r: String)
        ensures
            r@ == playback_text(self.playback, self.glyphs, self.frame),
    {
        playback_label(&self.playback, self.glyphs, self.frame)
    }

    /// The dominant colours of the cover on the screen, once it is decoded.
    pub open spec fn palette_shown(&self) -> Option<[[u8; 3]; 3]> {
        match self.now_playing {
            Some(t) => if self.thumbnails@.contains_key(ident(t)) {
                match self.thumbnails@[ident(t)] {
                    ThumbnailState::Loaded(img) => img.palette,
                    _ => None,
                }
            } else {
                None
            },
            None => None,
        }
    }

    pub fn cover_palette(&self) -> (r: Option<[[u8; 3]; 3]>)
        requires
            self.thumbnails.wf(),
        ensures
            r == self.palette_shown(),
    {
        match &self.now_playing {
            Some(t) => {
                let key = t.identifier();
                match self.thumbnails.get(&key) {
                    Some(ThumbnailState::Loaded(img)) => img.palette,
                    _ => None,
                }
            },
            None => None,
        }
    }

    /// Whether a song is liked.
    pub fn is_liked(&self, track: &Track) -> (r: bool)
        ensures
            r == self.liked.has(*track),
    {
        self.liked.contains(track)
    }
}

} // verus!
