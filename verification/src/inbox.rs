//! What the events of the backend do to the interface.

use vstd::prelude::*;
use vstd::view::View as _;

use crate::app::{
    adoption_commands, asks_related, loading_text, playback_text, related_moved, sample_taken,
    says, selection_adopted, song_adopted, song_changed, App,
};
use crate::domain::{
    ident, is_song, opt_ident, LyricSheet, PlaylistRow, SearchOutcome, SyncLyrics, Track,
    TrackListeningStats,
};
use crate::event::{BackendCommand, BackendEvent};
use crate::glyphs::glyph;
use crate::liked::{id_set, ids_with, key_set};
use crate::navigation::ListState;
use crate::notices::{reported, NOTICE_LIFETIME};
use crate::playback::{
    cleared_clock, clock_event, clock_sampled, clone_track, fill_duration, in_flight,
    with_known_duration, ClockEvent, PlaybackState, PlaybackStatus, PositionClock,
    QueueItemOrigin, RecommendationSession,
};
use crate::playlists::{Detail, PlaylistState};
use crate::related::{queue_replaced, scroll_rewound, RelatedState};
use crate::search::SearchState;
use crate::text::{
    concat2, concat3, decimal, decimal_text, opt_text, signed, signed_text, trim, trimmed,
};
use crate::view::View;

verus! {

/// Results arrived.
#[verifier::opaque]
pub open spec fn results_shown(pre: App, outcome: SearchOutcome, post: App) -> bool {
    let count = outcome.items@.len();
    &&& post == (App { search: post.search, status: post.status, ..pre })
    &&& post.search == (SearchState {
        searching: false,
        related_from: outcome.related_from,
        results: outcome.items,
        list_state: if count > 0 {
            ListState { selected: Some(0) }
        } else {
            pre.search.list_state
        },
        ..pre.search
    })
    &&& says(
        post.status,
        if count == 0 {
            "Sin resultados ("@ + decimal_text(outcome.errors@.len())
                + " error(es). ¿Red sobre YouTube?"@
        } else if outcome.related_from > 0 {
            decimal_text(outcome.related_from as nat) + " resultado(s) + "@ + decimal_text(
                (count - outcome.related_from) as nat,
            ) + " relacionadas. Enter guarda el seleccionado."@
        } else {
            decimal_text(count) + " resultado(s). Enter guarda el seleccionado."@
        },
    )
}

/// A sample is about another song than the one that was asked for and the one
/// on the screen.
pub open spec fn sample_is_stale(a: App, status: PlaybackStatus) -> bool {
    &&& status.track is Some
    &&& opt_text(a.pending_track) != Some(ident(status.track->0))
    &&& song_changed(a, status.track->0)
}

/// A start is of another song than the one that was asked for.
pub open spec fn start_is_stale(a: App, status: PlaybackStatus) -> bool {
    &&& a.pending_track is Some
    &&& opt_ident(status.track) != opt_text(a.pending_track)
}

/// The song that was asked for is not pending any more once it shows up.
pub open spec fn pending_after(a: App, track: Option<Track>) -> Option<String> {
    if track is Some && opt_text(a.pending_track) == Some(ident(track->0)) {
        None
    } else {
        a.pending_track
    }
}

/// What a snapshot with clock `c` and rewound lyrics does: the song is adopted,
/// clock and lyrics follow the sample, and the snapshot is shown. `sent` are
/// the commands that go out before.
#[verifier::opaque]
pub open spec fn snapshot_shown(
    pre: App,
    s: PlaybackStatus,
    c: PositionClock,
    rewound: bool,
    sent: Seq<BackendCommand>,
    now: u64,
    post: App,
) -> bool {
    let key = opt_ident(s.track);
    let ev = clock_event(c, key, s.position);
    &&& post.playback == s
    &&& post.pending_track == pending_after(pre, s.track)
    &&& clock_sampled(c, key, s.position, now, post.clock)
    &&& match s.track {
        Some(t) => {
            &&& song_adopted(pre, t, post)
            &&& post.outbox@ == pre.outbox@ + sent + adoption_commands(pre, t)
            &&& related_moved(
                pre.related,
                selection_adopted(pre, t),
                song_changed(pre, t) || ev == Some(ClockEvent::NewTrack),
                rewound || ev == Some(ClockEvent::Restarted),
                post.related,
            )
        },
        None => {
            &&& post.now_playing == pre.now_playing
            &&& post.thumbnails == pre.thumbnails
            &&& post.recs == pre.recs
            &&& post.outbox@ == pre.outbox@ + sent
            &&& related_moved(pre.related, pre.related.list_state, true, false, post.related)
        },
    }
}

/// The status line after a song was adopted.
pub open spec fn adoption_status(pre: App, track: Option<Track>, post: App) -> bool {
    if track is Some && asks_related(pre, track->0) {
        says(post.status, loading_text(track->0))
    } else {
        post.status == pre.status
    }
}

/// A sample of the engine arrived. A stale one changes nothing. On the Now
/// Playing screen the status line tells what plays, unless recommendations are
/// being loaded.
#[verifier::opaque]
pub open spec fn sample_shown(pre: App, status: PlaybackStatus, now: u64, post: App) -> bool {
    let s = with_known_duration(status);
    if sample_is_stale(pre, status) {
        post == pre
    } else {
        &&& post == (App {
            pending_track: post.pending_track,
            now_playing: post.now_playing,
            thumbnails: post.thumbnails,
            recs: post.recs,
            related: post.related,
            status: post.status,
            outbox: post.outbox,
            clock: post.clock,
            playback: post.playback,
            ..pre
        })
        &&& snapshot_shown(pre, s, pre.clock, false, Seq::empty(), now, post)
        &&& if pre.view == View::NowPlaying && post.recs.loading is None {
            says(post.status, playback_text(s, pre.glyphs, pre.frame))
        } else {
            adoption_status(pre, s.track, post)
        }
    }
}

/// The clock when a song starts: the same song from its beginning, another one
/// from nothing. No jump is pending.
pub open spec fn clock_at_start(a: App, track: Option<Track>) -> PositionClock {
    match track {
        Some(t) => if song_changed(a, t) {
            cleared_clock()
        } else {
            PositionClock { position: 0, anchor: None, pending_seek: None, ..a.clock }
        },
        None => a.clock,
    }
}

/// A song started. The start of another song than the one asked for changes
/// nothing. The same song again keeps its lyrics and rewinds them.
#[verifier::opaque]
pub open spec fn start_shown(
    pre: App,
    status: PlaybackStatus,
    stats: Seq<TrackListeningStats>,
    now: u64,
    post: App,
) -> bool {
    let s = with_known_duration(status);
    if start_is_stale(pre, status) {
        post == pre
    } else {
        &&& post == (App {
            pending_track: post.pending_track,
            now_playing: post.now_playing,
            thumbnails: post.thumbnails,
            recs: post.recs,
            related: post.related,
            status: post.status,
            outbox: post.outbox,
            clock: post.clock,
            playback: post.playback,
            listening_stats: post.listening_stats,
            ..pre
        })
        &&& post.listening_stats@ == stats
        &&& snapshot_shown(
            pre,
            s,
            clock_at_start(pre, s.track),
            s.track is Some && !song_changed(pre, s.track->0),
            seq![BackendCommand::LoadHistory],
            now,
            post,
        )
        &&& adoption_status(pre, s.track, post)
    }
}

/// The clock when a stream was renewed: the song starts again.
pub open spec fn clock_at_recovery(a: App, track: Option<Track>) -> PositionClock {
    match track {
        Some(_) => PositionClock { position: 0, anchor: None, pending_seek: None, ..a.clock },
        None => a.clock,
    }
}

/// The stream of the song was renewed. If another song was asked for meanwhile,
/// nothing changes.
#[verifier::opaque]
pub open spec fn recovery_shown(pre: App, status: PlaybackStatus, now: u64, post: App) -> bool {
    let s = with_known_duration(status);
    if start_is_stale(pre, status) {
        post == pre
    } else {
        &&& post == (App {
            pending_track: post.pending_track,
            now_playing: post.now_playing,
            thumbnails: post.thumbnails,
            recs: post.recs,
            related: post.related,
            status: post.status,
            outbox: post.outbox,
            clock: post.clock,
            playback: post.playback,
            ..pre
        })
        &&& snapshot_shown(
            pre,
            s,
            clock_at_recovery(pre, s.track),
            s.track is Some,
            Seq::empty(),
            now,
            post,
        )
        &&& adoption_status(pre, s.track, post)
    }
}

/// Playing failed. A song that was being prepared is given up.
#[verifier::opaque]
pub open spec fn failure_shown(pre: App, err: Seq<char>, post: App) -> bool {
    &&& post == (App {
        pending_track: None,
        playback: post.playback,
        clock: post.clock,
        status: post.status,
        ..pre
    })
    &&& if pre.pending_track is Some {
        &&& post.playback == (PlaybackStatus {
            state: PlaybackState::Stopped,
            track: None,
            stalled: false,
            ..pre.playback
        })
        &&& post.clock == (PositionClock { pending_seek: None, ..pre.clock })
    } else {
        post.playback == pre.playback && post.clock == pre.clock
    }
    &&& says(post.status, "Reproducción: "@ + err)
}

/// A jump was confirmed: the clock stands at its target, and the song plays on
/// unless it is paused.
#[verifier::opaque]
pub open spec fn seek_confirmed(pre: App, now: u64, post: App) -> bool {
    post == (App {
        clock: match pre.clock.pending_seek {
            Some(target) => PositionClock {
                position: target,
                anchor: Some(now),
                pending_seek: None,
                ..pre.clock
            },
            None => pre.clock,
        },
        playback: PlaybackStatus {
            state: if pre.playback.state == PlaybackState::Paused {
                PlaybackState::Paused
            } else {
                PlaybackState::Playing
            },
            ..pre.playback
        },
        ..pre
    })
}

/// The lyrics that can be shown: blank text, and text without a line, is none.
pub open spec fn usable_lyrics(synced: Option<LyricSheet>) -> Option<SyncLyrics> {
    match synced {
        Some(sheet) if trimmed(sheet.text@).len() > 0 && sheet.lyrics.lines@.len() > 0 => Some(
            sheet.lyrics,
        ),
        _ => None,
    }
}

/// The answer is the one that the session waits for.
pub open spec fn answer_expected(a: App, track: Track, generation: u64) -> bool {
    in_flight(a.recs) == Some((ident(track), generation))
}

/// The selection after a queue of `n` songs arrived: the one there was, or the
/// first song, but inside the queue.
pub open spec fn selection_in_queue(selected: Option<usize>, n: nat) -> usize {
    let wish = match selected {
        Some(i) => i as int,
        None => 0,
    };
    if n == 0 {
        0
    } else if wish >= n {
        (n - 1) as usize
    } else {
        wish as usize
    }
}

/// What the arrival of recommendations makes of the queue and the lyrics.
pub open spec fn related_filled(
    pre: RelatedState,
    related: Seq<Track>,
    queue: Seq<Track>,
    origins: Seq<QueueItemOrigin>,
    synced: Option<LyricSheet>,
    post: RelatedState,
) -> bool {
    &&& post == (RelatedState {
        tracks: post.tracks,
        origins: post.origins,
        previous_len: pre.tracks@.len() as usize,
        new_ids: post.new_ids,
        fresh: post.fresh,
        synced: usable_lyrics(synced),
        synced_unavailable: usable_lyrics(synced) is None,
        scroll: post.scroll,
        list_state: ListState {
            selected: Some(selection_in_queue(pre.list_state.selected, queue.len())),
        },
    })
    &&& post.tracks@ == queue
    &&& post.origins@ == origins
    &&& post.new_ids.wf()
    &&& post.new_ids@ == crate::related::added_idents(pre.tracks@, queue)
    &&& post.fresh@ == related
    &&& post.scroll.lines@ == Seq::<usize>::empty()
}

pub open spec fn queue_text(n: nat, added: int) -> Seq<char> {
    if added > 0 {
        decimal_text(n) + " en cola (+"@ + decimal_text(added as nat)
            + " nuevas). ↑/↓ selecciona, Enter reproduce, r actualiza, R reemplaza."@
    } else {
        decimal_text(n)
            + " en cola. ↑/↓ o W/S selecciona, Enter reproduce, r actualiza, R reemplaza la cola."@
    }
}

/// Recommendations arrived. An answer that the session does not wait for
/// changes nothing.
#[verifier::opaque]
pub open spec fn related_shown(
    pre: App,
    track: Track,
    related: Seq<Track>,
    queue: Seq<Track>,
    origins: Seq<QueueItemOrigin>,
    synced: Option<LyricSheet>,
    generation: u64,
    post: App,
) -> bool {
    if !answer_expected(pre, track, generation) {
        post == pre
    } else {
        &&& post == (App {
            recs: post.recs,
            related: post.related,
            status: post.status,
            ..pre
        })
        &&& opt_text(post.recs.loaded) == Some(ident(track))
        &&& post.recs.loading is None
        &&& post.recs.generation == pre.recs.generation
        &&& related_filled(pre.related, related, queue, origins, synced, post.related)
        &&& says(post.status, queue_text(queue.len(), queue.len() - pre.related.tracks@.len()))
    }
}

/// The songs of a playlist arrived; they count if it is the open one.
#[verifier::opaque]
pub open spec fn playlist_filled(pre: App, playlist_id: i64, tracks: Seq<Track>, post: App) -> bool {
    match pre.playlist_view.detail {
        Some(d) if d.id == playlist_id => {
            &&& post == (App { playlist_view: post.playlist_view, ..pre })
            &&& post.playlist_view == (PlaylistState {
                detail: post.playlist_view.detail,
                ..pre.playlist_view
            })
            &&& post.playlist_view.detail matches Some(e) && e == (Detail {
                tracks: e.tracks,
                ..d
            }) && queue_replaced(
                RelatedState {
                    list_state: if tracks.len() > 0 {
                        ListState { selected: Some(0) }
                    } else {
                        d.tracks.list_state
                    },
                    ..d.tracks
                },
                tracks,
                Seq::new(tracks.len(), |i: int| QueueItemOrigin::Playlist),
                e.tracks,
            )
        },
        _ => post == pre,
    }
}

/// The listing of playlists arrived; the selection stays inside it.
#[verifier::opaque]
pub open spec fn playlists_shown(pre: App, rows: Seq<PlaylistRow>, post: App) -> bool {
    &&& post == (App { playlists: post.playlists, playlist_view: post.playlist_view, ..pre })
    &&& post.playlists@ == rows
    &&& post.playlist_view == (PlaylistState {
        listing: match pre.playlist_view.listing.selected {
            Some(i) => ListState { selected: Some(selection_in_queue(Some(i), rows.len())) },
            None => pre.playlist_view.listing,
        },
        ..pre.playlist_view
    })
}

/// A song was liked or not any more.
#[verifier::opaque]
pub open spec fn like_shown(pre: App, track: Track, liked: bool, post: App) -> bool {
    &&& post == (App { liked: post.liked, status: post.status, ..pre })
    &&& post.liked.wf()
    &&& if liked {
        &&& post.liked.keys@ == pre.liked.keys@.insert(ident(track))
        &&& post.liked.ids@ == ids_with(pre.liked.ids@, track)
        &&& says(
            post.status,
            glyph(pre.glyphs.theme, "♥"@, "*"@) + " «"@ + track.title@ + "» añadida a L1K3D."@,
        )
    } else {
        &&& post.liked.keys@ == pre.liked.keys@.remove(ident(track))
        &&& post.liked.ids@ == pre.liked.ids@.remove(track.id)
        &&& says(post.status, "Quitada de L1K3D: «"@ + track.title@ + "»."@)
    }
}

/// What an event does.
pub open spec fn event_step(pre: App, event: BackendEvent, now: u64, post: App) -> bool {
    match event {
        BackendEvent::SearchResults { query, outcome } => results_shown(pre, *outcome, post),
        BackendEvent::TrackSaved { track, internal_id } => {
            &&& post == (App { status: post.status, ..pre })
            &&& says(
                post.status,
                "Guardado «"@ + track.title@ + "» en BD (track_id="@ + signed_text(
                    internal_id as int,
                ) + ")."@,
            )
        },
        BackendEvent::History(entries) => post == (App { history: entries, ..pre }),
        BackendEvent::ListeningStats(stats) => post == (App { listening_stats: stats, ..pre }),
        BackendEvent::Sources(sources) => post == (App { sources, ..pre }),
        BackendEvent::Settings => {
            &&& post == (App { settings_ready: true, status: post.status, ..pre })
            &&& says(post.status, "Ajustes · Enter guarda en .env, Esc vuelve."@)
        },
        BackendEvent::Playback(status) => sample_shown(pre, status, now, post),
        BackendEvent::RecoveryResumed(status) => recovery_shown(pre, status, now, post),
        BackendEvent::PlaybackStarted { status, stats } => start_shown(
            pre,
            status,
            stats@,
            now,
            post,
        ),
        BackendEvent::PlaybackError(err) => failure_shown(pre, err@, post),
        BackendEvent::SeekStarted => post == (App {
            playback: PlaybackStatus { state: PlaybackState::Seeking, ..pre.playback },
            ..pre
        }),
        BackendEvent::SeekCompleted => seek_confirmed(pre, now, post),
        BackendEvent::SeekFailed => {
            &&& post == (App {
                clock: PositionClock { pending_seek: None, ..pre.clock },
                status: post.status,
                ..pre
            })
            &&& says(
                post.status,
                "No se pudo buscar la posición (stream no busca hacia atrás)."@,
            )
        },
        BackendEvent::StreamError(err) => {
            &&& post == (App { notices: post.notices, ..pre })
            &&& post.notices@ == reported(pre.notices@, err@, now)
        },
        BackendEvent::Related { track, related, queue, origins, synced, generation } =>
            related_shown(pre, *track, related@, queue@, origins@, synced, generation, post),
        BackendEvent::QueueState { shuffle, repeat, len } => post == (App {
            shuffle,
            repeat,
            ..pre
        }),
        BackendEvent::Thumbnail { key, state } => {
            &&& post == (App { thumbnails: post.thumbnails, ..pre })
            &&& post.thumbnails@ == pre.thumbnails@.insert(key@, state)
        },
        BackendEvent::VisualFrame => post == (App { features_at: Some(now), ..pre }),
        BackendEvent::Playlists(rows) => playlists_shown(pre, rows@, post),
        BackendEvent::PlaylistTracks { playlist_id, tracks } => playlist_filled(
            pre,
            playlist_id,
            tracks@,
            post,
        ),
        BackendEvent::L1K3D(tracks) => {
            &&& post == (App { liked: post.liked, ..pre })
            &&& post.liked.keys@ == key_set(tracks@)
            &&& post.liked.ids@ == id_set(tracks@)
        },
        BackendEvent::L1K3DChanged { track, liked } => like_shown(pre, *track, liked, post),
        BackendEvent::Queue { queue, origins } => {
            &&& post == (App { related: post.related, ..pre })
            &&& queue_replaced(pre.related, queue@, origins@, post.related)
        },
        BackendEvent::Message(msg) => post == (App { status: Some(msg), ..pre }),
        BackendEvent::Error(err) => {
            &&& post == (App {
                search: SearchState { searching: false, ..pre.search },
                recs: RecommendationSession { loading: None, ..pre.recs },
                status: post.status,
                ..pre
            })
            &&& says(post.status, "Error: "@ + err@)
        },
    }
}

/// What the backend keeps to: the related songs of a search begin inside its
/// results, if it has any, and a queue never shrinks when recommendations are
/// added to it.
pub open spec fn event_ok(a: App, event: BackendEvent) -> bool {
    match event {
        BackendEvent::SearchResults { query, outcome } => outcome.items@.len() > 0
            ==> outcome.related_from <= outcome.items@.len(),
        BackendEvent::Related { track, related, queue, origins, synced, generation } =>
            answer_expected(a, *track, generation) ==> a.related.tracks@.len() <= queue@.len(),
        _ => true,
    }
}

impl App {
    #[verifier::rlimit(40)]
    fn show_results(&mut self, outcome: SearchOutcome)
        requires
            outcome.items@.len() > 0 ==> outcome.related_from <= outcome.items@.len(),
        ensures
            results_shown(*old(self), outcome, *final(self)),
            old(self).wf() ==> final(self).wf(),
    {
        proof {
            reveal(results_shown);
        }
        let SearchOutcome { items, errors, related_from } = outcome;
        let count: usize = items.len();
        self.search.searching = false;
        self.search.related_from = related_from;
        self.search.results = items;
        if count > 0 {
            self.search.list_state.select(Some(0));
        }
        self.status = Some(
            if count == 0 {
                let n = decimal(errors.len() as u64);
                concat3("Sin resultados (", n.as_str(), " error(es). ¿Red sobre YouTube?")
            } else if related_from > 0 {
                let hits = decimal(related_from as u64);
                let more = decimal((count - related_from) as u64);
                let head = concat3(hits.as_str(), " resultado(s) + ", more.as_str());
                concat2(head.as_str(), " relacionadas. Enter guarda el seleccionado.")
            } else {
                let n = decimal(count as u64);
                concat2(n.as_str(), " resultado(s). Enter guarda el seleccionado.")
            },
        );
    }

    fn show_failure(&mut self, err: String)
        ensures
            failure_shown(*old(self), err@, *final(self)),
            old(self).wf() ==> final(self).wf(),
    {
        proof {
            reveal(failure_shown);
        }
        if self.pending_track.is_some() {
            self.pending_track = None;
            self.playback.state = PlaybackState::Stopped;
            self.playback.track = None;
            self.playback.stalled = false;
            self.clock.cancel_pending_seek();
        }
        self.status = Some(concat2("Reproducción: ", err.as_str()));
    }

    fn confirm_seek(&mut self, now: u64)
        ensures
            seek_confirmed(*old(self), now, *final(self)),
            old(self).wf() ==> final(self).wf(),
    {
        proof {
            reveal(seek_confirmed);
        }
        self.clock.confirm_seek(now);
        if !matches!(self.playback.state, PlaybackState::Paused) {
            self.playback.state = PlaybackState::Playing;
        }
    }

    fn show_like(&mut self, track: &Track, liked: bool)
        requires
            old(self).liked.wf(),
        ensures
            like_shown(*old(self), *track, liked, *final(self)),
            old(self).wf() ==> final(self).wf(),
    {
        proof {
            reveal(like_shown);
        }
        if liked {
            self.liked.add(track);
            let head = concat3(self.glyphs.heart_liked(), " «", track.title.as_str());
            self.status = Some(concat2(head.as_str(), "» añadida a L1K3D."));
        } else {
            self.liked.remove(track);
            self.status = Some(concat3("Quitada de L1K3D: «", track.title.as_str(), "»."));
        }
    }

    fn show_playlists(&mut self, rows: Vec<PlaylistRow>)
        ensures
            playlists_shown(*old(self), rows@, *final(self)),
            old(self).wf() ==> final(self).wf(),
    {
        proof {
            reveal(playlists_shown);
        }
        let n: usize = rows.len();
        self.playlists = rows;
        if let Some(sel) = self.playlist_view.listing.selected() {
            let max: usize = n.saturating_sub(1);
            self.playlist_view.listing.select(Some(if sel < max { sel } else { max }));
        }
    }

    fn fill_playlist(&mut self, playlist_id: i64, tracks: Vec<Track>)
        ensures
            playlist_filled(*old(self), playlist_id, tracks@, *final(self)),
            old(self).wf() ==> final(self).wf(),
    {
        proof {
            reveal(playlist_filled);
        }
        let n: usize = tracks.len();
        let mut origins: Vec<QueueItemOrigin> = Vec::new();
        let mut i: usize = 0;
        while i < n
            invariant
                0 <= i <= n,
                origins@ == Seq::new(i as nat, |k: int| QueueItemOrigin::Playlist),
            decreases n - i,
        {
            origins.push(QueueItemOrigin::Playlist);
            proof {
                assert(origins@ =~= Seq::new((i + 1) as nat, |k: int| QueueItemOrigin::Playlist));
            }
            i = i + 1;
        }
        match self.playlist_view.detail.as_mut() {
            Some(detail) => {
                if detail.id != playlist_id {
                    return;
                }
                if n > 0 {
                    detail.tracks.list_state.select(Some(0));
                }
                detail.tracks.set_queue(tracks, origins);
            },
            None => {},
        }
    }

    fn show_related(
        &mut self,
        track: &Track,
        related: Vec<Track>,
        queue: Vec<Track>,
        origins: Vec<QueueItemOrigin>,
        synced: Option<LyricSheet>,
        generation: u64,
    )
        requires
            answer_expected(*old(self), *track, generation) ==> old(self).related.tracks@.len()
                <= queue@.len(),
        ensures
            related_shown(
                *old(self),
                *track,
                related@,
                queue@,
                origins@,
                synced,
                generation,
                *final(self),
            ),
            old(self).wf() ==> final(self).wf(),
    {
        proof {
            reveal(related_shown);
        }
        let id = track.identifier();
        if !self.recs.complete(&id, generation) {
            return;
        }
        let added: usize = queue.len() - self.related.tracks.len();
        let n: usize = queue.len();
        fill_related(&mut self.related, related, queue, origins, synced);
        let total = decimal(n as u64);
        self.status = Some(
            if added > 0 {
                let fresh = decimal(added as u64);
                let head = concat3(total.as_str(), " en cola (+", fresh.as_str());
                concat2(
                    head.as_str(),
                    " nuevas). ↑/↓ selecciona, Enter reproduce, r actualiza, R reemplaza.",
                )
            } else {
                concat2(
                    total.as_str(),
                    " en cola. ↑/↓ o W/S selecciona, Enter reproduce, r actualiza, R reemplaza la cola.",
                )
            },
        );
    }

    /// Shows a snapshot: adopts its song and lets clock and lyrics follow.
    fn show_snapshot(&mut self, status: PlaybackStatus, now: u64)
        requires
            old(self).thumbnails.wf(),
        ensures
            *final(self) == (App {
                pending_track: final(self).pending_track,
                now_playing: final(self).now_playing,
                thumbnails: final(self).thumbnails,
                recs: final(self).recs,
                related: final(self).related,
                status: final(self).status,
                outbox: final(self).outbox,
                clock: final(self).clock,
                playback: final(self).playback,
                ..*old(self)
            }),
            snapshot_shown(
                *old(self),
                status,
                old(self).clock,
                false,
                Seq::empty(),
                now,
                *final(self),
            ),
            adoption_status(*old(self), status.track, *final(self)),
            old(self).wf() ==> final(self).wf(),
    {
        proof {
            reveal(snapshot_shown);
        }
        let ghost pre = *self;
        if let Some(t) = clone_track(&status.track) {
            let id = t.identifier();
            self.settle_pending(&id);
            let ghost mid = *self;
            self.on_new_now_playing(t);
            proof {
                lemma_adoption_ignores_pending(pre, mid, t);
            }
        }
        let ghost adopted = *self;
        self.update_karaoke_clock(&status, now);
        proof {
            assert(pre.outbox@ + Seq::<BackendCommand>::empty() =~= pre.outbox@);
            lemma_snapshot(pre, status, now, adopted, *self);
        }
        self.playback = status;
    }

    /// The song that was asked for shows up.
    fn settle_pending(&mut self, id: &String)
        ensures
            *final(self) == (App {
                pending_track: if opt_text(old(self).pending_track) == Some(id@) {
                    None
                } else {
                    old(self).pending_track
                },
                ..*old(self)
            }),
    {
        let arrived = match &self.pending_track {
            Some(p) => *p == *id,
            None => false,
        };
        if arrived {
            self.pending_track = None;
        }
    }

    fn show_sample(&mut self, status: PlaybackStatus, now: u64)
        requires
            old(self).thumbnails.wf(),
        ensures
            sample_shown(*old(self), status, now, *final(self)),
            old(self).wf() ==> final(self).wf(),
    {
        proof {
            reveal(sample_shown);
            reveal(snapshot_shown);
        }
        let stale = match &status.track {
            Some(t) => {
                let id = t.identifier();
                !self.is_pending(&id) && !is_song(&self.now_playing, &id)
            },
            None => false,
        };
        if stale {
            return;
        }
        let status = fill_duration(status);
        self.show_snapshot(status, now);
        if matches!(self.view, View::NowPlaying) && !self.recs.is_loading() {
            self.status = Some(self.playback_line());
        }
    }

    /// Whether this is the song that was asked for.
    fn is_pending(&self, id: &String) -> (r: bool)
        ensures
            r == (opt_text(self.pending_track) == Some(id@)),
    {
        match &self.pending_track {
            Some(p) => *p == *id,
            None => false,
        }
    }

    /// Whether a start is of another song than the one asked for.
    fn start_stale(&self, status: &PlaybackStatus) -> (r: bool)
        ensures
            r == start_is_stale(*self, *status),
    {
        match &self.pending_track {
            Some(p) => !is_song(&status.track, p),
            None => false,
        }
    }

    /// The song on the screen starts again: the clock goes to its beginning, no
    /// jump is pending and the lyrics are rewound.
    fn rewind_song(&mut self)
        ensures
            *final(self) == (App {
                clock: PositionClock {
                    position: 0,
                    anchor: None,
                    pending_seek: None,
                    ..old(self).clock
                },
                related: final(self).related,
                ..*old(self)
            }),
            scroll_rewound(old(self).related, final(self).related),
    {
        self.related.scroll.reset();
        self.clock.restart_same_track();
        self.clock.cancel_pending_seek();
    }

    #[verifier::rlimit(40)]
    fn show_start(&mut self, status: PlaybackStatus, stats: Vec<TrackListeningStats>, now: u64)
        requires
            old(self).thumbnails.wf(),
        ensures
            start_shown(*old(self), status, stats@, now, *final(self)),
            old(self).wf() ==> final(self).wf(),
    {
        proof {
            reveal(start_shown);
        }
        if self.start_stale(&status) {
            return;
        }
        let ghost pre = *self;
        let status = fill_duration(status);
        self.listening_stats = stats;
        self.send(BackendCommand::LoadHistory);
        if let Some(t) = &status.track {
            let id = t.identifier();
            if is_song(&self.now_playing, &id) {
                self.rewind_song();
            } else {
                self.clock.clear();
            }
        }
        let ghost mid = *self;
        self.show_snapshot(status, now);
        proof {
            assert(mid.outbox@ =~= pre.outbox@ + seq![BackendCommand::LoadHistory]);
            lemma_prepared_snapshot(
                pre,
                status,
                clock_at_start(pre, status.track),
                status.track is Some && !song_changed(pre, status.track->0),
                seq![BackendCommand::LoadHistory],
                now,
                mid,
                *self,
            );
        }
    }

    #[verifier::rlimit(40)]
    fn show_recovery(&mut self, status: PlaybackStatus, now: u64)
        requires
            old(self).thumbnails.wf(),
        ensures
            recovery_shown(*old(self), status, now, *final(self)),
            old(self).wf() ==> final(self).wf(),
    {
        proof {
            reveal(recovery_shown);
        }
        if self.start_stale(&status) {
            return;
        }
        let ghost pre = *self;
        let status = fill_duration(status);
        if status.track.is_some() {
            self.rewind_song();
        }
        let ghost mid = *self;
        self.show_snapshot(status, now);
        proof {
            assert(pre.outbox@ + Seq::<BackendCommand>::empty() =~= pre.outbox@);
            lemma_prepared_snapshot(
                pre,
                status,
                clock_at_recovery(pre, status.track),
                status.track is Some,
                Seq::empty(),
                now,
                mid,
                *self,
            );
        }
    }

    /// Events of the engine.
    #[verifier::rlimit(40)]
    fn on_engine_event(&mut self, event: BackendEvent, now: u64)
        requires
            old(self).wf(),
            is_engine_event(event),
            now <= u64::MAX - NOTICE_LIFETIME,
        ensures
            event_step(*old(self), event, now, *final(self)),
            final(self).wf(),
    {
        match event {
            BackendEvent::Playback(status) => self.show_sample(status, now),
            BackendEvent::PlaybackStarted { status, stats } => self.show_start(status, stats, now),
            BackendEvent::RecoveryResumed(status) => self.show_recovery(status, now),
            BackendEvent::PlaybackError(err) => self.show_failure(err),
            BackendEvent::SeekStarted => {
                self.playback.state = PlaybackState::Seeking;
            },
            BackendEvent::SeekCompleted => self.confirm_seek(now),
            BackendEvent::SeekFailed => {
                self.clock.cancel_pending_seek();
                self.status = Some(
                    "No se pudo buscar la posición (stream no busca hacia atrás).".to_string(),
                );
            },
            BackendEvent::StreamError(err) => self.notices.push(err, now),
            BackendEvent::VisualFrame => {
                self.features_at = Some(now);
            },
            _ => {},
        }
    }

    /// Events about the queue, the playlists and the liked songs.
    fn on_queue_event(&mut self, event: BackendEvent, now: u64)
        requires
            old(self).wf(),
            event_ok(*old(self), event),
            is_queue_event(event),
        ensures
            event_step(*old(self), event, now, *final(self)),
            final(self).wf(),
    {
        match event {
            BackendEvent::Related { track, related, queue, origins, synced, generation } =>
                self.show_related(&track, related, queue, origins, synced, generation),
            BackendEvent::QueueState { shuffle, repeat, len: _ } => {
                self.shuffle = shuffle;
                self.repeat = repeat;
            },
            BackendEvent::Queue { queue, origins } => self.related.set_queue(queue, origins),
            BackendEvent::Playlists(rows) => self.show_playlists(rows),
            BackendEvent::PlaylistTracks { playlist_id, tracks } => self.fill_playlist(
                playlist_id,
                tracks,
            ),
            BackendEvent::L1K3D(tracks) => self.liked.set_tracks(tracks),
            BackendEvent::L1K3DChanged { track, liked } => self.show_like(&track, liked),
            _ => {},
        }
    }

    /// The other events: results, listings and messages.
    #[verifier::rlimit(40)]
    fn on_listing_event(&mut self, event: BackendEvent, now: u64)
        requires
            old(self).wf(),
            event_ok(*old(self), event),
            !is_engine_event(event),
            !is_queue_event(event),
        ensures
            event_step(*old(self), event, now, *final(self)),
            final(self).wf(),
    {
        match event {
            BackendEvent::SearchResults { query: _, outcome } => self.show_results(*outcome),
            BackendEvent::TrackSaved { track, internal_id } => {
                let number = signed(internal_id);
                let head = concat3("Guardado «", track.title.as_str(), "» en BD (track_id=");
                self.status = Some(concat3(head.as_str(), number.as_str(), ")."));
            },
            BackendEvent::History(entries) => {
                self.history = entries;
            },
            BackendEvent::ListeningStats(stats) => {
                self.listening_stats = stats;
            },
            BackendEvent::Sources(sources) => {
                self.sources = sources;
            },
            BackendEvent::Settings => {
                self.settings_ready = true;
                self.status = Some("Ajustes · Enter guarda en .env, Esc vuelve.".to_string());
            },
            BackendEvent::Thumbnail { key, state } => self.thumbnails.insert(key, state),
            BackendEvent::Message(msg) => {
                self.status = Some(msg);
            },
            BackendEvent::Error(err) => {
                self.search.searching = false;
                self.recs.abort();
                self.status = Some(concat2("Error: ", err.as_str()));
            },
            _ => {},
        }
    }

    /// Takes an event of the backend.
    pub fn on_backend(&mut self, event: BackendEvent, now: u64)
        requires
            old(self).wf(),
            event_ok(*old(self), event),
            now <= u64::MAX - NOTICE_LIFETIME,
        ensures
            event_step(*old(self), event, now, *final(self)),
            final(self).wf(),
    {
        match &event {
            BackendEvent::Playback(_) | BackendEvent::PlaybackStarted { .. }
            | BackendEvent::RecoveryResumed(_) | BackendEvent::PlaybackError(_)
            | BackendEvent::SeekStarted | BackendEvent::SeekCompleted | BackendEvent::SeekFailed
            | BackendEvent::StreamError(_) | BackendEvent::VisualFrame => self.on_engine_event(
                event,
                now,
            ),
            BackendEvent::Related { .. } | BackendEvent::QueueState { .. }
            | BackendEvent::Queue { .. } | BackendEvent::Playlists(_)
            | BackendEvent::PlaylistTracks { .. } | BackendEvent::L1K3D(_)
            | BackendEvent::L1K3DChanged { .. } => self.on_queue_event(event, now),
            _ => self.on_listing_event(event, now),
        }
    }
}

/// The event is about the engine.
pub open spec fn is_engine_event(event: BackendEvent) -> bool {
    ||| event is Playback
    ||| event is PlaybackStarted
    ||| event is RecoveryResumed
    ||| event is PlaybackError
    ||| event is SeekStarted
    ||| event is SeekCompleted
    ||| event is SeekFailed
    ||| event is StreamError
    ||| event is VisualFrame
}

/// The event is about the queue, the playlists or the liked songs.
pub open spec fn is_queue_event(event: BackendEvent) -> bool {
    ||| event is Related
    ||| event is QueueState
    ||| event is Queue
    ||| event is Playlists
    ||| event is PlaylistTracks
    ||| event is L1K3D
    ||| event is L1K3DChanged
}

/// Takes in recommendations, queue and lyrics.
fn fill_related(
    state: &mut RelatedState,
    related: Vec<Track>,
    queue: Vec<Track>,
    origins: Vec<QueueItemOrigin>,
    synced: Option<LyricSheet>,
)
    ensures
        related_filled(*old(state), related@, queue@, origins@, synced, *final(state)),
{
    state.fresh = related;
    state.set_queue(queue, origins);
    let usable = match synced {
        Some(sheet) => {
            let blank = trim(sheet.text.as_str()).as_str().is_empty();
            if blank || sheet.lyrics.is_empty() {
                None
            } else {
                Some(sheet.lyrics)
            }
        },
        None => None,
    };
    state.set_synced(usable);
    let last: usize = state.tracks.len().saturating_sub(1);
    let wish: usize = match state.list_state.selected() {
        Some(i) => i,
        None => 0,
    };
    state.list_state.select(Some(if wish < last { wish } else { last }));
}

/// Whether a song is pending plays no part in its adoption.
proof fn lemma_adoption_ignores_pending(pre: App, mid: App, t: Track)
    requires
        mid == (App { pending_track: mid.pending_track, ..pre }),
    ensures
        song_changed(mid, t) == song_changed(pre, t),
        asks_related(mid, t) == asks_related(pre, t),
        adoption_commands(mid, t) == adoption_commands(pre, t),
        selection_adopted(mid, t) == selection_adopted(pre, t),
{
}

/// Adopting a song and then taking the sample shows the snapshot, but for the
/// shown status itself.
proof fn lemma_snapshot(pre: App, s: PlaybackStatus, now: u64, adopted: App, sampled: App)
    requires
        sample_taken(adopted, s, now, sampled),
        adopted.clock == pre.clock,
        match s.track {
            Some(t) => {
                &&& song_adopted(pre, t, adopted)
                &&& adopted.outbox@ == pre.outbox@ + adoption_commands(pre, t)
                &&& related_moved(
                    pre.related,
                    selection_adopted(pre, t),
                    song_changed(pre, t),
                    false,
                    adopted.related,
                )
            },
            None => adopted == pre,
        },
    ensures
        ({
            let key = opt_ident(s.track);
            let ev = clock_event(pre.clock, key, s.position);
            match s.track {
                Some(t) => {
                    &&& song_adopted(pre, t, sampled)
                    &&& related_moved(
                        pre.related,
                        selection_adopted(pre, t),
                        song_changed(pre, t) || ev == Some(ClockEvent::NewTrack),
                        ev == Some(ClockEvent::Restarted),
                        sampled.related,
                    )
                },
                None => related_moved(
                    pre.related,
                    pre.related.list_state,
                    true,
                    false,
                    sampled.related,
                ),
            }
        }),
{
}

/// A snapshot shown from a prepared state is the snapshot shown with that
/// preparation.
proof fn lemma_prepared_snapshot(
    pre: App,
    s: PlaybackStatus,
    c: PositionClock,
    rewound: bool,
    sent: Seq<BackendCommand>,
    now: u64,
    mid: App,
    post: App,
)
    requires
        mid == (App {
            clock: c,
            related: mid.related,
            outbox: mid.outbox,
            listening_stats: mid.listening_stats,
            ..pre
        }),
        mid.outbox@ == pre.outbox@ + sent,
        mid.related == (RelatedState { scroll: mid.related.scroll, ..pre.related }),
        if rewound {
            mid.related.scroll.lines@ == Seq::<usize>::empty()
        } else {
            mid.related.scroll == pre.related.scroll
        },
        rewound ==> s.track is Some,
        snapshot_shown(mid, s, mid.clock, false, Seq::empty(), now, post),
        adoption_status(mid, s.track, post),
    ensures
        snapshot_shown(pre, s, c, rewound, sent, now, post),
        adoption_status(pre, s.track, post),
{
    reveal(snapshot_shown);
    assert(mid.outbox@ + Seq::<BackendCommand>::empty() =~= mid.outbox@);
    if let Some(t) = s.track {
        assert(song_changed(mid, t) == song_changed(pre, t));
        assert(asks_related(mid, t) == asks_related(pre, t));
        assert(adoption_commands(mid, t) == adoption_commands(pre, t));
        assert(selection_adopted(mid, t) == selection_adopted(pre, t));
    }
}

} // verus!
