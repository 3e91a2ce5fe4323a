//! What holds of the interface whatever the keys and events.

use vstd::prelude::*;
use vstd::view::View as _;

use crate::app::{
    adopts_song, related_loaded, related_reloaded, sample_taken, song_changed, song_requested,
    state_text, view_switched, App,
};
use crate::domain::{ident, opt_ident, Track, SECOND};
use crate::event::{BackendCommand, BackendEvent};
use crate::inbox::{
    answer_expected, event_step, failure_shown, recovery_shown, related_shown, sample_is_stale,
    sample_shown, seek_confirmed, snapshot_shown, start_is_stale, start_shown,
};
use crate::input::{
    action_step, autoplay_toggled, content_cycled, key_step, playlists_handled, query_edited,
    repeat_cycled, seek_requested, shows_queue, shuffle_toggled, SettingsEdit,
};
use crate::keys::{ascii_upper, shift_normalized, KeyCode, KeyEvent, KeyModifiers};
use crate::playback::{
    cleared_clock, covers, in_flight, next_generation, PlaybackState, PlaybackStatus, RepeatMode,
};
use crate::playlists::PlaylistAction;
use crate::text::{law_texts_mention_their_parts, mentions, opt_text};
use crate::view::View;

verus! {

/// The key is pressed without modifiers.
pub open spec fn plain(code: KeyCode) -> KeyEvent {
    KeyEvent { code, modifiers: KeyModifiers { shift: false, control: false } }
}

/// Control+C leaves the program from every screen, also while text is typed or
/// the help is open, and does nothing else.
pub proof fn law_control_c_always_quits(
    pre: App,
    now: u64,
    post: App,
    edit: Option<SettingsEdit>,
)
    requires
        key_step(
            pre,
            (KeyEvent {
                code: KeyCode::Char('c'),
                modifiers: KeyModifiers { shift: false, control: true },
            }),
            now,
            post,
            edit,
        ),
    ensures
        post == (App { should_quit: true, ..pre }),
{
}

/// An open help is closed by whatever key but Control+C, and the key does
/// nothing else.
pub proof fn law_any_key_closes_the_help(
    pre: App,
    key: KeyEvent,
    now: u64,
    post: App,
    edit: Option<SettingsEdit>,
)
    requires
        key_step(pre, key, now, post, edit),
        pre.show_help,
        !(shift_normalized(key).code == KeyCode::Char('c') && key.modifiers.control),
    ensures
        post == (App { show_help: false, ..pre }),
        edit is None,
{
}

/// Moving the selection of the queue sends no command and changes nothing but
/// the selection.
pub proof fn law_list_keys_send_nothing(
    pre: App,
    code: KeyCode,
    now: u64,
    post: App,
    edit: Option<SettingsEdit>,
)
    requires
        key_step(pre, plain(code), now, post, edit),
        !pre.show_help,
        shows_queue(pre),
        code == KeyCode::Char('w') || code == KeyCode::Char('s') || code == KeyCode::Up || code
            == KeyCode::Down,
    ensures
        post.outbox@ == pre.outbox@,
        post == (App {
            related: crate::related::RelatedState {
                list_state: post.related.list_state,
                ..pre.related
            },
            ..pre
        }),
{
}

/// Changing the screen never asks for recommendations, and opening the screen
/// that shows them sends nothing at all.
pub proof fn law_changing_screens_keeps_recommendations(pre: App, v: View, post: App)
    requires
        view_switched(pre, v, post),
    ensures
        post.recs == pre.recs,
        post.related == pre.related,
        v == View::Related ==> post.outbox@ == pre.outbox@,
        forall|i: int|
            pre.outbox@.len() <= i < post.outbox@.len() ==> !((#[trigger] post.outbox@[i]) is LoadRelated),
{
}

/// A bare digit does not change the screen.
pub proof fn law_bare_digits_stay_on_the_screen(
    pre: App,
    c: char,
    now: u64,
    post: App,
    edit: Option<SettingsEdit>,
)
    requires
        key_step(pre, plain(KeyCode::Char(c)), now, post, edit),
        '0' <= c <= '9',
    ensures
        post.view == pre.view,
{
    if !pre.show_help && pre.view == View::Playlists {
        let (mid, action) = choose|mid: App, action: PlaylistAction|
            playlists_handled(pre, KeyCode::Char(c), mid, action) && #[trigger] action_step(
                mid,
                action,
                post,
            );
        assert(playlists_handled(pre, KeyCode::Char(c), mid, action));
    }
}

/// While a query is typed, every letter is text: none is a shortcut, not even
/// the ones that open the help or leave the program.
pub proof fn law_letters_are_text_while_typing(
    pre: App,
    c: char,
    shift: bool,
    now: u64,
    post: App,
    edit: Option<SettingsEdit>,
)
    requires
        key_step(
            pre,
            (KeyEvent { code: KeyCode::Char(c), modifiers: KeyModifiers { shift, control: false } }),
            now,
            post,
            edit,
        ),
        'a' <= c <= 'z' || 'A' <= c <= 'Z',
        pre.view == View::Search,
        pre.search.editing,
        !pre.show_help,
    ensures
        query_edited(
            pre,
            post,
            pre.search.input@.insert(
                pre.search.cursor as int,
                if shift {
                    ascii_upper(c)
                } else {
                    c
                },
            ),
            pre.search.cursor + 1,
        ),
        post.should_quit == pre.should_quit,
        post.outbox@ == pre.outbox@,
{
}

/// On the search screen no key but Control+C leaves the program.
pub proof fn law_search_never_quits(
    pre: App,
    key: KeyEvent,
    now: u64,
    post: App,
    edit: Option<SettingsEdit>,
)
    requires
        key_step(pre, key, now, post, edit),
        pre.view == View::Search,
        !pre.should_quit,
        !(shift_normalized(key).code == KeyCode::Char('c') && key.modifiers.control),
    ensures
        !post.should_quit,
{
}

/// Pressing the shuffle key twice brings the mode back; the backend hears of
/// both changes.
pub proof fn law_shuffle_toggles(pre: App, mid: App, post: App)
    requires
        shuffle_toggled(pre, mid),
        shuffle_toggled(mid, post),
    ensures
        post.shuffle == pre.shuffle,
        post.outbox@ == pre.outbox@.push(BackendCommand::SetShuffle(!pre.shuffle)).push(
            BackendCommand::SetShuffle(pre.shuffle),
        ),
{
}

/// Pressing the autoplay key twice brings the mode back.
pub proof fn law_autoplay_toggles(pre: App, mid: App, post: App)
    requires
        autoplay_toggled(pre, mid),
        autoplay_toggled(mid, post),
    ensures
        post.autoplay == pre.autoplay,
        post.outbox@ == pre.outbox@.push(BackendCommand::SetAutoplay(!pre.autoplay)).push(
            BackendCommand::SetAutoplay(pre.autoplay),
        ),
{
}

/// Pressing the repeat key three times brings the mode back.
pub proof fn law_repeat_key_cycles(a: App, b: App, c: App, d: App)
    requires
        repeat_cycled(a, b),
        repeat_cycled(b, c),
        repeat_cycled(c, d),
    ensures
        d.repeat == a.repeat,
{
}

/// Changing what the band shows touches neither playback nor recommendations.
pub proof fn law_band_mode_is_presentation_only(pre: App, post: App)
    requires
        content_cycled(pre, post),
    ensures
        post.outbox@ == pre.outbox@,
        post.playback == pre.playback,
        post.related == pre.related,
        post.recs == pre.recs,
        post.clock == pre.clock,
{
}

/// A jump stays inside the song, moves nothing before it is confirmed, and is
/// tagged with the song that it was asked on.
pub proof fn law_seek_keys(pre: App, delta: int, now: u64, post: App)
    requires
        seek_requested(pre, delta, now, post),
    ensures
        post.clock.position == pre.clock.position,
        post.clock.pending_seek is Some,
        pre.playback.duration is Some ==> post.clock.pending_seek->0 <= pre.playback.duration->0,
        post.outbox@.last() matches BackendCommand::Seek(secs, song) && secs
            == post.clock.pending_seek->0 as int / SECOND as int && (opt_ident(pre.now_playing)
            == Some(song@) || pre.now_playing is None),
{
    crate::playback::law_seek_stays_in_the_song(
        pre.reading(now) as u64,
        delta,
        pre.playback.duration,
    );
    assert(0 <= pre.reading(now) <= u64::MAX);
}

/// Asking again always asks: with a fresh generation, and the answer to the
/// earlier request does not count any more.
pub proof fn law_reloading_starts_a_new_session(pre: App, post: App, t: Track, old: u64)
    requires
        related_reloaded(pre, post),
        pre.now_playing == Some(t),
        old == pre.recs.generation,
    ensures
        post.outbox@ == pre.outbox@.push(
            BackendCommand::LoadRelated(Box::new(t), next_generation(old)),
        ),
        answer_expected(post, t, next_generation(old)),
        !answer_expected(post, t, old),
        post.related.tracks == pre.related.tracks,
{
}

/// The queue survives a change of song: adopting one changes neither the songs
/// nor who added them.
pub proof fn law_queue_survives_songs(pre: App, t: Track, post: App)
    requires
        adopts_song(pre, t, post) || song_requested(pre, t, post),
    ensures
        post.related.tracks == pre.related.tracks,
        post.related.origins == pre.related.origins,
        post.related.fresh == pre.related.fresh,
{
}

/// The selection of the queue moves by itself only when the song changes.
pub proof fn law_selection_follows_only_changes(pre: App, t: Track, post: App)
    requires
        adopts_song(pre, t, post),
        !song_changed(pre, t),
    ensures
        post.related == pre.related,
        covers(pre.recs, ident(t)) ==> post.recs == pre.recs && post.status == pre.status,
{
}

/// A song that is loaded or in flight is not asked for again by its own samples.
pub proof fn law_ticks_do_not_reload(pre: App, t: Track, post: App)
    requires
        adopts_song(pre, t, post),
        !song_changed(pre, t),
        covers(pre.recs, ident(t)),
        pre.thumbnails@.contains_key(ident(t)),
    ensures
        post.outbox@ == pre.outbox@,
{
}

/// After the user asked for a song it is on the screen as being prepared,
/// without position and lyrics, and it is played.
pub proof fn law_requested_song_is_shown_at_once(pre: App, t: Track, post: App)
    requires
        song_requested(pre, t, post),
    ensures
        opt_ident(post.now_playing) == Some(ident(t)),
        opt_text(post.pending_track) == Some(ident(t)),
        post.playback.state == PlaybackState::Buffering,
        post.clock == cleared_clock(),
        post.related.synced is None,
        !post.related.synced_unavailable,
        post.outbox@.last() == BackendCommand::Play(Box::new(t)),
{
}

/// News of a song that is neither asked for nor on the screen changes nothing.
pub proof fn law_stale_samples_change_nothing(
    pre: App,
    status: PlaybackStatus,
    now: u64,
    post: App,
)
    requires
        event_step(pre, BackendEvent::Playback(status), now, post),
        sample_is_stale(pre, status),
    ensures
        post == pre,
{
    reveal(sample_shown);
}

/// While a song is asked for, neither the start nor the recovery of another one
/// changes anything.
pub proof fn law_other_starts_change_nothing(
    pre: App,
    status: PlaybackStatus,
    stats: Vec<crate::domain::TrackListeningStats>,
    now: u64,
    post: App,
)
    requires
        pre.pending_track is Some,
        opt_ident(status.track) != opt_text(pre.pending_track),
        event_step(pre, BackendEvent::PlaybackStarted { status, stats }, now, post) || event_step(
            pre,
            BackendEvent::RecoveryResumed(status),
            now,
            post,
        ),
    ensures
        post == pre,
{
    reveal(start_shown);
    reveal(recovery_shown);
}

/// Once the song that was asked for starts, it is not pending any more.
pub proof fn law_start_settles_the_request(
    pre: App,
    status: PlaybackStatus,
    stats: Vec<crate::domain::TrackListeningStats>,
    now: u64,
    post: App,
)
    requires
        event_step(pre, BackendEvent::PlaybackStarted { status, stats }, now, post),
        status.track is Some,
        pre.pending_track is Some ==> opt_text(pre.pending_track) == Some(ident(status.track->0)),
    ensures
        post.pending_track is None,
        opt_ident(post.now_playing) == Some(ident(status.track->0)),
        post.clock.pending_seek is None,
        opt_text(post.clock.track_key) == Some(ident(status.track->0)),
        post.clock.position == status.position,
{
    reveal(start_shown);
    reveal(snapshot_shown);
}

/// The same song starting again keeps its lyrics; only their window is rewound.
pub proof fn law_replay_keeps_the_lyrics(
    pre: App,
    status: PlaybackStatus,
    stats: Vec<crate::domain::TrackListeningStats>,
    now: u64,
    post: App,
)
    requires
        event_step(pre, BackendEvent::PlaybackStarted { status, stats }, now, post),
        status.track is Some,
        !start_is_stale(pre, status),
        !song_changed(pre, status.track->0),
        opt_text(pre.clock.track_key) == Some(ident(status.track->0)),
    ensures
        post.related.synced == pre.related.synced,
        post.related.scroll.lines@.len() == 0,
        post.clock.position == status.position,
{
    reveal(start_shown);
    reveal(snapshot_shown);
}

/// A renewed stream rewinds clock and lyrics and keeps the lyrics.
pub proof fn law_recovery_keeps_the_lyrics(
    pre: App,
    status: PlaybackStatus,
    now: u64,
    post: App,
)
    requires
        event_step(pre, BackendEvent::RecoveryResumed(status), now, post),
        status.track is Some,
        !start_is_stale(pre, status),
        !song_changed(pre, status.track->0),
        opt_text(pre.clock.track_key) == Some(ident(status.track->0)),
    ensures
        post.related.synced == pre.related.synced,
        post.related.scroll.lines@.len() == 0,
        post.clock.position == status.position,
        post.clock.pending_seek is None,
{
    reveal(recovery_shown);
    reveal(snapshot_shown);
}

/// When nothing plays any more, clock and lyrics are cleared.
pub proof fn law_silence_clears_clock_and_lyrics(
    pre: App,
    status: PlaybackStatus,
    now: u64,
    post: App,
)
    requires
        event_step(pre, BackendEvent::Playback(status), now, post),
        status.track is None,
    ensures
        post.clock == cleared_clock(),
        post.related.synced is None,
        !post.related.synced_unavailable,
{
    reveal(sample_shown);
    reveal(snapshot_shown);
}

/// An answer that the session does not wait for changes nothing, even when it
/// is about the song on the screen.
pub proof fn law_late_answers_change_nothing(pre: App, event: BackendEvent, now: u64, post: App)
    requires
        event_step(pre, event, now, post),
        event is Related,
        in_flight(pre.recs) != Some((ident(*event->Related_track), event->generation)),
    ensures
        post == pre,
{
    reveal(related_shown);
}

/// After an expected answer the lyrics are there or known to be missing, never
/// both, and the selection is inside the queue.
pub proof fn law_answers_settle_the_lyrics(pre: App, event: BackendEvent, now: u64, post: App)
    requires
        event_step(pre, event, now, post),
        event is Related,
        in_flight(pre.recs) == Some((ident(*event->Related_track), event->generation)),
    ensures
        post.related.synced is Some <==> !post.related.synced_unavailable,
        post.related.synced is Some ==> post.related.synced->0.lines@.len() > 0,
        post.related.tracks@ == event->Related_queue@,
        post.related.tracks@.len() > 0 ==> post.related.list_state.selected is Some
            && post.related.list_state.selected->0 < post.related.tracks@.len(),
        post.recs.loading is None,
{
    reveal(related_shown);
}

/// A failed request is given up: nothing is pending or being prepared.
pub proof fn law_failures_release_the_request(pre: App, err: String, now: u64, post: App)
    requires
        event_step(pre, BackendEvent::PlaybackError(err), now, post),
    ensures
        post.pending_track is None,
        pre.pending_track is Some ==> post.playback.state == PlaybackState::Stopped
            && post.playback.track is None && post.clock.pending_seek is None,
{
    reveal(failure_shown);
}

/// A confirmed jump puts the clock at its target; a failed one leaves the clock
/// where the audio is.
pub proof fn law_seek_outcomes(pre: App, now: u64, done: App, failed: App)
    requires
        pre.clock.pending_seek is Some,
        event_step(pre, BackendEvent::SeekCompleted, now, done),
        event_step(pre, BackendEvent::SeekFailed, now, failed),
    ensures
        done.clock.position == pre.clock.pending_seek->0,
        done.clock.pending_seek is None,
        failed.clock.position == pre.clock.position,
        failed.clock.pending_seek is None,
        pre.playback.state != PlaybackState::Paused ==> done.playback.state
            == PlaybackState::Playing,
{
    reveal(seek_confirmed);
}

/// Trouble with the stream shows up in the notices and nowhere else.
pub proof fn law_stream_trouble_stays_at_the_foot(pre: App, err: String, now: u64, post: App)
    requires
        event_step(pre, BackendEvent::StreamError(err), now, post),
    ensures
        post == (App { notices: post.notices, ..pre }),
{
}

/// The queue's modes are the backend's: the interface adopts what it reports.
pub proof fn law_backend_decides_queue_modes(
    pre: App,
    shuffle: bool,
    repeat: RepeatMode,
    len: usize,
    now: u64,
    post: App,
)
    requires
        event_step(pre, BackendEvent::QueueState { shuffle, repeat, len }, now, post),
    ensures
        post == (App { shuffle, repeat, ..pre }),
{
}

/// What a sample of the engine does to the clock and the lyrics. Silence clears
/// both. Another song starts the clock where the sample is, and its lyrics are not
/// known yet. In the same song the clock goes on to the sample; it stays where it
/// is if the sample lies back by less than half a second, and by half a second or
/// more it goes back and the lyrics are rewound. While a jump is awaited the clock
/// follows the sample, and the jump has arrived within a second of its target.
pub proof fn law_clock_follows_the_samples(
    pre: App,
    status: PlaybackStatus,
    now: u64,
    post: App,
)
    requires
        sample_taken(pre, status, now, post),
    ensures
        ({
            let same = status.track is Some && opt_text(pre.clock.track_key) == Some(
                ident(status.track->0),
            );
            let wish = pre.clock.pending_seek;
            let (was, is) = (pre.clock.position as int, status.position as int);
            &&& status.track is None ==> {
                &&& post.clock.track_key is None
                &&& post.clock.position == 0
                &&& post.clock.anchor is None
                &&& post.clock.pending_seek is None
                &&& post.related.synced is None
            }
            &&& status.track is Some ==> opt_text(post.clock.track_key) == Some(
                ident(status.track->0),
            ) && post.clock.anchor == Some(now)
            &&& status.track is Some && !same ==> {
                &&& post.clock.position == is
                &&& post.clock.pending_seek is None
                &&& post.related.synced is None
                &&& !post.related.synced_unavailable
            }
            &&& same && wish is Some ==> {
                &&& post.clock.position == is
                &&& post.clock.pending_seek is None <==> -1_000_000_000 <= is - wish->0
                    <= 1_000_000_000
                &&& post.clock.pending_seek is Some ==> post.clock.pending_seek == wish
                &&& post.related == pre.related
            }
            &&& same && wish is None && is >= was ==> {
                &&& post.clock.position == is
                &&& post.related == pre.related
            }
            &&& same && wish is None && 0 < was - is < 500_000_000 ==> {
                &&& post.clock.position == was
                &&& post.related == pre.related
            }
            &&& same && wish is None && was - is >= 500_000_000 ==> {
                &&& post.clock.position == is
                &&& post.related.synced == pre.related.synced
                &&& post.related.scroll.lines@.len() == 0
            }
        }),
        post.related.tracks == pre.related.tracks,
        post.related.list_state == pre.related.list_state,
        post.outbox == pre.outbox,
        post.playback == pre.playback,
{
}

/// Recommendations are asked for once: for the song on the screen, under the next
/// generation, unless they are there or on their way.
pub proof fn law_recommendations_are_asked_for_once(pre: App, post: App, t: Track)
    requires
        related_loaded(pre, post),
        pre.now_playing == Some(t),
        pre.recs.generation < u64::MAX,
    ensures
        ({
            let there = pre.recs.loaded is Some && pre.recs.loaded->0@ == ident(t);
            let coming = pre.recs.loading is Some && pre.recs.loading->0.track@ == ident(t);
            &&& there || coming ==> post.outbox@ == pre.outbox@ && post.recs == pre.recs
            &&& !there && !coming ==> {
                &&& post.outbox@ == pre.outbox@ + seq![
                    BackendCommand::LoadRelated(Box::new(t), (pre.recs.generation + 1) as u64),
                ]
                &&& post.recs.loading is Some
                &&& post.recs.loading->0.track@ == ident(t)
                &&& post.recs.loading->0.generation == pre.recs.generation + 1
            }
        }),
        post.related == pre.related,
        post.playback == pre.playback,
{
    if post.outbox@.len() > pre.outbox@.len() {
        assert(pre.outbox@.push(post.outbox@.last()) =~= pre.outbox@ + seq![post.outbox@.last()]);
    }
}

/// A fresh interface shows what plays, which is nothing: no song, no results, no
/// queue, nothing typed, nothing to send. Autoplay is on, shuffling off, and the
/// queue goes round.
pub proof fn law_fresh_interface(glyphs: crate::glyphs::UiGlyphs, a: App)
    requires
        call_ensures(App::new, (glyphs,), a),
    ensures
        a.view is NowPlaying,
        a.now_playing is None && a.playback.track is None && a.pending_track is None,
        a.playback.state is Stopped,
        a.outbox@.len() == 0 && a.search.results@.len() == 0 && a.related.tracks@.len() == 0,
        a.search.input@.len() == 0 && !a.search.editing && !a.playlist_view.creating,
        a.autoplay && !a.shuffle && a.repeat is All,
        !a.should_quit && !a.show_help,
{
}

/// The colours that are shown are those of the cover of the song on the screen,
/// once it is there.
pub proof fn law_colours_follow_the_cover(
    a: App,
    t: Track,
    img: std::sync::Arc<crate::domain::CoverImage>,
)
    requires
        a.now_playing == Some(t),
    ensures
        a.thumbnails@.dom().contains(ident(t)) && a.thumbnails@[ident(t)]
            == crate::domain::ThumbnailState::Loaded(img) ==> a.palette_shown() == img.palette,
        !a.thumbnails@.dom().contains(ident(t)) ==> a.palette_shown() is None,
        a.thumbnails@.dom().contains(ident(t)) && !(a.thumbnails@[ident(t)] is Loaded)
            ==> a.palette_shown() is None,
{
}

/// The line that tells what plays names the song, behind the name of the state.
pub proof fn law_playback_line_names_the_song(a: App, t: Track, line: String)
    requires
        call_ensures(App::playback_line, (&a,), line),
        a.playback.track == Some(t),
    ensures
        mentions(line@, t.title@),
        t.artists@.len() > 0 ==> mentions(line@, t.artists@[0]@),
        mentions(line@, state_text(a.playback.state, a.glyphs, a.frame)),
{
    let state = state_text(a.playback.state, a.glyphs, a.frame);
    let name = crate::domain::display_text(t);
    let slow = " "@ + seq![crate::glyphs::spinner_glyph(a.glyphs.theme, a.frame)]
        + " stream lento · rellenando…] "@;
    let head = if a.playback.stalled {
        "["@ + state + slow
    } else {
        "["@ + state + "] "@
    };
    assert(line@ =~= head + name);
    if t.artists@.len() > 0 {
        let artist = t.artists@[0]@;
        assert(line@ =~= (head + artist + " - "@) + t.title@);
        law_texts_mention_their_parts(head + artist + " - "@, t.title@, Seq::empty());
        assert(line@ =~= head + artist + (" - "@ + t.title@));
        law_texts_mention_their_parts(head, artist, " - "@ + t.title@);
    } else {
        law_texts_mention_their_parts(head, t.title@, Seq::empty());
    }
    let rest = if a.playback.stalled {
        slow + name
    } else {
        "] "@ + name
    };
    assert(line@ =~= "["@ + state + rest);
    law_texts_mention_their_parts("["@, state, rest);
}

/// The five states of the engine are told apart by their words.
pub proof fn law_states_are_told_apart(glyphs: crate::glyphs::UiGlyphs, frame: u64)
    ensures
        mentions(state_text(PlaybackState::Playing, glyphs, frame), " reproduciendo"@),
        mentions(state_text(PlaybackState::Paused, glyphs, frame), " pausado"@),
        mentions(state_text(PlaybackState::Stopped, glyphs, frame), " detenido"@),
        mentions(state_text(PlaybackState::Buffering, glyphs, frame), " preparando"@),
        mentions(state_text(PlaybackState::Seeking, glyphs, frame), " buscando"@),
{
    let theme = glyphs.theme;
    law_texts_mention_their_parts(crate::glyphs::glyph(theme, "▶"@, ">"@), " reproduciendo"@, ""@);
    law_texts_mention_their_parts(crate::glyphs::glyph(theme, "‖"@, "||"@), " pausado"@, ""@);
    law_texts_mention_their_parts(crate::glyphs::glyph(theme, "■"@, "[]"@), " detenido"@, ""@);
    law_texts_mention_their_parts(
        seq![crate::glyphs::spinner_glyph(theme, frame)],
        " preparando"@,
        ""@,
    );
    law_texts_mention_their_parts(crate::glyphs::glyph(theme, "»"@, ">>"@), " buscando"@, ""@);
}

/// Whatever key is pressed, the interface does what the rules of the keys say.
pub proof fn law_keys_follow_the_rules(
    a: &mut App,
    key: KeyEvent,
    now: u64,
    edit: Option<SettingsEdit>,
)
    requires
        call_ensures(App::on_key, (a, key, now), edit),
    ensures
        key_step(*old(a), key, now, *final(a), edit),
{
}

/// Whatever event arrives, the interface does what the rules of the events say.
pub proof fn law_events_follow_the_rules(a: &mut App, event: BackendEvent, now: u64)
    requires
        call_ensures(App::on_backend, (a, event, now), ()),
    ensures
        event_step(*old(a), event, now, *final(a)),
{
}

/// A key of the terminal is a key of the interface; the mouse is followed, and a
/// click waits for a list; a new size forgets where the mouse was; and without a
/// terminal the program ends.
pub proof fn law_terminal_is_followed(
    a: &mut App,
    event: Option<crate::event::UiEvent>,
    now: u64,
    edit: Option<SettingsEdit>,
)
    requires
        call_ensures(App::on_ui, (a, event, now), edit),
    ensures
        event matches Some(crate::event::UiEvent::Key(key)) ==> key_step(
            *old(a),
            key,
            now,
            *final(a),
            edit,
        ),
        event matches Some(crate::event::UiEvent::Mouse(mouse)) ==> {
            &&& final(a).mouse_pos == Some((mouse.column, mouse.row))
            &&& mouse.left_down ==> final(a).mouse_click
            &&& !mouse.left_down ==> final(a).mouse_click == old(a).mouse_click
            &&& *final(a) == (App {
                mouse_pos: final(a).mouse_pos,
                mouse_click: final(a).mouse_click,
                ..*old(a)
            })
        },
        event matches Some(crate::event::UiEvent::Resize(_, _)) ==> final(a).mouse_pos is None
            && final(a).view == old(a).view && final(a).should_quit == old(a).should_quit,
        event is None ==> final(a).should_quit,
{
}

/// A frame shows the position that the clock reads, and moves nothing but that and
/// the counter of frames.
pub proof fn law_frames_show_the_clock(a: &mut App, now: u64)
    requires
        call_ensures(App::begin_frame, (a, now), ()),
        old(a).frame < u64::MAX,
    ensures
        final(a).playback.position == old(a).reading(now),
        final(a).frame == old(a).frame + 1,
        final(a).playback.state == old(a).playback.state,
        final(a).clock == old(a).clock,
        final(a).outbox == old(a).outbox,
        final(a).related == old(a).related,
{
}

/// At the start everything that the screens list is asked for, and the backend is
/// told whether to play on by itself.
pub proof fn law_start_asks_for_everything(a: &mut App)
    requires
        call_ensures(App::request_initial_data, (a,), ()),
    ensures
        ({
            let sent = final(a).outbox@.skip(old(a).outbox@.len() as int);
            &&& final(a).outbox@.take(old(a).outbox@.len() as int) == old(a).outbox@
            &&& sent.contains(BackendCommand::LoadHistory)
            &&& sent.contains(BackendCommand::LoadListeningStats)
            &&& sent.contains(BackendCommand::LoadSources)
            &&& sent.contains(BackendCommand::LoadSettings)
            &&& sent.contains(BackendCommand::ListPlaylists)
            &&& sent.contains(BackendCommand::LoadLiked)
            &&& sent.contains(BackendCommand::SetAutoplay(old(a).autoplay))
            &&& sent.len() == 7
        }),
{
    let all = seq![
        BackendCommand::LoadHistory,
        BackendCommand::LoadListeningStats,
        BackendCommand::LoadSources,
        BackendCommand::LoadSettings,
        BackendCommand::ListPlaylists,
        BackendCommand::LoadLiked,
        BackendCommand::SetAutoplay(old(a).autoplay),
    ];
    let n = old(a).outbox@.len() as int;
    assert(final(a).outbox@ == old(a).outbox@ + all);
    assert(final(a).outbox@.skip(n) =~= all);
    assert(final(a).outbox@.take(n) =~= old(a).outbox@);
    assert(all[0] is LoadHistory && all[1] is LoadListeningStats && all[2] is LoadSources
        && all[3] is LoadSettings && all[4] is ListPlaylists && all[5] is LoadLiked && all[6]
        == BackendCommand::SetAutoplay(old(a).autoplay));
}

/// Commands leave in the order in which they were sent, each once.
pub proof fn law_commands_leave_in_order(a: &mut App, sent: Vec<BackendCommand>)
    requires
        call_ensures(App::take_commands, (a,), sent),
    ensures
        sent@ == old(a).outbox@,
        final(a).outbox@.len() == 0,
        final(a).view == old(a).view,
        final(a).playback == old(a).playback,
{
}

/// Opening a screen, asking for a song, loading recommendations and taking a sample
/// do what their rules say, whoever calls for them.
pub proof fn law_requests_follow_the_rules(
    a: &mut App,
    b: &mut App,
    c: &mut App,
    d: &mut App,
    e: &mut App,
    view: View,
    t: Track,
    status: PlaybackStatus,
    now: u64,
)
    requires
        call_ensures(App::switch_view, (a, view), ()),
        call_ensures(App::save_and_play, (b, t), ()),
        call_ensures(App::load_related, (c,), ()),
        call_ensures(App::update_karaoke_clock, (d, &status, now), ()),
        call_ensures(App::reload_related, (e,), ()),
    ensures
        view_switched(*old(a), view, *final(a)),
        song_requested(*old(b), t, *final(b)),
        related_loaded(*old(c), *final(c)),
        sample_taken(*old(d), status, now, *final(d)),
        related_reloaded(*old(e), *final(e)),
{
}

} // verus!
