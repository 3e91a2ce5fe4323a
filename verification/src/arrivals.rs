//! What the screens hold after news of the backend arrived.

use vstd::prelude::*;
use vstd::view::View as _;

use crate::app::App;
use crate::domain::{
    ident, opt_ident, HistoryEntry, LyricSheet, PlaylistRow, SearchOutcome, Source,
    ThumbnailState, Track, TrackListeningStats,
};
use crate::event::{BackendCommand, BackendEvent};
use crate::inbox::{
    event_step, failure_shown, like_shown, playlist_filled, playlists_shown, recovery_shown,
    related_shown, results_shown, sample_shown, snapshot_shown, start_shown,
};
use crate::input::{key_step, SettingsEdit};
use crate::keys::KeyCode;
use crate::laws::plain;
use crate::playback::{PlaybackStatus, QueueItemOrigin};
use crate::shortcuts::{cover_awaited, law_enter_plays_the_selected_result, song_sent_off};
use crate::text::{
    decimal_text, is_white, law_texts_mention_their_parts, law_trim_leaves_no_white_ends,
    mentions, opt_text, signed_text,
};

verus! {

/// The results of a search are shown as they came, in their order, and the first
/// of them is selected. The query stays as it was typed.
pub proof fn law_results_are_shown_in_order(
    pre: App,
    query: String,
    outcome: Box<SearchOutcome>,
    now: u64,
    post: App,
)
    requires
        event_step(pre, BackendEvent::SearchResults { query, outcome }, now, post),
    ensures
        post.search.results@.len() == outcome.items@.len(),
        forall|i: int|
            0 <= i < outcome.items@.len() ==> #[trigger] post.search.results@[i]
                == outcome.items@[i],
        post.search.related_from == outcome.related_from,
        outcome.items@.len() > 0 ==> post.search.list_state.selected == Some(0usize),
        !post.search.searching,
        post.search.input == pre.search.input,
        post.search.cursor == pre.search.cursor,
        post.search.editing == pre.search.editing,
        post.outbox == pre.outbox,
        post.now_playing == pre.now_playing,
        post.related == pre.related,
        post.view == pre.view,
{
    reveal(results_shown);
}

/// Enter right after the results of a search came, outside the text field, plays
/// the first of them.
pub proof fn law_first_result_is_played(
    pre: App,
    query: String,
    outcome: Box<SearchOutcome>,
    then: u64,
    mid: App,
    now: u64,
    post: App,
    edit: Option<SettingsEdit>,
)
    requires
        event_step(pre, BackendEvent::SearchResults { query, outcome }, then, mid),
        key_step(mid, plain(KeyCode::Enter), now, post, edit),
        pre.view is Search,
        !pre.search.editing,
        !pre.show_help,
        outcome.items@.len() > 0,
    ensures
        post.outbox@.last() == BackendCommand::Play(Box::new(outcome.items@[0])),
        song_sent_off(mid, outcome.items@[0], post),
{
    reveal(results_shown);
    law_enter_plays_the_selected_result(mid, now, post, edit, 0);
    assert(post.outbox@.skip(mid.outbox@.len() as int).last() == post.outbox@.last());
}

/// Listings replace what their screens showed, and touch nothing else.
pub proof fn law_listings_replace_what_was_shown(
    pre: App,
    entries: Vec<HistoryEntry>,
    stats: Vec<TrackListeningStats>,
    sources: Vec<Source>,
    now: u64,
    a: App,
    b: App,
    c: App,
)
    requires
        event_step(pre, BackendEvent::History(entries), now, a),
        event_step(pre, BackendEvent::ListeningStats(stats), now, b),
        event_step(pre, BackendEvent::Sources(sources), now, c),
    ensures
        a.history@ == entries@,
        a == (App { history: a.history, ..pre }),
        b.listening_stats@ == stats@,
        b == (App { listening_stats: b.listening_stats, ..pre }),
        c.sources@ == sources@,
        c == (App { sources: c.sources, ..pre }),
{
}

/// Two songs that differ at most in their duration.
pub open spec fn same_but_duration(a: Track, b: Track) -> bool {
    a == (Track { duration: a.duration, ..b })
}

/// News of the song on the screen, or of the one that is awaited, is shown as it
/// is: state, position and duration. The song learns its duration from it if it
/// did not know it, and is the one on the screen.
pub proof fn law_samples_are_shown(
    pre: App,
    status: PlaybackStatus,
    now: u64,
    post: App,
    t: Track,
)
    requires
        event_step(pre, BackendEvent::Playback(status), now, post),
        status.track == Some(t),
        opt_ident(pre.now_playing) == Some(ident(t)) || opt_text(pre.pending_track) == Some(
            ident(t),
        ),
    ensures
        post.playback.state == status.state,
        post.playback.position == status.position,
        post.playback.duration == status.duration,
        post.playback.stalled == status.stalled,
        post.playback.track == post.now_playing,
        post.now_playing is Some,
        same_but_duration(post.now_playing->0, t),
        t.duration is Some ==> post.now_playing->0.duration == t.duration,
        t.duration is None ==> post.now_playing->0.duration == status.duration,
        opt_text(pre.pending_track) == Some(ident(t)) ==> post.pending_track is None,
        opt_text(post.clock.track_key) == Some(ident(t)),
        post.clock.anchor == Some(now),
        post.clock.position == status.position || (opt_text(pre.clock.track_key) == Some(ident(t))
            && pre.clock.pending_seek is None && post.clock.position == pre.clock.position
            && status.position < pre.clock.position
            && pre.clock.position - status.position < 500_000_000),
        post.related.tracks == pre.related.tracks,
        post.view == pre.view,
{
    reveal(sample_shown);
    reveal(snapshot_shown);
}

/// When a song starts that nothing else is awaited instead of, it is on the
/// screen, the history is asked for, and the statistics are the new ones. If it
/// is another song than before, its recommendations are asked for under the
/// generation that is awaited then, the lyrics of the last one go, and the
/// selection of the queue moves to its first place there. The queue stays.
pub proof fn law_starts_are_shown(
    pre: App,
    status: PlaybackStatus,
    stats: Vec<TrackListeningStats>,
    now: u64,
    post: App,
    t: Track,
)
    requires
        event_step(pre, BackendEvent::PlaybackStarted { status, stats }, now, post),
        status.track == Some(t),
        pre.pending_track is None || opt_text(pre.pending_track) == Some(ident(t)),
    ensures
        post.playback.state == status.state,
        post.playback.position == status.position,
        post.playback.duration == status.duration,
        post.now_playing is Some,
        same_but_duration(post.now_playing->0, t),
        t.duration is None ==> post.now_playing->0.duration == status.duration,
        post.pending_track is None,
        post.listening_stats@ == stats@,
        post.clock.position == status.position,
        post.clock.pending_seek is None,
        post.outbox@.len() > pre.outbox@.len(),
        post.outbox@.take(pre.outbox@.len() as int) == pre.outbox@,
        post.outbox@[pre.outbox@.len() as int] is LoadHistory,
        opt_ident(pre.now_playing) != Some(ident(t)) ==> {
            &&& post.outbox@.last() is LoadRelated
            &&& *post.outbox@.last()->LoadRelated_0 == post.now_playing->0
            &&& post.outbox@.last()->LoadRelated_1 == post.recs.generation
            &&& post.recs.loading is Some
            &&& post.recs.loading->0.track@ == ident(t)
            &&& post.recs.loading->0.generation == post.recs.generation
            &&& pre.recs.generation < u64::MAX ==> post.recs.generation == pre.recs.generation + 1
            &&& post.related.synced is None
            &&& !post.related.synced_unavailable
        },
        opt_ident(pre.now_playing) == Some(ident(t)) ==> post.related.list_state
            == pre.related.list_state,
        opt_ident(pre.now_playing) == Some(ident(t)) && opt_text(pre.recs.loaded) == Some(ident(t))
            && pre.thumbnails@.dom().contains(ident(t)) ==> post.outbox@.len() == pre.outbox@.len()
            + 1 && post.recs == pre.recs,
        cover_awaited(pre, ident(t), post),
        post.related.tracks == pre.related.tracks,
        post.related.origins == pre.related.origins,
        post.view == pre.view,
        post.search == pre.search,
{
    reveal(start_shown);
    reveal(snapshot_shown);
    let s = crate::playback::with_known_duration(status);
    assert(ident(s.track->0) == ident(t));
    let asked = crate::app::adoption_commands(pre, s.track->0);
    let n = pre.outbox@.len() as int;
    assert(post.outbox@ =~= pre.outbox@ + seq![BackendCommand::LoadHistory] + asked);
    assert(post.outbox@.take(n) =~= pre.outbox@);
    assert(post.outbox@[n] == BackendCommand::LoadHistory);
    if opt_ident(pre.now_playing) != Some(ident(t)) {
        assert(asked.len() > 0);
        assert(post.outbox@.last() == asked.last());
    }
}

/// A renewed stream starts its song again on the screen and asks for nothing
/// that is known.
pub proof fn law_recoveries_are_shown(
    pre: App,
    status: PlaybackStatus,
    now: u64,
    post: App,
    t: Track,
)
    requires
        event_step(pre, BackendEvent::RecoveryResumed(status), now, post),
        status.track == Some(t),
        pre.pending_track is None || opt_text(pre.pending_track) == Some(ident(t)),
        opt_ident(pre.now_playing) == Some(ident(t)),
        opt_text(pre.recs.loaded) == Some(ident(t)),
        pre.thumbnails@.dom().contains(ident(t)),
    ensures
        post.playback.state == status.state,
        post.playback.position == status.position,
        post.clock.position == status.position,
        post.outbox@ == pre.outbox@,
        post.recs == pre.recs,
        post.related.tracks == pre.related.tracks,
        post.related.list_state == pre.related.list_state,
        post.listening_stats == pre.listening_stats,
{
    reveal(recovery_shown);
    reveal(snapshot_shown);
    assert(post.outbox@ =~= pre.outbox@);
}

/// An awaited answer fills the queue as it came, with who added each song, and
/// keeps the recommendations of the song apart. A song of the queue is marked as
/// new exactly if none with its identifier was there before. The selection stays
/// where it was, or goes to the first song if there was none, or to the last one
/// if it lay behind it. Its lyrics are shown if there is a line in them and a
/// character that is not blank; else it is known that there are none.
pub proof fn law_answers_fill_the_queue(
    pre: App,
    track: Box<Track>,
    related: Vec<Track>,
    queue: Vec<Track>,
    origins: Vec<QueueItemOrigin>,
    synced: Option<LyricSheet>,
    generation: u64,
    now: u64,
    post: App,
)
    requires
        event_step(
            pre,
            BackendEvent::Related { track, related, queue, origins, synced, generation },
            now,
            post,
        ),
        pre.recs.loading is Some,
        pre.recs.loading->0.track@ == ident(*track),
        pre.recs.loading->0.generation == generation,
    ensures
        post.related.tracks@ == queue@,
        post.related.origins@ == origins@,
        post.related.fresh@ == related@,
        forall|i: int|
            0 <= i < queue@.len() ==> (post.related.new_ids@.contains(ident(#[trigger] queue@[i]))
                <==> forall|j: int|
                0 <= j < pre.related.tracks@.len() ==> ident(#[trigger] pre.related.tracks@[j])
                    != ident(queue@[i])),
        ({
            let was = pre.related.list_state.selected;
            let is = post.related.list_state.selected;
            &&& was is Some && was->0 < queue@.len() ==> is == was
            &&& was is None || queue@.len() == 0 ==> is == Some(0usize)
            &&& was is Some && was->0 >= queue@.len() > 0 ==> is is Some && is->0 == queue@.len()
                - 1
        }),
        ({
            let usable = synced is Some && synced->0.lyrics.lines@.len() > 0 && exists|k: int|
                0 <= k < synced->0.text@.len() && !is_white(#[trigger] synced->0.text@[k]);
            &&& usable ==> post.related.synced == Some(synced->0.lyrics)
                && !post.related.synced_unavailable
            &&& !usable ==> post.related.synced is None && post.related.synced_unavailable
        }),
        post.related.scroll.lines@.len() == 0,
        opt_text(post.recs.loaded) == Some(ident(*track)),
        post.recs.loading is None,
        post.recs.generation == pre.recs.generation,
        post.now_playing == pre.now_playing,
        post.playback == pre.playback,
        post.outbox == pre.outbox,
{
    reveal(related_shown);
    if synced is Some {
        law_trim_leaves_no_white_ends(synced->0.text@);
    }
    assert forall|i: int| 0 <= i < queue@.len() implies (post.related.new_ids@.contains(
        ident(#[trigger] queue@[i]),
    ) <==> forall|j: int|
        0 <= j < pre.related.tracks@.len() ==> ident(#[trigger] pre.related.tracks@[j]) != ident(
            queue@[i],
        )) by {
        assert(0 <= i < queue@.len() && ident(queue@[i]) == ident(queue@[i]));
    }
}

/// A changed queue is shown as it came, with the same marks; lyrics and selection
/// stay.
pub proof fn law_queues_are_shown(
    pre: App,
    queue: Vec<Track>,
    origins: Vec<QueueItemOrigin>,
    now: u64,
    post: App,
)
    requires
        event_step(pre, BackendEvent::Queue { queue, origins }, now, post),
    ensures
        post.related.tracks@ == queue@,
        post.related.origins@ == origins@,
        forall|i: int|
            0 <= i < queue@.len() ==> (post.related.new_ids@.contains(ident(#[trigger] queue@[i]))
                <==> forall|j: int|
                0 <= j < pre.related.tracks@.len() ==> ident(#[trigger] pre.related.tracks@[j])
                    != ident(queue@[i])),
        post.related.list_state == pre.related.list_state,
        post.related.synced == pre.related.synced,
        post.related.fresh == pre.related.fresh,
        post.outbox == pre.outbox,
        post.playback == pre.playback,
{
    assert forall|i: int| 0 <= i < queue@.len() implies (post.related.new_ids@.contains(
        ident(#[trigger] queue@[i]),
    ) <==> forall|j: int|
        0 <= j < pre.related.tracks@.len() ==> ident(#[trigger] pre.related.tracks@[j]) != ident(
            queue@[i],
        )) by {
        assert(0 <= i < queue@.len() && ident(queue@[i]) == ident(queue@[i]));
    }
}

/// The songs of the open playlist are shown as they came, the first of them
/// selected; those of another playlist change nothing.
pub proof fn law_playlist_songs_are_shown(
    pre: App,
    playlist_id: i64,
    tracks: Vec<Track>,
    now: u64,
    post: App,
)
    requires
        event_step(pre, BackendEvent::PlaylistTracks { playlist_id, tracks }, now, post),
    ensures
        ({
            let open = pre.playlist_view.detail is Some && pre.playlist_view.detail->0.id
                == playlist_id;
            &&& !open ==> post == pre
            &&& open ==> {
                let d = post.playlist_view.detail->0;
                &&& post.playlist_view.detail is Some
                &&& d.id == playlist_id
                &&& d.name == pre.playlist_view.detail->0.name
                &&& d.tracks.tracks@ == tracks@
                &&& d.tracks.origins@.len() == tracks@.len()
                &&& forall|i: int|
                    0 <= i < tracks@.len() ==> #[trigger] d.tracks.origins@[i] is Playlist
                &&& tracks@.len() > 0 ==> d.tracks.list_state.selected == Some(0usize)
                &&& post.related == pre.related
                &&& post.outbox == pre.outbox
                &&& post.playlists == pre.playlists
            }
        }),
{
    reveal(playlist_filled);
}

/// The listing of playlists is shown as it came; a selection that lies behind
/// its end moves to the last row, any other one stays.
pub proof fn law_playlists_are_shown(
    pre: App,
    rows: Vec<PlaylistRow>,
    now: u64,
    post: App,
)
    requires
        event_step(pre, BackendEvent::Playlists(rows), now, post),
    ensures
        post.playlists@ == rows@,
        ({
            let was = pre.playlist_view.listing.selected;
            let is = post.playlist_view.listing.selected;
            &&& was is None ==> is is None
            &&& was is Some && was->0 < rows@.len() ==> is == was
            &&& was is Some && was->0 >= rows@.len() > 0 ==> is is Some && is->0 == rows@.len() - 1
        }),
        post.playlist_view.detail == pre.playlist_view.detail,
        post.playlist_view.draft == pre.playlist_view.draft,
        post.outbox == pre.outbox,
{
    reveal(playlists_shown);
}

/// After a song was marked as liked it is liked, after the mark was taken away it
/// is not, and the marks of songs with another identifier and another number are
/// as before.
pub proof fn law_marks_are_shown(
    pre: App,
    track: Box<Track>,
    liked: bool,
    now: u64,
    post: App,
    other: Track,
)
    requires
        event_step(pre, BackendEvent::L1K3DChanged { track, liked }, now, post),
        ident(other) != ident(*track),
        other.id != track.id,
    ensures
        post.liked.has(*track) == liked,
        post.liked.has(other) == pre.liked.has(other),
        liked && track.id > 0 ==> post.liked.ids@.contains(track.id),
        post.outbox == pre.outbox,
        post.now_playing == pre.now_playing,
{
    reveal(like_shown);
}

/// After all liked songs came, exactly they are liked.
pub proof fn law_all_marks_are_shown(pre: App, tracks: Vec<Track>, now: u64, post: App, t: Track)
    requires
        event_step(pre, BackendEvent::L1K3D(tracks), now, post),
    ensures
        post.liked.has(t) <==> exists|i: int|
            0 <= i < tracks@.len() && (ident(#[trigger] tracks@[i]) == ident(t) || (t.id > 0
                && tracks@[i].id == t.id)),
        post == (App { liked: post.liked, ..pre }),
{
    crate::liked::law_replaced_state_is_exact(tracks@, t);
}

/// A cover is kept under the identifier it came with; the others stay.
pub proof fn law_covers_are_kept(
    pre: App,
    key: String,
    state: ThumbnailState,
    now: u64,
    post: App,
    other: Seq<char>,
)
    requires
        event_step(pre, BackendEvent::Thumbnail { key, state }, now, post),
        other != key@,
    ensures
        post.thumbnails@.dom().contains(key@),
        post.thumbnails@[key@] == state,
        post.thumbnails@.dom().contains(other) == pre.thumbnails@.dom().contains(other),
        post.thumbnails@.dom().contains(other) ==> post.thumbnails@[other] == pre.thumbnails@[other],
        post == (App { thumbnails: post.thumbnails, ..pre }),
{
}

/// A message is what the status line says. A failure is told there at the end of
/// the line, and nothing is being searched or loaded any more; a failed song too,
/// and it is not awaited any more.
pub proof fn law_messages_and_failures_are_told(
    pre: App,
    text: String,
    now: u64,
    told: App,
    failed: App,
    unplayed: App,
)
    requires
        event_step(pre, BackendEvent::Message(text), now, told),
        event_step(pre, BackendEvent::Error(text), now, failed),
        event_step(pre, BackendEvent::PlaybackError(text), now, unplayed),
    ensures
        opt_text(told.status) == Some(text@),
        told == (App { status: told.status, ..pre }),
        failed.status is Some,
        ends_with(failed.status->0@, text@),
        !failed.search.searching,
        failed.recs.loading is None,
        failed.recs.loaded == pre.recs.loaded,
        failed.search.results == pre.search.results,
        failed.playback == pre.playback,
        failed.outbox == pre.outbox,
        unplayed.status is Some,
        ends_with(unplayed.status->0@, text@),
        unplayed.pending_track is None,
        unplayed.outbox == pre.outbox,
        pre.pending_track is None ==> unplayed.playback == pre.playback && unplayed.clock
            == pre.clock,
{
    reveal(failure_shown);
    let a = "Error: "@;
    let b = "Reproducción: "@;
    assert((a + text@).skip((a + text@).len() - text@.len()) =~= text@);
    assert((b + text@).skip((b + text@).len() - text@.len()) =~= text@);
}

/// `s` ends with `t`.
pub open spec fn ends_with(s: Seq<char>, t: Seq<char>) -> bool {
    t.len() <= s.len() && s.skip(s.len() - t.len()) == t
}

/// The start of a jump shows as such, and a fresh analysis of the audio counts
/// from the moment it came.
pub proof fn law_small_news(pre: App, now: u64, seeking: App, frame: App)
    requires
        event_step(pre, BackendEvent::SeekStarted, now, seeking),
        event_step(pre, BackendEvent::VisualFrame, now, frame),
    ensures
        seeking.playback.state is Seeking,
        seeking.playback.position == pre.playback.position,
        seeking.playback.track == pre.playback.track,
        seeking.clock == pre.clock,
        frame.features_at == Some(now),
        frame == (App { features_at: frame.features_at, ..pre }),
{
}

/// The audio counts as analysed for nine tenths of a second after an analysis.
pub proof fn law_analyses_grow_stale(a: App, at: u64, now: u64, fresh: bool)
    requires
        a.features_at == Some(at),
        at <= now,
        call_ensures(App::features_fresh, (&a, now), fresh),
    ensures
        fresh <==> now - at < 900_000_000,
{
}

/// Something moves on the screen unless the engine is paused or stopped.
pub proof fn law_animation_follows_the_engine(a: App, moves: bool)
    requires
        call_ensures(App::animation_active, (&a,), moves),
    ensures
        moves <==> !(a.playback.state is Paused) && !(a.playback.state is Stopped),
{
}

/// The status line names what arrived: how many results, or how many failures if
/// there is none; the song that was saved, with its number; how many songs are in
/// the queue; the song that was marked.
pub proof fn law_status_names_what_arrived(
    pre: App,
    event: BackendEvent,
    now: u64,
    post: App,
)
    requires
        event_step(pre, event, now, post),
        crate::inbox::event_ok(pre, event),
    ensures
        event matches BackendEvent::SearchResults { query, outcome } ==> post.status is Some && {
            let text = post.status->0@;
            let n = outcome.items@.len();
            &&& n == 0 ==> mentions(text, decimal_text(outcome.errors@.len()))
            &&& n > 0 && outcome.related_from == 0 ==> decimal_text(n).is_prefix_of(text)
            &&& n > 0 && outcome.related_from > 0 ==> decimal_text(
                outcome.related_from as nat,
            ).is_prefix_of(text) && mentions(
                text,
                decimal_text((n - outcome.related_from) as nat),
            )
        },
        event matches BackendEvent::TrackSaved { track, internal_id } ==> post.status is Some
            && mentions(post.status->0@, track.title@) && mentions(
            post.status->0@,
            signed_text(internal_id as int),
        ),
        event matches BackendEvent::L1K3DChanged { track, liked } ==> post.status is Some
            && mentions(post.status->0@, track.title@),
        event matches BackendEvent::Related { track, related, queue, origins, synced, generation }
            ==> (pre.recs.loading is Some && pre.recs.loading->0.track@ == ident(*track)
            && pre.recs.loading->0.generation == generation ==> post.status is Some
            && decimal_text(queue@.len()).is_prefix_of(post.status->0@) && (queue@.len()
            > pre.related.tracks@.len() ==> mentions(
            post.status->0@,
            decimal_text((queue@.len() - pre.related.tracks@.len()) as nat),
        ))),
        event is Settings ==> post.settings_ready && post == (App {
            settings_ready: true,
            status: post.status,
            ..pre
        }),
{
    reveal(results_shown);
    reveal(like_shown);
    reveal(related_shown);
    match event {
        BackendEvent::SearchResults { query, outcome } => {
            let n = outcome.items@.len();
            if n == 0 {
                law_texts_mention_their_parts(
                    "Sin resultados ("@,
                    decimal_text(outcome.errors@.len()),
                    " error(es). ¿Red sobre YouTube?"@,
                );
            } else if outcome.related_from > 0 {
                law_texts_mention_their_parts(
                    decimal_text(outcome.related_from as nat) + " resultado(s) + "@,
                    decimal_text((n - outcome.related_from) as nat),
                    " relacionadas. Enter guarda el seleccionado."@,
                );
            }
        },
        BackendEvent::TrackSaved { track, internal_id } => {
            let rest = "» en BD (track_id="@ + signed_text(internal_id as int) + ")."@;
            let text = post.status->0@;
            assert(text =~= "Guardado «"@ + track.title@ + rest);
            law_texts_mention_their_parts("Guardado «"@, track.title@, rest);
            law_texts_mention_their_parts(
                "Guardado «"@ + track.title@ + "» en BD (track_id="@,
                signed_text(internal_id as int),
                ")."@,
            );
        },
        BackendEvent::L1K3DChanged { track, liked } => {
            let heart = crate::glyphs::glyph(pre.glyphs.theme, "♥"@, "*"@);
            law_texts_mention_their_parts(heart + " «"@, track.title@, "» añadida a L1K3D."@);
            law_texts_mention_their_parts("Quitada de L1K3D: «"@, track.title@, "»."@);
        },
        BackendEvent::Related { track, related, queue, origins, synced, generation } => {
            let (n, added) = (queue@.len(), queue@.len() - pre.related.tracks@.len());
            law_texts_mention_their_parts(
                decimal_text(n) + " en cola (+"@,
                decimal_text(added as nat),
                " nuevas). ↑/↓ selecciona, Enter reproduce, r actualiza, R reemplaza."@,
            );
        },
        _ => {},
    }
}

/// Trouble with the stream is shown for eight seconds from now on.
pub proof fn law_stream_trouble_is_shown(pre: App, err: String, now: u64, post: App) -> (k: int)
    requires
        event_step(pre, BackendEvent::StreamError(err), now, post),
        now <= u64::MAX - 8_000_000_000,
    ensures
        0 <= k < post.notices@.len(),
        post.notices@[k] == (err@, (now + 8_000_000_000) as u64),
{
    crate::notices::law_notices_expire(pre.notices@, err@, now, now);
    let k = crate::notices::reported_index(pre.notices@, err@, now);
    crate::notices::law_reports_are_in_the_list(pre.notices@, err@, now);
    k
}

/// On the screen that shows what plays, news of the song is told in the status
/// line by its title, unless its recommendations are on their way.
pub proof fn law_news_are_told(pre: App, status: PlaybackStatus, now: u64, post: App, t: Track)
    requires
        event_step(pre, BackendEvent::Playback(status), now, post),
        status.track == Some(t),
        opt_ident(pre.now_playing) == Some(ident(t)),
        opt_text(pre.recs.loaded) == Some(ident(t)),
        pre.recs.loading is None,
    ensures
        pre.view is NowPlaying ==> post.status is Some && mentions(post.status->0@, t.title@),
        !(pre.view is NowPlaying) ==> post.status == pre.status,
{
    reveal(sample_shown);
    reveal(snapshot_shown);
    let s = crate::playback::with_known_duration(status);
    assert(ident(s.track->0) == ident(t));
    if pre.view is NowPlaying {
        let line = crate::app::playback_text(s, pre.glyphs, pre.frame);
        let name = crate::domain::display_text(s.track->0);
        let (state, spin) = (
            crate::app::state_text(s.state, pre.glyphs, pre.frame),
            seq![crate::glyphs::spinner_glyph(pre.glyphs.theme, pre.frame)],
        );
        let head = if s.stalled {
            "["@ + state + " "@ + spin + " stream lento · rellenando…] "@
        } else {
            "["@ + state + "] "@
        };
        assert(line =~= head + name);
        let before = if t.artists@.len() > 0 {
            head + t.artists@[0]@ + " - "@
        } else {
            head
        };
        assert(line =~= before + t.title@);
        law_texts_mention_their_parts(before, t.title@, Seq::empty());
    }
}

/// A paused song stays paused when a jump is confirmed; any other plays.
pub proof fn law_jumps_keep_the_pause(pre: App, now: u64, post: App)
    requires
        event_step(pre, BackendEvent::SeekCompleted, now, post),
    ensures
        pre.playback.state is Paused ==> post.playback.state is Paused,
        !(pre.playback.state is Paused) ==> post.playback.state is Playing,
        post.playback.track == pre.playback.track,
        pre.clock.pending_seek is None ==> post.clock == pre.clock,
        pre.clock.pending_seek is Some ==> post.clock.anchor == Some(now),
{
    reveal(crate::inbox::seek_confirmed);
}

/// Every piece of news changes its own part of the interface and nothing else.
pub proof fn law_news_change_their_own_part(pre: App, event: BackendEvent, now: u64, post: App)
    requires
        event_step(pre, event, now, post),
    ensures
        event is SearchResults ==> post == (App { search: post.search, status: post.status, ..pre }),
        event is TrackSaved || event is Message ==> post == (App { status: post.status, ..pre }),
        event is Playback || event is RecoveryResumed ==> post == (App {
            listening_stats: pre.listening_stats,
            ..with_song_of(pre, post)
        }),
        event is PlaybackStarted ==> post == with_song_of(pre, post),
        event is PlaybackError ==> post == (App {
            pending_track: None,
            playback: post.playback,
            clock: post.clock,
            status: post.status,
            ..pre
        }),
        event is SeekStarted || event is SeekCompleted ==> post == (App {
            playback: post.playback,
            clock: post.clock,
            ..pre
        }),
        event is SeekFailed ==> post == (App { clock: post.clock, status: post.status, ..pre }),
        event is Related ==> post == (App {
            recs: post.recs,
            related: post.related,
            status: post.status,
            ..pre
        }),
        event is Playlists ==> post == (App {
            playlists: post.playlists,
            playlist_view: crate::playlists::PlaylistState {
                listing: post.playlist_view.listing,
                ..pre.playlist_view
            },
            ..pre
        }),
        event is PlaylistTracks ==> post == (App {
            playlist_view: crate::playlists::PlaylistState {
                detail: post.playlist_view.detail,
                ..pre.playlist_view
            },
            ..pre
        }),
        event is L1K3DChanged ==> post == (App { liked: post.liked, status: post.status, ..pre }),
        event is Queue ==> post == (App { related: post.related, ..pre }),
        event is QueueState ==> post == (App { shuffle: post.shuffle, repeat: post.repeat, ..pre }),
        event is Error ==> post == (App {
            search: crate::search::SearchState { searching: false, ..pre.search },
            recs: post.recs,
            status: post.status,
            ..pre
        }),
{
    reveal(results_shown);
    reveal(sample_shown);
    reveal(start_shown);
    reveal(recovery_shown);
    reveal(failure_shown);
    reveal(crate::inbox::seek_confirmed);
    reveal(related_shown);
    reveal(playlists_shown);
    reveal(playlist_filled);
    reveal(like_shown);
}

/// `pre` with what belongs to the song that plays taken from `post`.
pub open spec fn with_song_of(pre: App, post: App) -> App {
    App {
        pending_track: post.pending_track,
        now_playing: post.now_playing,
        thumbnails: post.thumbnails,
        recs: post.recs,
        related: post.related,
        status: post.status,
        outbox: post.outbox,
        clock: post.clock,
        playback: post.playback,
        listening_stats: post.listening_stats,
        ..pre
    }
}

} // verus!
