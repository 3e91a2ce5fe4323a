//! What the keys do, from the key press to the command that goes out.

use vstd::prelude::*;
use vstd::view::View as _;

use crate::app::App;
use crate::domain::{ident, opt_ident, PlaylistKind, Track};
use crate::event::BackendCommand;
use crate::input::{action_step, key_step, playlists_handled, SettingsEdit};
use crate::keys::{KeyCode, KeyEvent, KeyModifiers};
use crate::laws::plain;
use crate::playlists::PlaylistAction;
use crate::text::{
    is_white, law_texts_mention_their_parts, law_trim_cuts_only_white,
    law_trim_leaves_no_white_ends, mentions, opt_text,
};
use crate::view::View;

verus! {

/// The screens where no key is text: all but Search, Settings and Playlists.
pub open spec fn takes_no_text(v: View) -> bool {
    v is NowPlaying || v is Related || v is Sources || v is Metadata || v is History
}

/// The space bar asks for a pause or for going on, `D` for the next song, `A` for
/// the one before; `q` leaves. None of them does anything else.
pub proof fn law_transport_keys(
    pre: App,
    code: KeyCode,
    now: u64,
    post: App,
    edit: Option<SettingsEdit>,
)
    requires
        key_step(pre, plain(code), now, post, edit),
        !pre.show_help,
        takes_no_text(pre.view),
    ensures
        code == KeyCode::Char(' ') ==> post == (App { outbox: post.outbox, ..pre })
            && post.outbox@ == pre.outbox@ + seq![BackendCommand::Toggle],
        code == KeyCode::Char('D') ==> post == (App { outbox: post.outbox, ..pre })
            && post.outbox@ == pre.outbox@ + seq![BackendCommand::NextTrack],
        code == KeyCode::Char('A') ==> post == (App { outbox: post.outbox, ..pre })
            && post.outbox@ == pre.outbox@ + seq![BackendCommand::PrevTrack],
        code == KeyCode::Char('q') ==> post.should_quit && post == (App {
            should_quit: true,
            ..pre
        }),
{
    assert(pre.outbox@.push(BackendCommand::Toggle) =~= pre.outbox@ + seq![BackendCommand::Toggle]);
    assert(pre.outbox@.push(BackendCommand::NextTrack) =~= pre.outbox@
        + seq![BackendCommand::NextTrack]);
    assert(pre.outbox@.push(BackendCommand::PrevTrack) =~= pre.outbox@
        + seq![BackendCommand::PrevTrack]);
}

/// Shift and a small letter is the same key as the capital letter, and so is Shift
/// and the capital letter.
pub proof fn law_shift_and_letter_is_the_capital(
    pre: App,
    c: char,
    capital: char,
    control: bool,
    now: u64,
    post: App,
    edit: Option<SettingsEdit>,
)
    requires
        'a' <= c <= 'z',
        capital as int == c as int - ('a' as int - 'A' as int),
    ensures
        key_step(
            pre,
            (KeyEvent { code: KeyCode::Char(c), modifiers: KeyModifiers { shift: true, control } }),
            now,
            post,
            edit,
        ) <==> key_step(
            pre,
            (KeyEvent {
                code: KeyCode::Char(capital),
                modifiers: KeyModifiers { shift: true, control },
            }),
            now,
            post,
            edit,
        ),
        key_step(
            pre,
            (KeyEvent { code: KeyCode::Char(c), modifiers: KeyModifiers { shift: true, control } }),
            now,
            post,
            edit,
        ) <==> key_step(
            pre,
            (KeyEvent {
                code: KeyCode::Char(capital),
                modifiers: KeyModifiers { shift: false, control },
            }),
            now,
            post,
            edit,
        ),
{
    assert(crate::keys::ascii_upper(c) == capital);
}

/// `a` switches autoplay over, `f` shuffling, `t` goes from no repeating to
/// repeating all, to repeating one, and round; the backend is told the new mode,
/// and no other mode changes.
pub proof fn law_mode_keys(
    pre: App,
    code: KeyCode,
    now: u64,
    post: App,
    edit: Option<SettingsEdit>,
)
    requires
        key_step(pre, plain(code), now, post, edit),
        !pre.show_help,
        takes_no_text(pre.view),
        code == KeyCode::Char('a') || code == KeyCode::Char('f') || code == KeyCode::Char('t')
            || code == KeyCode::Char('v'),
    ensures
        post.playback == pre.playback,
        post.related == pre.related,
        post.view == pre.view,
        post.autoplay == if code == KeyCode::Char('a') {
            !pre.autoplay
        } else {
            pre.autoplay
        },
        post.shuffle == if code == KeyCode::Char('f') {
            !pre.shuffle
        } else {
            pre.shuffle
        },
        code != KeyCode::Char('t') ==> post.repeat == pre.repeat,
        code == KeyCode::Char('t') ==> {
            &&& pre.repeat is Off ==> post.repeat is All
            &&& pre.repeat is All ==> post.repeat is One
            &&& pre.repeat is One ==> post.repeat is Off
        },
        code != KeyCode::Char('v') ==> post.visual_mode == pre.visual_mode,
        code == KeyCode::Char('v') ==> {
            &&& pre.visual_mode is Auto ==> post.visual_mode is Lyrics
            &&& pre.visual_mode is Lyrics ==> post.visual_mode is Visual
            &&& pre.visual_mode is Visual ==> post.visual_mode is Auto
            &&& post.outbox == pre.outbox
        },
        code != KeyCode::Char('v') ==> post.outbox@ == pre.outbox@ + seq![
            if code == KeyCode::Char('a') {
                BackendCommand::SetAutoplay(post.autoplay)
            } else if code == KeyCode::Char('f') {
                BackendCommand::SetShuffle(post.shuffle)
            } else {
                BackendCommand::SetRepeat(post.repeat)
            },
        ],
{
    if code != KeyCode::Char('v') {
        assert(pre.outbox@.push(post.outbox@.last()) =~= pre.outbox@ + seq![post.outbox@.last()]);
    }
}

/// The left arrow goes back ten seconds and the right arrow forward: the jump is
/// to exactly there from the position that the clock reads if that is in the
/// song, else to its start or its end. It is sent with the whole second and the
/// song it is meant for, and nothing moves before it is confirmed.
pub proof fn law_arrows_jump_ten_seconds(
    pre: App,
    code: KeyCode,
    now: u64,
    post: App,
    edit: Option<SettingsEdit>,
)
    requires
        key_step(pre, plain(code), now, post, edit),
        !pre.show_help,
        takes_no_text(pre.view),
        code == KeyCode::Left || code == KeyCode::Right,
        pre.now_playing is Some,
    ensures
        ({
            let wish: int = pre.reading(now) + (if code == KeyCode::Left {
                -10_000_000_000int
            } else {
                10_000_000_000int
            });
            let end = if pre.playback.duration is Some {
                pre.playback.duration->0
            } else {
                u64::MAX
            };
            let target: int = if wish < 0 {
                0
            } else if wish > end {
                end as int
            } else {
                wish
            };
            &&& post.clock.pending_seek == Some(target as u64)
            &&& post.clock.position == pre.clock.position
            &&& post.clock.anchor == pre.clock.anchor
            &&& post.playback == pre.playback
            &&& post.now_playing == pre.now_playing
            &&& post.outbox@.len() == pre.outbox@.len() + 1
            &&& post.outbox@.take(pre.outbox@.len() as int) == pre.outbox@
            &&& post.outbox@.last() matches BackendCommand::Seek(second, song) && second as int
                == target / 1_000_000_000 && song@ == ident(pre.now_playing->0)
        }),
{
    assert(post.outbox@.take(pre.outbox@.len() as int) =~= post.outbox@.drop_last());
}

/// While the song plays on and its stream keeps up, the position moves with the
/// time from the last sample on; else it stands still. It never passes the end.
pub proof fn law_position_moves_with_the_time(a: App, at: u64, now: u64)
    requires
        a.clock.anchor == Some(at),
        at <= now,
        a.clock.position + (now - at) <= u64::MAX,
    ensures
        ({
            let runs = a.playback.state is Playing && !a.playback.stalled;
            let there: int = if runs {
                a.clock.position + (now - at)
            } else {
                a.clock.position as int
            };
            a.reading(now) == if a.playback.duration is Some && there > a.playback.duration->0 {
                a.playback.duration->0 as int
            } else {
                there
            }
        }),
{
}

/// Enter on the queue plays the selected song: it is sent to the backend last,
/// awaited, and on the screen without lyrics and position until it starts.
pub proof fn law_enter_plays_the_selected_song(
    pre: App,
    now: u64,
    post: App,
    edit: Option<SettingsEdit>,
    i: usize,
)
    requires
        key_step(pre, plain(KeyCode::Enter), now, post, edit),
        !pre.show_help,
        pre.view is NowPlaying || pre.view is Related,
        pre.related.list_state.selected == Some(i),
        i < pre.related.tracks@.len(),
    ensures
        song_sent_off(pre, pre.related.tracks@[i as int], post),
{
    law_sent_off(pre, pre.related.tracks@[i as int], post);
}

/// A song was asked for: the commands sent end with the order to play it. Before
/// that its cover is asked for unless that is known, and its recommendations if
/// it is another song; the queue stays, and its selection moves to the song if
/// it is another one and in the queue.
pub open spec fn song_sent_off(pre: App, t: Track, post: App) -> bool {
    let n = pre.outbox@.len() as int;
    let sent = post.outbox@.skip(n);
    &&& n < post.outbox@.len()
    &&& post.outbox@.take(n) == pre.outbox@
    &&& sent.last() == BackendCommand::Play(Box::new(t))
    &&& forall|k: int|
        0 <= k < sent.len() - 1 ==> {
            ||| #[trigger] sent[k] == BackendCommand::Thumbnail(Box::new(t))
            ||| sent[k] == BackendCommand::LoadRelated(Box::new(t), post.recs.generation)
        }
    &&& sent.contains(BackendCommand::Thumbnail(Box::new(t)))
        <==> !pre.thumbnails@.dom().contains(ident(t))
    &&& opt_ident(pre.now_playing) != Some(ident(t)) ==> sent.contains(
        BackendCommand::LoadRelated(Box::new(t), post.recs.generation),
    ) && post.recs.loaded is None && post.recs.loading is Some && post.recs.loading->0.track@
        == ident(t) && post.recs.loading->0.generation == post.recs.generation
    &&& cover_awaited(pre, ident(t), post)
    &&& post.now_playing == Some(t)
    &&& opt_text(post.pending_track) == Some(ident(t))
    &&& post.playback.state is Buffering
    &&& !post.playback.stalled
    &&& post.clock.position == 0
    &&& post.clock.track_key is None
    &&& post.clock.pending_seek is None
    &&& post.related.synced is None
    &&& !post.related.synced_unavailable
    &&& post.related.scroll.lines@.len() == 0
    &&& post.related.tracks == pre.related.tracks
    &&& post.related.origins == pre.related.origins
    &&& post.view == pre.view
    &&& post.search == pre.search
    &&& post.playlists == pre.playlists
    &&& opt_ident(pre.now_playing) != Some(ident(t)) ==> forall|k: int|
        0 <= k < pre.related.tracks@.len() && ident(#[trigger] pre.related.tracks@[k]) == ident(t) && (
        forall|j: int| 0 <= j < k ==> ident(#[trigger] pre.related.tracks@[j]) != ident(t))
            ==> post.related.list_state.selected == Some(k as usize)
    &&& opt_ident(pre.now_playing) == Some(ident(t)) ==> post.related.list_state
        == pre.related.list_state
}

/// The cover of a song is known or awaited, and those of the others are as before.
pub open spec fn cover_awaited(pre: App, key: Seq<char>, post: App) -> bool {
    &&& post.thumbnails@.dom().contains(key)
    &&& !pre.thumbnails@.dom().contains(key) ==> post.thumbnails@[key] is Loading
    &&& pre.thumbnails@.dom().contains(key) ==> post.thumbnails@[key] == pre.thumbnails@[key]
    &&& forall|k: Seq<char>|
        k != key ==> #[trigger] post.thumbnails@.dom().contains(k)
            == pre.thumbnails@.dom().contains(k)
    &&& forall|k: Seq<char>|
        k != key && pre.thumbnails@.dom().contains(k) ==> #[trigger] post.thumbnails@[k]
            == pre.thumbnails@[k]
}

/// Whoever asks for a song, it is sent off the same way.
pub proof fn law_sent_off(pre: App, t: Track, post: App)
    requires
        crate::app::song_requested(pre, t, post),
    ensures
        song_sent_off(pre, t, post),
{
    let n = pre.outbox@.len() as int;
    let sent = post.outbox@.skip(n);
    let asked = crate::app::adoption_commands(pre, t);
    assert(sent =~= asked.push(BackendCommand::Play(Box::new(t))));
    assert(post.outbox@.take(n) =~= pre.outbox@);
    assert(sent.last() == BackendCommand::Play(Box::new(t)));
    assert forall|k: int| 0 <= k < sent.len() - 1 implies {
        ||| #[trigger] sent[k] == BackendCommand::Thumbnail(Box::new(t))
        ||| sent[k] == BackendCommand::LoadRelated(Box::new(t), post.recs.generation)
    } by {
        assert(sent[k] == asked[k]);
    }
    if !pre.thumbnails@.dom().contains(ident(t)) {
        assert(sent[0] == BackendCommand::Thumbnail(Box::new(t)));
    } else {
        assert(forall|k: int| 0 <= k < asked.len() ==> !(#[trigger] asked[k] is Thumbnail));
        assert(forall|k: int| 0 <= k < sent.len() ==> !(#[trigger] sent[k] is Thumbnail));
    }
    if opt_ident(pre.now_playing) != Some(ident(t)) {
        assert(sent[asked.len() - 1] == BackendCommand::LoadRelated(
            Box::new(t),
            post.recs.generation,
        ));
        assert forall|k: int|
            0 <= k < pre.related.tracks@.len() && ident(#[trigger] pre.related.tracks@[k]) == ident(
                t,
            ) && (forall|j: int|
                0 <= j < k ==> ident(#[trigger] pre.related.tracks@[j]) != ident(t)) implies
            post.related.list_state.selected == Some(k as usize) by {
            lemma_first_position(pre.related.tracks@, ident(t), k);
        }
    }
}

proof fn lemma_first_position(v: Seq<Track>, key: Seq<char>, k: int)
    requires
        0 <= k < v.len(),
        ident(v[k]) == key,
        forall|j: int| 0 <= j < k ==> ident(#[trigger] v[j]) != key,
    ensures
        crate::domain::first_position(v, key) == Some(k),
{
    reveal(crate::domain::first_position);
    let p = crate::domain::first_position(v, key)->0;
    assert(0 <= k < v.len() && ident(v[k]) == key && (forall|j: int|
        0 <= j < k ==> ident(#[trigger] v[j]) != key));
    assert(0 <= p < v.len() && ident(v[p]) == key && (forall|j: int|
        0 <= j < p ==> ident(#[trigger] v[j]) != key));
    if p < k {
        assert(ident(v[p]) != key);
    } else if k < p {
        assert(ident(v[k]) != key);
    }
}

/// `r`, and Enter with no song selected, asks for the recommendations of the
/// song that plays again, under the next generation, and drops its lyrics; the
/// queue stays.
pub proof fn law_reload_keys(
    pre: App,
    code: KeyCode,
    now: u64,
    post: App,
    edit: Option<SettingsEdit>,
    t: Track,
)
    requires
        key_step(pre, plain(code), now, post, edit),
        !pre.show_help,
        pre.view is NowPlaying || pre.view is Related,
        code == KeyCode::Char('r') || (code == KeyCode::Enter
            && pre.related.list_state.selected is None),
        pre.now_playing == Some(t),
        pre.recs.generation < u64::MAX,
    ensures
        post.outbox@ == pre.outbox@ + seq![
            BackendCommand::LoadRelated(Box::new(t), (pre.recs.generation + 1) as u64),
        ],
        post.recs.generation == pre.recs.generation + 1,
        post.recs.loading is Some,
        post.recs.loading->0.track@ == ident(t),
        post.recs.loading->0.generation == pre.recs.generation + 1,
        post.recs.loaded is None,
        post.related.synced is None,
        !post.related.synced_unavailable,
        post.related.tracks == pre.related.tracks,
        post.related.origins == pre.related.origins,
        post.related.list_state == pre.related.list_state,
        post.now_playing == pre.now_playing,
        post.playback == pre.playback,
{
    assert(pre.outbox@.push(post.outbox@.last()) =~= pre.outbox@ + seq![post.outbox@.last()]);
}

/// `R` sends the fresh recommendations, in their order, to take the place of
/// what autoplay added; without any it sends nothing. `l` sends the song that
/// plays to have its mark switched over.
pub proof fn law_renew_and_like_keys(
    pre: App,
    code: KeyCode,
    now: u64,
    post: App,
    edit: Option<SettingsEdit>,
)
    requires
        key_step(pre, plain(code), now, post, edit),
        !pre.show_help,
        pre.view is NowPlaying || pre.view is Related,
    ensures
        code == KeyCode::Char('R') ==> {
            &&& post.related == pre.related
            &&& post.recs == pre.recs
            &&& pre.related.fresh@.len() == 0 ==> post.outbox@ == pre.outbox@
            &&& pre.related.fresh@.len() > 0 ==> {
                &&& post.outbox@.len() == pre.outbox@.len() + 1
                &&& post.outbox@.take(pre.outbox@.len() as int) == pre.outbox@
                &&& post.outbox@.last() matches BackendCommand::ReplaceAutoplay(songs) && songs@
                    == pre.related.fresh@
            }
        },
        code == KeyCode::Char('l') ==> {
            &&& post.liked == pre.liked
            &&& pre.now_playing is None ==> post.outbox@ == pre.outbox@
            &&& pre.now_playing is Some ==> post.outbox@ == pre.outbox@ + seq![
                BackendCommand::ToggleLiked(Box::new(pre.now_playing->0)),
            ]
        },
{
    if code == KeyCode::Char('R') && pre.related.fresh@.len() > 0 {
        assert(post.outbox@.take(pre.outbox@.len() as int) =~= post.outbox@.drop_last());
    }
    if code == KeyCode::Char('l') && pre.now_playing is Some {
        assert(pre.outbox@.push(post.outbox@.last()) =~= pre.outbox@ + seq![post.outbox@.last()]);
    }
}

/// The up arrow (and `w`) selects the row before, the down arrow (and `s`) the
/// row after; the first row is followed back by the last and the other way
/// round. With nothing selected, down starts at the first row and up at the last.
pub proof fn law_arrows_move_the_selection(
    pre: App,
    code: KeyCode,
    now: u64,
    post: App,
    edit: Option<SettingsEdit>,
)
    requires
        key_step(pre, plain(code), now, post, edit),
        !pre.show_help,
        pre.view is NowPlaying || pre.view is Related || pre.view is Search,
        code == KeyCode::Up || code == KeyCode::Down || (!(pre.view is Search) && (code
            == KeyCode::Char('w') || code == KeyCode::Char('s'))),
    ensures
        ({
            let down = code == KeyCode::Down || code == KeyCode::Char('s');
            let len: int = if pre.view is Search {
                pre.search.results@.len() as int
            } else {
                pre.related.tracks@.len() as int
            };
            let before = if pre.view is Search {
                pre.search.list_state.selected
            } else {
                pre.related.list_state.selected
            };
            let after = if pre.view is Search {
                post.search.list_state.selected
            } else {
                post.related.list_state.selected
            };
            &&& len == 0 ==> after is None
            &&& len > 0 && before is None ==> after == Some(
                if down {
                    0
                } else {
                    (len - 1) as usize
                },
            )
            &&& len > 0 && before is Some && before->0 < len ==> {
                let i = before->0;
                after is Some && after->0 == if down {
                    (i + 1) % len
                } else {
                    (i - 1) % len
                }
            }
        }),
        post.search.results == pre.search.results,
        post.search.input == pre.search.input,
        post.related.tracks == pre.related.tracks,
        post.outbox == pre.outbox,
        post.now_playing == pre.now_playing,
{
    let len: int = if pre.view is Search {
        pre.search.results@.len() as int
    } else {
        pre.related.tracks@.len() as int
    };
    let before = if pre.view is Search {
        pre.search.list_state.selected
    } else {
        pre.related.list_state.selected
    };
    assert(pre.search.results@.len() == pre.search.results.len());
    assert(pre.related.tracks@.len() == pre.related.tracks.len());
    if len > 0 && before is Some && before->0 < len {
        lemma_round(before->0 as int, len);
    }
}

proof fn lemma_round(i: int, len: int)
    requires
        0 <= i < len,
    ensures
        (i + 1) % len == if i + 1 < len {
            i + 1
        } else {
            0
        },
        (i - 1) % len == if i > 0 {
            i - 1
        } else {
            len - 1
        },
{
    vstd::arithmetic::div_mod::lemma_mod_self_0(len);
    if i + 1 < len {
        vstd::arithmetic::div_mod::lemma_small_mod((i + 1) as nat, len as nat);
    }
    if i > 0 {
        vstd::arithmetic::div_mod::lemma_small_mod((i - 1) as nat, len as nat);
    } else {
        vstd::arithmetic::div_mod::lemma_fundamental_div_mod_converse(-1, len, -1, len - 1);
    }
}

/// A symbol that Shift and a digit type on some keyboard.
pub open spec fn is_screen_symbol(c: char) -> bool {
    ||| c == '!' || c == '@' || c == '"' || c == '#' || c == '·' || c == '$'
    ||| c == '%' || c == '^' || c == '&' || c == '/' || c == '*' || c == '('
}

/// Typing puts the character where the cursor is, Backspace takes the one before
/// the cursor, Delete the one behind it; what is on the other side stays.
pub proof fn law_query_is_edited_at_the_cursor(
    pre: App,
    code: KeyCode,
    now: u64,
    post: App,
    edit: Option<SettingsEdit>,
)
    requires
        key_step(pre, plain(code), now, post, edit),
        !pre.show_help,
        pre.view is Search,
        pre.search.editing,
        pre.search.cursor <= pre.search.input@.len(),
    ensures
        ({
            let left = pre.search.input@.take(pre.search.cursor as int);
            let right = pre.search.input@.skip(pre.search.cursor as int);
            let new_left = post.search.input@.take(post.search.cursor as int);
            let new_right = post.search.input@.skip(post.search.cursor as int);
            &&& code is Char && !is_screen_symbol(code->Char_0) && code->Char_0 != '\n' ==> new_left
                == left + seq![code->Char_0] && new_right == right
            &&& code == KeyCode::Backspace && left.len() > 0 ==> new_left + seq![left.last()]
                == left && new_right == right
            &&& code == KeyCode::Delete && right.len() > 0 ==> new_left == left && seq![right[0]]
                + new_right == right
            &&& code == KeyCode::Left && left.len() > 0 ==> new_left + seq![left.last()] == left
                && new_right == seq![left.last()] + right
            &&& code == KeyCode::Right && right.len() > 0 ==> new_left == left + seq![right[0]]
                && seq![right[0]] + new_right == right
            &&& code == KeyCode::Home ==> new_left.len() == 0 && new_right == left + right
            &&& code == KeyCode::End ==> new_right.len() == 0 && new_left == left + right
        }),
        code is Char && !is_screen_symbol(code->Char_0) || code is Backspace || code is Delete
            || code is Left || code is Right || code is Home || code is End ==> post.outbox
            == pre.outbox && post.view == pre.view && post.search.results == pre.search.results,
{
    let input = pre.search.input@;
    assert(input.len() == pre.search.input.len());
    let cursor = pre.search.cursor as int;
    let left = input.take(cursor);
    let right = input.skip(cursor);
    let out = post.search.input@;
    let there = post.search.cursor as int;
    if code is Char && !is_screen_symbol(code->Char_0) && code->Char_0 != '\n' {
        assert(out.take(there) =~= left + seq![code->Char_0]);
        assert(out.skip(there) =~= right);
    }
    if code == KeyCode::Backspace && left.len() > 0 {
        assert(out.take(there) + seq![left.last()] =~= left);
        assert(out.skip(there) =~= right);
    }
    if code == KeyCode::Delete && right.len() > 0 {
        assert(out.take(there) =~= left);
        assert(seq![right[0]] + out.skip(there) =~= right);
    }
    if code == KeyCode::Left && left.len() > 0 {
        assert(out.take(there) + seq![left.last()] =~= left);
        assert(out.skip(there) =~= seq![left.last()] + right);
    }
    if code == KeyCode::Right && right.len() > 0 {
        assert(out.take(there) =~= left + seq![right[0]]);
        assert(seq![right[0]] + out.skip(there) =~= right);
    }
    if code == KeyCode::Home {
        assert(out.skip(there) =~= left + right);
    }
    if code == KeyCode::End {
        assert(out.take(there) =~= left + right);
    }
}

/// Enter with a query that was edited, or without results, searches for the
/// query without the blanks around it: the old results go, nothing is selected,
/// and the query that is shown stays. A blank query does nothing.
pub proof fn law_enter_searches(pre: App, now: u64, post: App, edit: Option<SettingsEdit>)
    requires
        key_step(pre, plain(KeyCode::Enter), now, post, edit),
        !pre.show_help,
        pre.view is Search,
        pre.search.editing || pre.search.results@.len() == 0,
    ensures
        ({
            let blank = forall|k: int|
                0 <= k < pre.search.input@.len() ==> is_white(#[trigger] pre.search.input@[k]);
            &&& blank ==> post == pre
            &&& !blank ==> {
                &&& post.outbox@.len() == pre.outbox@.len() + 1
                &&& post.outbox@.take(pre.outbox@.len() as int) == pre.outbox@
                &&& post.outbox@.last() is Search
                &&& opt_text(post.search.last_query) == Some(post.outbox@.last()->Search_0@)
                &&& trimmed_from(pre.search.input@, post.outbox@.last()->Search_0@)
                &&& post.search.searching
                &&& !post.search.editing
                &&& post.search.results@.len() == 0
                &&& post.search.related_from == 0
                &&& post.search.list_state.selected is None
                &&& post.search.input == pre.search.input
                &&& post.search.cursor == pre.search.cursor
                &&& post.now_playing == pre.now_playing
                &&& post.playback == pre.playback
            }
        }),
{
    law_trim_leaves_no_white_ends(pre.search.input@);
    let input = pre.search.input@;
    let from = law_trim_cuts_only_white(input);
    let to = from + crate::text::trimmed(input).len();
    assert(crate::text::trimmed(input) == input.subrange(from, to));
    if post.outbox@.len() > pre.outbox@.len() {
        assert(post.outbox@.take(pre.outbox@.len() as int) =~= post.outbox@.drop_last());
    }
}

/// `part` is `whole` without some blanks at its ends, and has no more of them.
pub open spec fn trimmed_from(whole: Seq<char>, part: Seq<char>) -> bool {
    &&& part.len() > 0
    &&& !is_white(part[0])
    &&& !is_white(part.last())
    &&& exists|from: int, to: int|
        {
            &&& 0 <= from <= to <= whole.len()
            &&& part == #[trigger] whole.subrange(from, to)
            &&& forall|k: int|
                0 <= k < from || to <= k < whole.len() ==> is_white(#[trigger] whole[k])
        }
}

/// Enter outside the text field plays the selected result.
pub proof fn law_enter_plays_the_selected_result(
    pre: App,
    now: u64,
    post: App,
    edit: Option<SettingsEdit>,
    i: usize,
)
    requires
        key_step(pre, plain(KeyCode::Enter), now, post, edit),
        !pre.show_help,
        pre.view is Search,
        !pre.search.editing,
        pre.search.list_state.selected == Some(i),
        i < pre.search.results@.len(),
    ensures
        song_sent_off(pre, pre.search.results@[i as int], post),
{
    law_sent_off(pre, pre.search.results@[i as int], post);
}

/// Esc leads to the song that plays, unless a name is being typed or a playlist
/// is open, and changes nothing else.
pub proof fn law_escape_leads_home(pre: App, now: u64, post: App, edit: Option<SettingsEdit>)
    requires
        key_step(pre, plain(KeyCode::Esc), now, post, edit),
        !pre.show_help,
        pre.view is Settings ==> pre.settings_ready,
        pre.view is Playlists ==> !pre.playlist_view.creating && pre.playlist_view.detail is None,
    ensures
        post.view is NowPlaying,
        post.outbox@ == pre.outbox@,
        post == (App { view: post.view, outbox: post.outbox, ..pre }),
        edit is None,
{
    assert(pre.outbox@ + Seq::<BackendCommand>::empty() =~= pre.outbox@);
    if pre.view is Playlists {
        let (mid, action) = choose|mid: App, action: PlaylistAction|
            playlists_handled(pre, KeyCode::Esc, mid, action) && #[trigger] action_step(
                mid,
                action,
                post,
            );
        assert(playlists_handled(pre, KeyCode::Esc, mid, action));
        assert(mid == pre);
    }
}

/// Shift with a digit leads to the screen of that digit from every screen, also
/// while text is typed. The screens that list stored data ask for it, the others
/// ask for nothing, and nothing else changes.
pub proof fn law_digits_lead_to_screens(
    pre: App,
    digit: char,
    now: u64,
    post: App,
    edit: Option<SettingsEdit>,
)
    requires
        key_step(
            pre,
            (KeyEvent {
                code: KeyCode::Char(digit),
                modifiers: KeyModifiers { shift: true, control: false },
            }),
            now,
            post,
            edit,
        ),
        !pre.show_help,
        '1' <= digit <= '8',
    ensures
        post == (App { view: post.view, outbox: post.outbox, ..pre }),
        digit == '1' ==> post.view is NowPlaying && post.outbox@ == pre.outbox@,
        digit == '2' ==> post.view is Related && post.outbox@ == pre.outbox@,
        digit == '3' ==> post.view is Search && post.outbox@ == pre.outbox@,
        digit == '4' ==> post.view is Sources && post.outbox@ == pre.outbox@ + seq![
            BackendCommand::LoadSources,
        ],
        digit == '5' ==> post.view is Metadata && post.outbox@ == pre.outbox@,
        digit == '6' ==> post.view is History && post.outbox@ == pre.outbox@ + seq![
            BackendCommand::LoadHistory,
        ],
        digit == '7' ==> post.view is Settings && post.outbox@ == pre.outbox@ + seq![
            BackendCommand::LoadSettings,
        ],
        digit == '8' ==> post.view is Playlists && post.outbox@ == pre.outbox@ + seq![
            BackendCommand::ListPlaylists,
        ],
{
    assert(pre.outbox@ + Seq::<BackendCommand>::empty() =~= pre.outbox@);
}

/// The symbol that a keyboard types for Shift and a digit leads to the same
/// screen as that digit.
pub proof fn law_symbols_lead_to_screens(
    pre: App,
    symbol: char,
    digit: char,
    now: u64,
    post: App,
    edit: Option<SettingsEdit>,
)
    requires
        key_step(pre, plain(KeyCode::Char(symbol)), now, post, edit),
        !pre.show_help,
        ({
            ||| symbol == '!' && digit == '1'
            ||| (symbol == '@' || symbol == '"') && digit == '2'
            ||| (symbol == '#' || symbol == '·') && digit == '3'
            ||| symbol == '$' && digit == '4'
            ||| symbol == '%' && digit == '5'
            ||| (symbol == '^' || symbol == '&') && digit == '6'
            ||| symbol == '/' && digit == '7'
            ||| (symbol == '*' || symbol == '(') && digit == '8'
        }),
    ensures
        key_step(
            pre,
            (KeyEvent {
                code: KeyCode::Char(digit),
                modifiers: KeyModifiers { shift: true, control: false },
            }),
            now,
            post,
            edit,
        ),
        post.view != pre.view ==> post == (App { view: post.view, outbox: post.outbox, ..pre }),
{
}

/// `h` opens the help unless text is typed, and changes nothing else.
pub proof fn law_help_key(pre: App, now: u64, post: App, edit: Option<SettingsEdit>)
    requires
        key_step(pre, plain(KeyCode::Char('h')), now, post, edit) || key_step(
            pre,
            plain(KeyCode::Char('H')),
            now,
            post,
            edit,
        ),
        !pre.show_help,
    ensures
        !pre.search.editing && !(pre.view is Settings) && !pre.playlist_view.creating ==> post == (
        App { show_help: true, ..pre }),
        pre.view is Search && pre.search.editing ==> !post.show_help,
        pre.view is Settings ==> !post.show_help,
{
}

/// In the settings form Enter stores it, the arrows change the field, and text
/// goes to the field; before it is filled in no key does anything.
pub proof fn law_settings_keys(
    pre: App,
    code: KeyCode,
    now: u64,
    post: App,
    edit: Option<SettingsEdit>,
)
    requires
        key_step(pre, plain(code), now, post, edit),
        !pre.show_help,
        pre.view is Settings,
    ensures
        !pre.settings_ready && (code is Enter || code is Esc || code is Up || code is Down
            || code is Tab || code is Backspace) ==> post == pre && edit is None,
        pre.settings_ready && code is Enter ==> edit is None && post.outbox@ == pre.outbox@ + seq![
            BackendCommand::SaveSettings,
        ] && post.view is Settings,
        pre.settings_ready && code is Up ==> edit == Some(SettingsEdit::FocusPrevious) && post
            == pre,
        pre.settings_ready && (code is Down || code is Tab) ==> edit == Some(
            SettingsEdit::FocusNext,
        ) && post == pre,
        pre.settings_ready && code is Backspace ==> edit == Some(SettingsEdit::Backspace) && post
            == pre,
        pre.settings_ready && code is Char && !is_screen_symbol(code->Char_0) ==> edit == Some(
            SettingsEdit::Insert(code->Char_0),
        ) && post == pre,
{
    assert(pre.outbox@.push(BackendCommand::SaveSettings) =~= pre.outbox@
        + seq![BackendCommand::SaveSettings]);
}

/// On an open playlist with a stored song in the selected row `i`, `u` orders the
/// move to the row before it and `D` to the row after it, at the ends to the row
/// itself; `x` orders the song out, `p` the whole list to be played, and Enter
/// plays the song.
pub proof fn law_open_playlist_orders(
    pre: App,
    code: KeyCode,
    now: u64,
    post: App,
    edit: Option<SettingsEdit>,
    i: usize,
)
    requires
        key_step(pre, plain(code), now, post, edit),
        !pre.show_help,
        pre.view is Playlists,
        !pre.playlist_view.creating,
        pre.playlist_view.detail is Some,
        pre.playlist_view.detail->0.tracks.list_state.selected == Some(i),
        i < pre.playlist_view.detail->0.tracks.tracks@.len(),
    ensures
        ({
            let list = pre.playlist_view.detail->0;
            let song = list.tracks.tracks@[i as int];
            let last = list.tracks.tracks@.len() - 1;
            &&& code == KeyCode::Char('u') && song.id > 0 ==> post.outbox@ == pre.outbox@ + seq![
                BackendCommand::MovePlaylistTrack(
                    list.id,
                    song.id,
                    if i == 0 {
                        0
                    } else {
                        (i - 1) as usize
                    },
                ),
            ]
            &&& code == KeyCode::Char('D') && song.id > 0 ==> post.outbox@ == pre.outbox@ + seq![
                BackendCommand::MovePlaylistTrack(
                    list.id,
                    song.id,
                    if i == last {
                        i
                    } else {
                        (i + 1) as usize
                    },
                ),
            ]
            &&& code == KeyCode::Char('x') && song.id > 0 ==> post.outbox@ == pre.outbox@ + seq![
                BackendCommand::RemoveFromPlaylist(list.id, song.id),
            ]
            &&& code == KeyCode::Char('p') ==> post.outbox@ == pre.outbox@ + seq![
                BackendCommand::PlayPlaylist(list.id),
            ]
            &&& code == KeyCode::Enter ==> song_sent_off(pre, song, post)
            &&& code == KeyCode::Esc ==> post.playlist_view.detail is None && post.view is Playlists
                && post.outbox@ == pre.outbox@ && post.status is None
            &&& code == KeyCode::Char('u') || code == KeyCode::Char('D') || code == KeyCode::Char(
                'x',
            ) || code == KeyCode::Char('p') ==> post.playlist_view == pre.playlist_view
        }),
{
    if code == KeyCode::Char('u') || code == KeyCode::Char('D') || code == KeyCode::Char('x')
        || code == KeyCode::Char('p') || code == KeyCode::Enter || code == KeyCode::Esc {
        let (mid, action) = choose|mid: App, action: PlaylistAction|
            playlists_handled(pre, code, mid, action) && #[trigger] action_step(mid, action, post);
        assert(playlists_handled(pre, code, mid, action));
        assert(mid.playlist_view.detail == pre.playlist_view.detail);
        assert(mid == pre);
        if post.outbox@.len() == pre.outbox@.len() + 1 {
            assert(pre.outbox@.push(post.outbox@.last()) =~= pre.outbox@
                + seq![post.outbox@.last()]);
        }
        if code == KeyCode::Enter {
            law_sent_off(pre, pre.playlist_view.detail->0.tracks.tracks@[i as int], post);
        }
    }
}

/// In the listing with row `i` selected, Enter opens that playlist, empty until
/// its songs arrive, and asks for them; `p` orders it to be played and `d` to be
/// deleted, the latter only if it is one of the user.
pub proof fn law_listing_orders(
    pre: App,
    code: KeyCode,
    now: u64,
    post: App,
    edit: Option<SettingsEdit>,
    i: usize,
)
    requires
        key_step(pre, plain(code), now, post, edit),
        !pre.show_help,
        pre.view is Playlists,
        !pre.playlist_view.creating,
        pre.playlist_view.detail is None,
        pre.playlist_view.listing.selected == Some(i),
        i < pre.playlists@.len(),
    ensures
        ({
            let row = pre.playlists@[i as int];
            &&& code == KeyCode::Enter ==> {
                &&& post.outbox@ == pre.outbox@ + seq![BackendCommand::PlaylistTracks(row.id)]
                &&& post.playlist_view.detail is Some
                &&& post.playlist_view.detail->0.id == row.id
                &&& post.playlist_view.detail->0.name@ == row.name@
                &&& post.playlist_view.detail->0.tracks.tracks@.len() == 0
                &&& post.playlist_view.detail->0.tracks.list_state.selected is None
            }
            &&& code == KeyCode::Char('p') ==> post.outbox@ == pre.outbox@ + seq![
                BackendCommand::PlayPlaylist(row.id),
            ] && post.playlist_view == pre.playlist_view
            &&& code == KeyCode::Char('d') && row.kind == PlaylistKind::User ==> post.outbox@
                == pre.outbox@ + seq![BackendCommand::DeletePlaylist(row.id)]
                && post.playlist_view == pre.playlist_view
            &&& code == KeyCode::Char('d') && row.kind == PlaylistKind::System ==> post == pre
        }),
{
    if code == KeyCode::Enter || code == KeyCode::Char('p') || code == KeyCode::Char('d') {
        let (mid, action) = choose|mid: App, action: PlaylistAction|
            playlists_handled(pre, code, mid, action) && #[trigger] action_step(mid, action, post);
        assert(playlists_handled(pre, code, mid, action));
        assert(mid == pre);
        if post.outbox@.len() == pre.outbox@.len() + 1 {
            assert(pre.outbox@.push(post.outbox@.last()) =~= pre.outbox@
                + seq![post.outbox@.last()]);
        }
    }
}

/// Enter on a typed name orders a playlist of that name, without the blanks
/// around it, and closes the field; a blank name orders nothing.
pub proof fn law_typed_names_are_ordered(
    pre: App,
    now: u64,
    post: App,
    edit: Option<SettingsEdit>,
)
    requires
        key_step(pre, plain(KeyCode::Enter), now, post, edit),
        !pre.show_help,
        pre.view is Playlists,
        pre.playlist_view.creating,
    ensures
        ({
            let draft = pre.playlist_view.draft@;
            let blank = forall|k: int| 0 <= k < draft.len() ==> is_white(#[trigger] draft[k]);
            &&& !post.playlist_view.creating
            &&& post.playlist_view.draft@.len() == 0
            &&& blank ==> post.outbox@ == pre.outbox@
            &&& !blank ==> {
                &&& post.outbox@.len() == pre.outbox@.len() + 1
                &&& post.outbox@.take(pre.outbox@.len() as int) == pre.outbox@
                &&& post.outbox@.last() is CreatePlaylist
                &&& trimmed_from(draft, post.outbox@.last()->CreatePlaylist_0@)
            }
        }),
{
    let draft = pre.playlist_view.draft@;
    law_trim_leaves_no_white_ends(draft);
    let from = law_trim_cuts_only_white(draft);
    let to = from + crate::text::trimmed(draft).len();
    assert(crate::text::trimmed(draft) == draft.subrange(from, to));
    let (mid, action) = choose|mid: App, action: PlaylistAction|
        playlists_handled(pre, KeyCode::Enter, mid, action) && #[trigger] action_step(
            mid,
            action,
            post,
        );
    assert(playlists_handled(pre, KeyCode::Enter, mid, action));
    assert(mid.outbox == pre.outbox);
    assert(pre.outbox@.push(post.outbox@.last()).take(pre.outbox@.len() as int) =~= pre.outbox@);
}

/// The status line names what a key asked for: the mode that was switched on or
/// off, the query, the song whose recommendations are loaded or that is saved, the
/// playlist that is opened or created.
pub proof fn law_status_names_what_was_asked_for(
    pre: App,
    code: KeyCode,
    now: u64,
    post: App,
    edit: Option<SettingsEdit>,
)
    requires
        key_step(pre, plain(code), now, post, edit),
        !pre.show_help,
    ensures
        takes_no_text(pre.view) && code == KeyCode::Char('a') ==> post.status is Some && (
        post.autoplay <==> "Autoplay activado"@.is_prefix_of(post.status->0@)),
        takes_no_text(pre.view) && code == KeyCode::Char('f') ==> post.status is Some && (
        post.shuffle <==> "Shuffle activado"@.is_prefix_of(post.status->0@)),
        takes_no_text(pre.view) && code == KeyCode::Char('t') ==> post.status is Some && (
        post.repeat is Off <==> "Repetición desactivada"@.is_prefix_of(post.status->0@)),
        pre.view is Search && code is Enter && (pre.search.editing || pre.search.results@.len()
            == 0) && post.outbox@.len() > pre.outbox@.len() ==> post.status is Some && mentions(
            post.status->0@,
            post.outbox@.last()->Search_0@,
        ),
        (pre.view is NowPlaying || pre.view is Related) && code == KeyCode::Char('r')
            && pre.now_playing is Some ==> post.status is Some && mentions(
            post.status->0@,
            pre.now_playing->0.title@,
        ),
{
    reveal_strlit("Autoplay activado");
    reveal_strlit("Autoplay activado: al terminar se reproduce la siguiente recomendación.");
    reveal_strlit("Autoplay desactivado.");
    reveal_strlit("Shuffle activado");
    reveal_strlit("Shuffle activado: siguiente/anterior se aleatorizan.");
    reveal_strlit("Shuffle desactivado: cola en orden.");
    reveal_strlit("Repetición desactivada");
    reveal_strlit("Repetición desactivada: la cola se detiene en el extremo.");
    reveal_strlit("Repetición activada: la cola gira (todas).");
    reveal_strlit("Repetición activada: siguiente/anterior reinician la canción actual.");
    if takes_no_text(pre.view) && code == KeyCode::Char('a') {
        let (word, text) = ("Autoplay activado"@, post.status->0@);
        if post.autoplay {
            assert(word =~= text.subrange(0, 17));
        } else {
            assert(text[9] == 'd' && word[9] == 'a');
        }
    }
    if takes_no_text(pre.view) && code == KeyCode::Char('f') {
        let (word, text) = ("Shuffle activado"@, post.status->0@);
        if post.shuffle {
            assert(word =~= text.subrange(0, 16));
        } else {
            assert(text[8] == 'd' && word[8] == 'a');
        }
    }
    if takes_no_text(pre.view) && code == KeyCode::Char('t') {
        let (word, text) = ("Repetición desactivada"@, post.status->0@);
        if post.repeat is Off {
            assert(word =~= text.subrange(0, 22));
        } else {
            assert(text[11] == 'a' && word[11] == 'd');
        }
    }
    law_texts_mention_their_parts(
        "Buscando «"@,
        crate::text::trimmed(pre.search.input@),
        "»..."@,
    );
    if pre.now_playing is Some {
        law_texts_mention_their_parts(
            "Cargando recomendaciones de «"@,
            pre.now_playing->0.title@,
            "»..."@,
        );
    }
}

/// Every other letter does nothing on the screens where no key is text, and the
/// keys of the queue do nothing where it is not shown.
pub proof fn law_other_letters_do_nothing(
    pre: App,
    c: char,
    now: u64,
    post: App,
    edit: Option<SettingsEdit>,
)
    requires
        key_step(pre, plain(KeyCode::Char(c)), now, post, edit),
        !pre.show_help,
        takes_no_text(pre.view),
        'a' <= c <= 'z' || 'A' <= c <= 'Z' || '0' <= c <= '9',
        c != 'h' && c != 'H' && c != 'q' && c != 'a' && c != 'v' && c != 'f' && c != 't' && c != 'D'
            && c != 'A' && c != 'l',
        pre.view is NowPlaying || pre.view is Related ==> c != 'w' && c != 's' && c != 'r' && c
            != 'R',
    ensures
        post == pre,
        edit is None,
{
}

/// With results but none of them selected, Enter outside the text field does
/// nothing.
pub proof fn law_enter_needs_a_selection(pre: App, now: u64, post: App, edit: Option<SettingsEdit>)
    requires
        key_step(pre, plain(KeyCode::Enter), now, post, edit),
        !pre.show_help,
        pre.view is Search,
        !pre.search.editing,
        pre.search.results@.len() > 0,
        pre.search.list_state.selected is None,
    ensures
        post == pre,
{
}

/// Each screen does with its keys what the rules of its keys say, and so does what
/// they ask for.
pub proof fn law_screens_follow_the_rules(
    a: &mut App,
    b: &mut App,
    c: &mut App,
    d: &mut App,
    e: &mut App,
    f: &mut App,
    key: KeyEvent,
    now: u64,
    edit: Option<SettingsEdit>,
    action: PlaylistAction,
    t: Track,
)
    requires
        call_ensures(App::on_read_only_key, (a, key, now), ()),
        call_ensures(App::on_search_key, (b, key), ()),
        call_ensures(App::on_settings_key, (c, key), edit),
        call_ensures(App::on_playlists_key, (d, key), ()),
        call_ensures(App::perform, (e, action), ()),
        call_ensures(App::on_new_now_playing, (f, t), ()),
    ensures
        crate::input::read_only_step(*old(a), key.code, now, *final(a)),
        crate::input::search_step(*old(b), key.code, *final(b)),
        crate::input::settings_step(*old(c), key.code, *final(c), edit),
        crate::input::playlists_screen_step(*old(d), key.code, *final(d)),
        action_step(*old(e), action, *final(e)),
        crate::app::adopts_song(*old(f), t, *final(f)),
{
}

/// A song that becomes the one on the screen keeps the queue; if it is another one
/// than before, its lyrics are not known yet, its recommendations are asked for, and
/// the selection moves to its place in the queue if it has one.
pub proof fn law_adopted_songs(pre: App, t: Track, post: App, k: int)
    requires
        crate::app::adopts_song(pre, t, post),
        opt_ident(pre.now_playing) != Some(ident(t)),
        0 <= k < pre.related.tracks@.len(),
        ident(pre.related.tracks@[k]) == ident(t),
        forall|j: int| 0 <= j < k ==> ident(#[trigger] pre.related.tracks@[j]) != ident(t),
    ensures
        post.now_playing == Some(t),
        post.related.list_state.selected == Some(k as usize),
        post.related.synced is None,
        post.related.tracks == pre.related.tracks,
        post.outbox@.len() > pre.outbox@.len(),
        post.outbox@.last() == BackendCommand::LoadRelated(Box::new(t), post.recs.generation),
        cover_awaited(pre, ident(t), post),
        post.playback == pre.playback,
        post.clock == pre.clock,
{
    lemma_first_position(pre.related.tracks@, ident(t), k);
    let asked = crate::app::adoption_commands(pre, t);
    assert(asked.len() > 0);
    assert(post.outbox@.last() == asked.last());
}

/// The same song again asks for its recommendations if they are neither there nor on
/// their way, and for nothing that is known.
pub proof fn law_known_songs_ask_for_nothing(pre: App, t: Track, post: App)
    requires
        crate::app::adopts_song(pre, t, post),
        opt_ident(pre.now_playing) == Some(ident(t)),
        pre.thumbnails@.dom().contains(ident(t)),
    ensures
        ({
            let there = pre.recs.loaded is Some && pre.recs.loaded->0@ == ident(t);
            let coming = pre.recs.loading is Some && pre.recs.loading->0.track@ == ident(t);
            &&& there || coming ==> post.outbox@ == pre.outbox@ && post.recs == pre.recs
            &&& !there && !coming ==> post.outbox@ == pre.outbox@ + seq![
                BackendCommand::LoadRelated(Box::new(t), post.recs.generation),
            ] && post.recs.loading is Some && post.recs.loading->0.generation
                == post.recs.generation
        }),
        post.related == pre.related,
        post.now_playing == Some(t),
{
    let asked = crate::app::adoption_commands(pre, t);
    assert(post.outbox@ == pre.outbox@ + asked);
    assert(pre.outbox@ + Seq::<BackendCommand>::empty() =~= pre.outbox@);
    let one = seq![crate::app::related_request(pre, t)];
    assert(Seq::<BackendCommand>::empty() + one =~= one);
    assert(Seq::<BackendCommand>::empty() + Seq::<BackendCommand>::empty()
        =~= Seq::<BackendCommand>::empty());
}

/// On the screen of the playlists `q` leaves the program. While a name is typed any
/// other character goes to its end, and nothing else changes; `n` in the listing
/// begins an empty one.
pub proof fn law_names_are_typed_on_the_screen(
    pre: App,
    c: char,
    now: u64,
    post: App,
    edit: Option<SettingsEdit>,
)
    requires
        key_step(pre, plain(KeyCode::Char(c)), now, post, edit),
        !pre.show_help,
        pre.view is Playlists,
        !is_screen_symbol(c),
    ensures
        c == 'q' ==> post == (App { should_quit: true, ..pre }),
        c != 'q' && pre.playlist_view.creating ==> {
            &&& post.playlist_view.creating
            &&& post.playlist_view.draft@ == pre.playlist_view.draft@ + seq![c]
            &&& post.playlist_view.detail == pre.playlist_view.detail
            &&& post == (App { playlist_view: post.playlist_view, ..pre })
        },
        c == 'n' && !pre.playlist_view.creating && pre.playlist_view.detail is None ==> {
            &&& post.playlist_view.creating
            &&& post.playlist_view.draft@.len() == 0
            &&& post == (App { playlist_view: post.playlist_view, ..pre })
        },
{
    if c != 'q' && (pre.playlist_view.creating || (c == 'n' && pre.playlist_view.detail is None)) {
        let code = KeyCode::Char(c);
        let (mid, action) = choose|mid: App, action: PlaylistAction|
            playlists_handled(pre, code, mid, action) && #[trigger] action_step(mid, action, post);
        assert(playlists_handled(pre, code, mid, action));
        let draft = pre.playlist_view.draft@;
        assert(draft.push(c) =~= draft + seq![c]);
    }
}

/// On the screen of the playlists the arrows move the selection of the listing, or of
/// the open playlist, by one row and round at the ends, and change nothing else.
pub proof fn law_arrows_move_in_the_playlists(
    pre: App,
    down: bool,
    now: u64,
    post: App,
    edit: Option<SettingsEdit>,
    i: usize,
)
    requires
        key_step(
            pre,
            plain(
                if down {
                    KeyCode::Down
                } else {
                    KeyCode::Up
                },
            ),
            now,
            post,
            edit,
        ),
        !pre.show_help,
        pre.view is Playlists,
        !pre.playlist_view.creating,
        pre.playlist_view.detail is None ==> pre.playlist_view.listing.selected == Some(i) && i
            < pre.playlists@.len(),
        pre.playlist_view.detail is Some ==> pre.playlist_view.detail->0.tracks.list_state.selected
            == Some(i) && i < pre.playlist_view.detail->0.tracks.tracks@.len(),
    ensures
        post == (App { playlist_view: post.playlist_view, ..pre }),
        ({
            let len: int = match pre.playlist_view.detail {
                Some(d) => d.tracks.tracks@.len() as int,
                None => pre.playlists@.len() as int,
            };
            let after = match post.playlist_view.detail {
                Some(d) => d.tracks.list_state.selected,
                None => post.playlist_view.listing.selected,
            };
            &&& post.playlist_view.detail is Some <==> pre.playlist_view.detail is Some
            &&& after is Some
            &&& after->0 == if down {
                (i + 1) % len
            } else {
                (i - 1) % len
            }
        }),
{
    let code = if down {
        KeyCode::Down
    } else {
        KeyCode::Up
    };
    let (mid, action) = choose|mid: App, action: PlaylistAction|
        playlists_handled(pre, code, mid, action) && #[trigger] action_step(mid, action, post);
    assert(playlists_handled(pre, code, mid, action));
    let len: int = match pre.playlist_view.detail {
        Some(d) => d.tracks.tracks@.len() as int,
        None => pre.playlists@.len() as int,
    };
    assert(pre.playlists@.len() == pre.playlists.len());
    if pre.playlist_view.detail is Some {
        let songs = pre.playlist_view.detail->0.tracks.tracks;
        assert(songs@.len() == songs.len());
    }
    lemma_round(i as int, len);
}

/// Where no key is text, keys change nothing of what other screens hold: not the
/// search, the playlists, the marks or the history. On the search screen they change
/// nothing of the playlists, the marks, the history or the modes.
pub proof fn law_keys_keep_to_their_screen(
    pre: App,
    key: KeyEvent,
    now: u64,
    post: App,
    edit: Option<SettingsEdit>,
)
    requires
        key_step(pre, key, now, post, edit),
        takes_no_text(pre.view) || pre.view is Search,
    ensures
        post.playlists == pre.playlists,
        post.playlist_view == pre.playlist_view,
        post.liked == pre.liked,
        post.history == pre.history,
        post.listening_stats == pre.listening_stats,
        post.sources == pre.sources,
        post.notices == pre.notices,
        post.glyphs == pre.glyphs,
        takes_no_text(pre.view) ==> post.search == pre.search,
        pre.view is Search ==> post.autoplay == pre.autoplay && post.shuffle == pre.shuffle
            && post.repeat == pre.repeat && post.visual_mode == pre.visual_mode,
        edit is None,
{
}

} // verus!
