//! The Playlists screen: the listing, one playlist open, and the name of a new one.

use vstd::prelude::*;

use crate::domain::{PlaylistRow, Track};
use crate::keys::KeyCode;
use crate::navigation::{step_selection, stepped, ListSelection, ListState};
use crate::related::RelatedState;
#[allow(unused_imports)]
use crate::text::{is_white, law_trim_cuts_only_white, law_trim_leaves_no_white_ends};
use crate::text::{trim, trimmed};

verus! {

/// State of the screen.
#[derive(Debug)]
pub struct PlaylistState {
    /// The open playlist; `None` shows the listing.
    pub detail: Option<Detail>,
    pub listing: ListState,
    /// The name of a new playlist is being typed.
    pub creating: bool,
    /// The name typed so far.
    pub draft: String,
}

/// An open playlist and its songs.
#[derive(Debug)]
pub struct Detail {
    pub id: i64,
    pub name: String,
    pub tracks: RelatedState,
}

impl Detail {
    /// An open playlist whose songs have not arrived.
    pub fn open(id: i64, name: String) -> (r: Detail)
        ensures
            r.id == id,
            r.name == name,
            r.tracks.is_blank(),
    {
        Detail { id, name, tracks: RelatedState::default() }
    }
}

impl Default for PlaylistState {
    fn default() -> (r: Self)
        ensures
            r.detail is None,
            r.listing.selected is None,
            !r.creating,
            r.draft@ == Seq::<char>::empty(),
    {
        PlaylistState {
            detail: None,
            listing: ListState { selected: None },
            creating: false,
            draft: String::new(),
        }
    }
}

/// What the screen asks the application to do.
#[derive(Debug)]
pub enum PlaylistAction {
    Nothing,
    /// Open a playlist.
    Open(i64, String),
    /// Play a whole playlist as the queue.
    Play(i64),
    /// Play one song of the open playlist.
    PlayTrack(Track),
    /// Create a playlist.
    Create(String),
    /// Delete a playlist of the user.
    Delete(i64),
    /// Take a song out of the open playlist.
    RemoveTrack(i64, i64),
    /// Move a song within the open playlist.
    MoveTrack(i64, i64, usize),
    /// Go back to the listing.
    CloseDetail,
    /// Leave the screen.
    LeaveView,
}

/// The selected playlist of the listing.
pub open spec fn picked_row(state: PlaylistState, playlists: Seq<PlaylistRow>) -> Option<PlaylistRow> {
    match state.listing.selected {
        Some(i) => if i < playlists.len() {
            Some(playlists[i as int])
        } else {
            None
        },
        None => None,
    }
}

/// What a key does while a name is being typed: every key is consumed, Esc
/// cancels, and Enter creates the playlist unless the name is blank.
pub open spec fn create_step(
    pre: PlaylistState,
    key: KeyCode,
    post: PlaylistState,
    action: PlaylistAction,
) -> bool {
    match key {
        KeyCode::Esc => {
            &&& post == (PlaylistState { creating: false, draft: post.draft, ..pre })
            &&& post.draft@ == Seq::<char>::empty()
            &&& action is Nothing
        },
        KeyCode::Enter => {
            &&& post == (PlaylistState { creating: false, draft: post.draft, ..pre })
            &&& post.draft@ == Seq::<char>::empty()
            &&& trimmed(pre.draft@).len() == 0 ==> action is Nothing
            &&& trimmed(pre.draft@).len() > 0 ==> (action matches PlaylistAction::Create(name)
                && name@ == trimmed(pre.draft@))
        },
        KeyCode::Backspace => {
            &&& post == (PlaylistState { draft: post.draft, ..pre })
            &&& post.draft@ == (if pre.draft@.len() > 0 {
                pre.draft@.drop_last()
            } else {
                pre.draft@
            })
            &&& action is Nothing
        },
        KeyCode::Char(c) => {
            &&& post == (PlaylistState { draft: post.draft, ..pre })
            &&& post.draft@ == pre.draft@.push(c)
            &&& action is Nothing
        },
        _ => post == pre && action is Nothing,
    }
}

/// What a key does in the listing.
pub open spec fn listing_step(
    pre: PlaylistState,
    key: KeyCode,
    playlists: Seq<PlaylistRow>,
    post: PlaylistState,
    action: PlaylistAction,
) -> bool {
    let row = picked_row(pre, playlists);
    if key == KeyCode::Char('n') {
        &&& post == (PlaylistState { creating: true, draft: post.draft, ..pre })
        &&& post.draft@ == Seq::<char>::empty()
        &&& action is Nothing
    } else if key == KeyCode::Char('w') || key == KeyCode::Up {
        &&& post == (PlaylistState {
            listing: ListState { selected: stepped(playlists.len(), pre.listing.selected, false) },
            ..pre
        })
        &&& action is Nothing
    } else if key == KeyCode::Char('s') || key == KeyCode::Down {
        &&& post == (PlaylistState {
            listing: ListState { selected: stepped(playlists.len(), pre.listing.selected, true) },
            ..pre
        })
        &&& action is Nothing
    } else {
        &&& post == pre
        &&& action == (if key == KeyCode::Enter && row is Some {
            PlaylistAction::Open(row->0.id, row->0.name)
        } else if key == KeyCode::Char('p') && row is Some {
            PlaylistAction::Play(row->0.id)
        } else if key == KeyCode::Char('d') && row is Some && row->0.kind
            == crate::domain::PlaylistKind::User {
            PlaylistAction::Delete(row->0.id)
        } else if key == KeyCode::Esc {
            PlaylistAction::LeaveView
        } else {
            PlaylistAction::Nothing
        })
    }
}

/// Where a song goes when it is moved by `delta` rows: it stops at the ends.
pub open spec fn moved_to(detail: Detail, delta: int) -> int {
    let at = match detail.tracks.list_state.selected {
        Some(i) => i as int,
        None => 0,
    };
    let last = if detail.tracks.tracks@.len() > 0 {
        detail.tracks.tracks@.len() - 1
    } else {
        0
    };
    if at + delta < 0 {
        0
    } else if at + delta > last {
        last
    } else {
        at + delta
    }
}

/// The action of a key on an open playlist, for keys that do not move the selection.
pub open spec fn detail_action(detail: Detail, key: KeyCode) -> PlaylistAction {
    let song = detail.tracks.picked();
    if key == KeyCode::Enter {
        if song is Some {
            PlaylistAction::PlayTrack(song->0)
        } else if detail.tracks.tracks@.len() == 0 {
            PlaylistAction::Play(detail.id)
        } else {
            PlaylistAction::Nothing
        }
    } else if key == KeyCode::Char('p') {
        PlaylistAction::Play(detail.id)
    } else if key == KeyCode::Char('x') && song is Some && song->0.id > 0 {
        PlaylistAction::RemoveTrack(detail.id, song->0.id)
    } else if key == KeyCode::Char('u') && song is Some && song->0.id > 0 {
        PlaylistAction::MoveTrack(detail.id, song->0.id, moved_to(detail, -1) as usize)
    } else if key == KeyCode::Char('D') && song is Some && song->0.id > 0 {
        PlaylistAction::MoveTrack(detail.id, song->0.id, moved_to(detail, 1) as usize)
    } else if key == KeyCode::Esc {
        PlaylistAction::CloseDetail
    } else {
        PlaylistAction::Nothing
    }
}

/// What a key does on an open playlist.
pub open spec fn detail_step(pre: Detail, key: KeyCode, post: Detail, action: PlaylistAction) -> bool {
    if key == KeyCode::Char('w') || key == KeyCode::Up {
        &&& post == (Detail {
            tracks: pre.tracks.with_chosen(
                stepped(pre.tracks.rows(), pre.tracks.chosen(), false),
            ),
            ..pre
        })
        &&& action is Nothing
    } else if key == KeyCode::Char('s') || key == KeyCode::Down {
        &&& post == (Detail {
            tracks: pre.tracks.with_chosen(stepped(pre.tracks.rows(), pre.tracks.chosen(), true)),
            ..pre
        })
        &&& action is Nothing
    } else {
        post == pre && action == detail_action(pre, key)
    }
}

/// What a key does on the screen: while a name is typed it goes to the name,
/// else to the open playlist, else to the listing.
pub open spec fn playlist_step(
    pre: PlaylistState,
    key: KeyCode,
    playlists: Seq<PlaylistRow>,
    post: PlaylistState,
    action: PlaylistAction,
) -> bool {
    if pre.creating {
        create_step(pre, key, post, action)
    } else {
        match pre.detail {
            Some(d) => {
                &&& post == (PlaylistState { detail: post.detail, ..pre })
                &&& post.detail is Some
                &&& detail_step(d, key, post.detail->0, action)
            },
            None => listing_step(pre, key, playlists, post, action),
        }
    }
}

/// Handles a key of the screen.
///
/// In the listing `n` creates, Enter opens, `p` plays, `d` deletes playlists of
/// the user and Esc leaves. On an open playlist Enter plays the song, `p` the
/// list, `x` removes, `u` and `D` move up and down and Esc goes back.
pub fn handle_key(state: &mut PlaylistState, key: KeyCode, playlists: &Vec<PlaylistRow>) -> (r:
    PlaylistAction)
    ensures
        playlist_step(*old(state), key, playlists@, *final(state), r),
{
    if state.creating {
        return match key {
            KeyCode::Esc => {
                state.creating = false;
                state.draft.clear();
                PlaylistAction::Nothing
            },
            KeyCode::Enter => {
                let name = trim(state.draft.as_str());
                state.creating = false;
                state.draft.clear();
                if name.as_str().is_empty() {
                    PlaylistAction::Nothing
                } else {
                    PlaylistAction::Create(name)
                }
            },
            KeyCode::Backspace => {
                let _ = state.draft.pop();
                PlaylistAction::Nothing
            },
            KeyCode::Char(c) => {
                state.draft.push(c);
                PlaylistAction::Nothing
            },
            _ => PlaylistAction::Nothing,
        };
    }
    match state.detail.as_mut() {
        Some(detail) => handle_detail_key(detail, key),
        None => handle_listing_key(state, key, playlists),
    }
}

fn handle_listing_key(state: &mut PlaylistState, key: KeyCode, playlists: &Vec<PlaylistRow>) -> (r:
    PlaylistAction)
    ensures
        listing_step(*old(state), key, playlists@, *final(state), r),
{
    let row: Option<usize> = match state.listing.selected() {
        Some(i) => if i < playlists.len() {
            Some(i)
        } else {
            None
        },
        None => None,
    };
    match key {
        KeyCode::Char('n') => {
            state.creating = true;
            state.draft.clear();
            PlaylistAction::Nothing
        },
        KeyCode::Char('w') | KeyCode::Up => {
            let next = step_selection(playlists.len(), state.listing.selected(), false);
            state.listing.select(next);
            PlaylistAction::Nothing
        },
        KeyCode::Char('s') | KeyCode::Down => {
            let next = step_selection(playlists.len(), state.listing.selected(), true);
            state.listing.select(next);
            PlaylistAction::Nothing
        },
        KeyCode::Enter => match row {
            Some(i) => PlaylistAction::Open(playlists[i].id, playlists[i].name.clone()),
            None => PlaylistAction::Nothing,
        },
        KeyCode::Char('p') => match row {
            Some(i) => PlaylistAction::Play(playlists[i].id),
            None => PlaylistAction::Nothing,
        },
        KeyCode::Char('d') => match row {
            Some(i) => if playlists[i].kind.is_user() {
                PlaylistAction::Delete(playlists[i].id)
            } else {
                PlaylistAction::Nothing
            },
            None => PlaylistAction::Nothing,
        },
        KeyCode::Esc => PlaylistAction::LeaveView,
        _ => PlaylistAction::Nothing,
    }
}

fn handle_detail_key(detail: &mut Detail, key: KeyCode) -> (r: PlaylistAction)
    ensures
        detail_step(*old(detail), key, *final(detail), r),
{
    match key {
        KeyCode::Char('w') | KeyCode::Up => {
            detail.tracks.step(false);
            PlaylistAction::Nothing
        },
        KeyCode::Char('s') | KeyCode::Down => {
            detail.tracks.step(true);
            PlaylistAction::Nothing
        },
        KeyCode::Enter => match detail.tracks.selected() {
            Some(t) => PlaylistAction::PlayTrack(t.clone()),
            None => if detail.tracks.tracks.len() == 0 {
                PlaylistAction::Play(detail.id)
            } else {
                PlaylistAction::Nothing
            },
        },
        KeyCode::Char('p') => PlaylistAction::Play(detail.id),
        KeyCode::Char('x') => match detail.tracks.selected() {
            Some(t) => if t.id > 0 {
                PlaylistAction::RemoveTrack(detail.id, t.id)
            } else {
                PlaylistAction::Nothing
            },
            None => PlaylistAction::Nothing,
        },
        KeyCode::Char('u') => match detail.tracks.selected() {
            Some(t) => if t.id > 0 {
                PlaylistAction::MoveTrack(detail.id, t.id, move_to(detail, -1))
            } else {
                PlaylistAction::Nothing
            },
            None => PlaylistAction::Nothing,
        },
        KeyCode::Char('D') => match detail.tracks.selected() {
            Some(t) => if t.id > 0 {
                PlaylistAction::MoveTrack(detail.id, t.id, move_to(detail, 1))
            } else {
                PlaylistAction::Nothing
            },
            None => PlaylistAction::Nothing,
        },
        KeyCode::Esc => PlaylistAction::CloseDetail,
        _ => PlaylistAction::Nothing,
    }
}

/// Where the selected song goes when it is moved by `delta` rows.
fn move_to(detail: &Detail, delta: i32) -> (r: usize)
    ensures
        r == moved_to(*detail, delta as int),
{
    let at: i128 = match detail.tracks.cursor() {
        Some(i) => i as i128,
        None => 0,
    };
    let last: usize = detail.tracks.tracks.len().saturating_sub(1);
    let wish: i128 = at + delta as i128;
    if wish < 0 {
        0
    } else if wish > last as i128 {
        last
    } else {
        wish as usize
    }
}

impl ListSelection for PlaylistState {
    open spec fn rows(&self) -> nat {
        match self.detail {
            Some(d) => d.tracks.rows(),
            None => 0,
        }
    }

    open spec fn chosen(&self) -> Option<usize> {
        match self.detail {
            Some(d) => d.tracks.chosen(),
            None => self.listing.selected,
        }
    }

    open spec fn with_chosen(&self, index: Option<usize>) -> Self {
        match self.detail {
            Some(d) => PlaylistState {
                detail: Some(Detail { tracks: d.tracks.with_chosen(index), ..d }),
                ..*self
            },
            None => PlaylistState { listing: ListState { selected: index }, ..*self },
        }
    }

    fn list_len(&self) -> usize {
        match &self.detail {
            Some(d) => d.tracks.list_len(),
            None => 0,
        }
    }

    fn cursor(&self) -> Option<usize> {
        match &self.detail {
            Some(d) => d.tracks.cursor(),
            None => self.listing.selected(),
        }
    }

    fn set_cursor(&mut self, index: Option<usize>) {
        match self.detail.as_mut() {
            Some(d) => d.tracks.set_cursor(index),
            None => self.listing.select(index),
        }
    }
}

/// A playlist of the system is never deleted, whatever the key.
pub proof fn law_system_playlists_are_protected(
    pre: PlaylistState,
    key: KeyCode,
    playlists: Seq<PlaylistRow>,
    post: PlaylistState,
    action: PlaylistAction,
)
    requires
        playlist_step(pre, key, playlists, post, action),
        action is Delete,
    ensures
        ({
            let row = picked_row(pre, playlists);
            row is Some && row->0.kind == crate::domain::PlaylistKind::User && action
                == PlaylistAction::Delete(row->0.id)
        }),
{
}

/// A created playlist never has a blank name.
pub proof fn law_created_names_are_not_blank(
    pre: PlaylistState,
    key: KeyCode,
    playlists: Seq<PlaylistRow>,
    post: PlaylistState,
    name: String,
)
    requires
        playlist_step(pre, key, playlists, post, PlaylistAction::Create(name)),
    ensures
        pre.creating,
        name@.len() > 0,
        name@ == trimmed(pre.draft@),
        !post.creating,
{
}

/// A song is moved within the playlist, by one row at most.
pub proof fn law_moves_stay_in_the_list(detail: Detail)
    requires
        detail.tracks.picked() is Some,
    ensures
        ({
            let at = detail.tracks.list_state.selected->0 as int;
            let n = detail.tracks.tracks@.len();
            &&& 0 <= moved_to(detail, -1) < n
            &&& 0 <= moved_to(detail, 1) < n
            &&& at - 1 <= moved_to(detail, -1) <= at <= moved_to(detail, 1) <= at + 1
        }),
{
}

/// On an open playlist `u` moves the selected song one row up and `D` one row
/// down: from row `i` to the row before or after it, and from the first or the
/// last row to that row itself. Nothing else on the screen changes.
pub proof fn law_songs_move_by_one_row(
    pre: PlaylistState,
    playlists: Seq<PlaylistRow>,
    after_up: PlaylistState,
    up: PlaylistAction,
    after_down: PlaylistState,
    down: PlaylistAction,
    i: usize,
)
    requires
        !pre.creating,
        pre.detail is Some,
        pre.detail->0.tracks.list_state.selected == Some(i),
        i < pre.detail->0.tracks.tracks@.len(),
        playlist_step(pre, KeyCode::Char('u'), playlists, after_up, up),
        playlist_step(pre, KeyCode::Char('D'), playlists, after_down, down),
    ensures
        after_up == pre,
        after_down == pre,
        ({
            let list = pre.detail->0.id;
            let songs = pre.detail->0.tracks.tracks@;
            let song = songs[i as int].id;
            if song > 0 {
                &&& up == PlaylistAction::MoveTrack(
                    list,
                    song,
                    if i > 0 {
                        (i - 1) as usize
                    } else {
                        0
                    },
                )
                &&& down == PlaylistAction::MoveTrack(
                    list,
                    song,
                    if i + 1 < songs.len() {
                        (i + 1) as usize
                    } else {
                        i
                    },
                )
            } else {
                up is Nothing && down is Nothing
            }
        }),
{
}

/// On an open playlist Enter plays the selected song, `p` the whole list, `x`
/// takes the selected song out and Esc goes back to the listing; a song that is
/// not stored is never taken out.
pub proof fn law_open_playlist_keys(
    pre: PlaylistState,
    key: KeyCode,
    playlists: Seq<PlaylistRow>,
    post: PlaylistState,
    action: PlaylistAction,
    i: usize,
)
    requires
        !pre.creating,
        pre.detail is Some,
        pre.detail->0.tracks.list_state.selected == Some(i),
        i < pre.detail->0.tracks.tracks@.len(),
        playlist_step(pre, key, playlists, post, action),
    ensures
        ({
            let list = pre.detail->0.id;
            let song = pre.detail->0.tracks.tracks@[i as int];
            &&& key == KeyCode::Enter ==> action == PlaylistAction::PlayTrack(song) && post == pre
            &&& key == KeyCode::Char('p') ==> action == PlaylistAction::Play(list) && post == pre
            &&& key == KeyCode::Char('x') && song.id > 0 ==> action == PlaylistAction::RemoveTrack(
                list,
                song.id,
            ) && post == pre
            &&& key == KeyCode::Char('x') && song.id <= 0 ==> action is Nothing && post == pre
            &&& key == KeyCode::Esc ==> action is CloseDetail && post == pre
        }),
{
}

/// Enter and `p` on an open playlist without songs play the playlist.
pub proof fn law_empty_playlist_keys(
    pre: PlaylistState,
    key: KeyCode,
    playlists: Seq<PlaylistRow>,
    post: PlaylistState,
    action: PlaylistAction,
)
    requires
        !pre.creating,
        pre.detail is Some,
        pre.detail->0.tracks.tracks@.len() == 0,
        playlist_step(pre, key, playlists, post, action),
    ensures
        key == KeyCode::Enter || key == KeyCode::Char('p') ==> action == PlaylistAction::Play(
            pre.detail->0.id,
        ),
        key == KeyCode::Esc ==> action is CloseDetail,
        key == KeyCode::Char('x') || key == KeyCode::Char('u') || key == KeyCode::Char('D')
            ==> action is Nothing,
{
}

/// In the listing Enter opens the selected playlist, `p` plays it, `d` deletes
/// it if the user made it, and Esc leaves the screen.
pub proof fn law_listing_keys(
    pre: PlaylistState,
    key: KeyCode,
    playlists: Seq<PlaylistRow>,
    post: PlaylistState,
    action: PlaylistAction,
    i: usize,
)
    requires
        !pre.creating,
        pre.detail is None,
        pre.listing.selected == Some(i),
        i < playlists.len(),
        playlist_step(pre, key, playlists, post, action),
    ensures
        ({
            let row = playlists[i as int];
            &&& key == KeyCode::Enter ==> action == PlaylistAction::Open(row.id, row.name) && post
                == pre
            &&& key == KeyCode::Char('p') ==> action == PlaylistAction::Play(row.id) && post == pre
            &&& key == KeyCode::Char('d') && row.kind is User ==> action == PlaylistAction::Delete(
                row.id,
            ) && post == pre
            &&& key == KeyCode::Char('d') && row.kind is System ==> action is Nothing && post == pre
            &&& key == KeyCode::Esc ==> action is LeaveView && post == pre
        }),
{
}

/// With nothing selected, no key of the listing acts on a playlist.
pub proof fn law_listing_without_selection(
    pre: PlaylistState,
    key: KeyCode,
    playlists: Seq<PlaylistRow>,
    post: PlaylistState,
    action: PlaylistAction,
)
    requires
        !pre.creating,
        pre.detail is None,
        pre.listing.selected is None || pre.listing.selected->0 >= playlists.len(),
        playlist_step(pre, key, playlists, post, action),
    ensures
        action is Nothing || (action is LeaveView && key == KeyCode::Esc),
{
}

/// The arrows and the letters `w` and `s` move the selection of the listing, or
/// of the open playlist, to the row before or after, and round at the ends.
pub proof fn law_playlist_selection_moves(
    pre: PlaylistState,
    key: KeyCode,
    playlists: Seq<PlaylistRow>,
    post: PlaylistState,
    action: PlaylistAction,
    i: usize,
)
    requires
        !pre.creating,
        pre.detail is None ==> pre.listing.selected == Some(i) && i < playlists.len()
            <= usize::MAX,
        pre.detail is Some ==> pre.detail->0.tracks.list_state.selected == Some(i) && i
            < pre.detail->0.tracks.tracks@.len(),
        key == KeyCode::Char('w') || key == KeyCode::Up || key == KeyCode::Char('s') || key
            == KeyCode::Down,
        playlist_step(pre, key, playlists, post, action),
    ensures
        action is Nothing,
        !post.creating,
        post.draft == pre.draft,
        ({
            let len = match pre.detail {
                Some(d) => d.tracks.tracks@.len(),
                None => playlists.len(),
            };
            let up = key == KeyCode::Char('w') || key == KeyCode::Up;
            let there: int = if up && i == 0 {
                len - 1
            } else if up {
                i - 1
            } else if i == len - 1 {
                0
            } else {
                i + 1
            };
            match pre.detail {
                Some(d) => {
                    &&& post.listing == pre.listing
                    &&& post.detail is Some
                    &&& post.detail->0.id == d.id
                    &&& post.detail->0.name == d.name
                    &&& post.detail->0.tracks.tracks == d.tracks.tracks
                    &&& post.detail->0.tracks.list_state.selected == Some(there as usize)
                },
                None => post.detail is None && post.listing.selected == Some(there as usize),
            }
        }),
{
}

/// `n` starts an empty name; while it is typed, characters go to its end,
/// Backspace takes the last one away, Enter creates a playlist of that name
/// without the blanks around it, and Esc gives up.
pub proof fn law_naming_a_playlist(
    pre: PlaylistState,
    key: KeyCode,
    playlists: Seq<PlaylistRow>,
    post: PlaylistState,
    action: PlaylistAction,
)
    requires
        playlist_step(pre, key, playlists, post, action),
    ensures
        !pre.creating && pre.detail is None && key == KeyCode::Char('n') ==> {
            &&& post.creating
            &&& post.draft@.len() == 0
            &&& action is Nothing
        },
        pre.creating ==> post.detail == pre.detail && post.listing == pre.listing,
        pre.creating && key is Char ==> {
            &&& post.creating
            &&& post.draft@ == pre.draft@ + seq![key->Char_0]
            &&& action is Nothing
        },
        pre.creating && key == KeyCode::Backspace && pre.draft@.len() > 0 ==> {
            &&& post.creating
            &&& post.draft@ + seq![pre.draft@.last()] == pre.draft@
            &&& action is Nothing
        },
        pre.creating && key == KeyCode::Enter ==> {
            &&& !post.creating
            &&& post.draft@.len() == 0
            &&& action is Nothing <==> forall|k: int|
                0 <= k < pre.draft@.len() ==> is_white(#[trigger] pre.draft@[k])
            &&& action is Nothing || action is Create
            &&& action is Create ==> {
                let name = action->Create_0@;
                &&& !is_white(name[0])
                &&& !is_white(name.last())
                &&& exists|from: int, to: int|
                    {
                        &&& 0 <= from <= to <= pre.draft@.len()
                        &&& name == #[trigger] pre.draft@.subrange(from, to)
                        &&& forall|k: int|
                            0 <= k < from || to <= k < pre.draft@.len() ==> is_white(
                                #[trigger] pre.draft@[k],
                            )
                    }
            }
        },
        pre.creating && key == KeyCode::Esc ==> {
            &&& !post.creating
            &&& post.draft@.len() == 0
            &&& action is Nothing
        },
{
    law_trim_leaves_no_white_ends(pre.draft@);
    let from = law_trim_cuts_only_white(pre.draft@);
    let to = from + trimmed(pre.draft@).len();
    assert(trimmed(pre.draft@) == pre.draft@.subrange(from, to));
    assert(pre.draft@ + seq![key->Char_0] =~= pre.draft@.push(key->Char_0));
    if pre.draft@.len() > 0 {
        assert(pre.draft@.drop_last() + seq![pre.draft@.last()] =~= pre.draft@);
    }
}

/// Whatever key is pressed, the screen does what its rules say; and a playlist that
/// is opened is the one that was named, without songs until they come.
pub proof fn law_playlists_follow_the_rules(
    state: &mut PlaylistState,
    key: KeyCode,
    playlists: Vec<PlaylistRow>,
    action: PlaylistAction,
    id: i64,
    name: String,
    open: Detail,
)
    requires
        call_ensures(handle_key, (state, key, &playlists), action),
        call_ensures(Detail::open, (id, name), open),
    ensures
        playlist_step(*old(state), key, playlists@, *final(state), action),
        open.id == id,
        open.name@ == name@,
        open.tracks.tracks@.len() == 0,
        open.tracks.list_state.selected is None,
{
}

/// On an open playlist with songs and none of them selected only `p` and Esc act.
pub proof fn law_open_playlist_without_selection(
    pre: PlaylistState,
    key: KeyCode,
    playlists: Seq<PlaylistRow>,
    post: PlaylistState,
    action: PlaylistAction,
)
    requires
        !pre.creating,
        pre.detail is Some,
        pre.detail->0.tracks.tracks@.len() > 0,
        pre.detail->0.tracks.list_state.selected is None,
        playlist_step(pre, key, playlists, post, action),
    ensures
        key == KeyCode::Char('p') ==> action == PlaylistAction::Play(pre.detail->0.id),
        key == KeyCode::Esc ==> action is CloseDetail,
        key != KeyCode::Char('p') && key != KeyCode::Esc ==> action is Nothing,
{
}

/// Every other key leaves the screen as it is.
pub proof fn law_other_keys_leave_the_playlists(
    pre: PlaylistState,
    c: char,
    playlists: Seq<PlaylistRow>,
    post: PlaylistState,
    action: PlaylistAction,
)
    requires
        !pre.creating,
        playlist_step(pre, KeyCode::Char(c), playlists, post, action),
        c != 'w' && c != 's' && c != 'p',
        pre.detail is Some ==> c != 'x' && c != 'u' && c != 'D',
        pre.detail is None ==> c != 'n' && c != 'd',
    ensures
        post == pre,
        action is Nothing,
{
}

} // verus!
