//! What keys do on every screen.

use vstd::prelude::*;
use vstd::view::View as _;

use crate::app::{related_reloaded, says, song_requested, view_switched, App};
use crate::domain::{clone_tracks, opt_ident, Track, SECOND};
use crate::event::{BackendCommand, UiEvent};
use crate::keys::{normalize_shift, shift_normalized, KeyCode, KeyEvent};
use crate::navigation::{stepped, ListSelection, ListState};
use crate::playback::{
    clamp_seek_target, content_text, next_content, next_repeat, seek_target, PositionClock,
    RepeatMode,
};
use crate::playlists::{handle_key, playlist_step, Detail, PlaylistAction, PlaylistState};
use crate::search::SearchState;
use crate::text::{concat3, decimal, decimal_text, opt_text, trim, trimmed};
use crate::view::{view_of_key, View};

verus! {

/// What a key changes in the settings form.
#[derive(Debug, Clone, Copy, PartialEq, Eq, Structural)]
pub enum SettingsEdit {
    FocusPrevious,
    FocusNext,
    Backspace,
    Insert(char),
}

/// The screen shows the queue, so list keys move its selection.
pub open spec fn shows_queue(a: App) -> bool {
    a.view == View::Related || a.view == View::NowPlaying
}

/// Only the status line and the outbox differ.
pub open spec fn only_reports(pre: App, post: App) -> bool {
    post == (App { status: post.status, outbox: post.outbox, ..pre })
}

/// One command was sent.
pub open spec fn sent_one(pre: App, post: App) -> bool {
    post.outbox@.len() == pre.outbox@.len() + 1 && post.outbox@.drop_last() == pre.outbox@
}

/// Autoplay was switched over.
pub open spec fn autoplay_toggled(pre: App, post: App) -> bool {
    &&& post == (App {
        autoplay: !pre.autoplay,
        status: post.status,
        outbox: post.outbox,
        ..pre
    })
    &&& post.outbox@ == pre.outbox@.push(BackendCommand::SetAutoplay(post.autoplay))
    &&& says(
        post.status,
        if post.autoplay {
            "Autoplay activado: al terminar se reproduce la siguiente recomendación."@
        } else {
            "Autoplay desactivado."@
        },
    )
}

/// Shuffle was switched over.
pub open spec fn shuffle_toggled(pre: App, post: App) -> bool {
    &&& post == (App {
        shuffle: !pre.shuffle,
        status: post.status,
        outbox: post.outbox,
        ..pre
    })
    &&& post.outbox@ == pre.outbox@.push(BackendCommand::SetShuffle(post.shuffle))
    &&& says(
        post.status,
        if post.shuffle {
            "Shuffle activado: siguiente/anterior se aleatorizan."@
        } else {
            "Shuffle desactivado: cola en orden."@
        },
    )
}

pub open spec fn repeat_text(m: RepeatMode) -> Seq<char> {
    match m {
        RepeatMode::Off => "Repetición desactivada: la cola se detiene en el extremo."@,
        RepeatMode::All => "Repetición activada: la cola gira (todas)."@,
        RepeatMode::One => "Repetición activada: siguiente/anterior reinician la canción actual."@,
    }
}

/// The repeat mode went on to the next one.
pub open spec fn repeat_cycled(pre: App, post: App) -> bool {
    &&& post == (App {
        repeat: next_repeat(pre.repeat),
        status: post.status,
        outbox: post.outbox,
        ..pre
    })
    &&& post.outbox@ == pre.outbox@.push(BackendCommand::SetRepeat(post.repeat))
    &&& says(post.status, repeat_text(post.repeat))
}

/// The band went on to the next content. Nothing else changes: no command is
/// sent, the queue and the playback stay as they are.
pub open spec fn content_cycled(pre: App, post: App) -> bool {
    &&& post == (App {
        visual_mode: next_content(pre.visual_mode),
        status: post.status,
        ..pre
    })
    &&& says(
        post.status,
        "Contenido de la banda: "@ + content_text(post.visual_mode)
            + " (Auto: letras si las hay, si no el visual)"@,
    )
}

/// A jump of `delta` seconds was asked for. It starts from the clock, stays in
/// the song and names the song it was asked on; the clock keeps following the
/// audio.
pub open spec fn seek_requested(pre: App, delta: int, now: u64, post: App) -> bool {
    let target = seek_target(pre.reading(now), delta, pre.playback.duration);
    &&& post == (App {
        clock: PositionClock { pending_seek: Some(target as u64), ..pre.clock },
        outbox: post.outbox,
        ..pre
    })
    &&& sent_one(pre, post)
    &&& post.outbox@.last() matches BackendCommand::Seek(secs, song) && secs == target
        / SECOND as int && song@ == (match opt_ident(pre.now_playing) {
        Some(id) => id,
        None => Seq::<char>::empty(),
    })
}

/// What autoplay added was asked to be replaced by the fresh recommendations.
pub open spec fn autoplay_renewed(pre: App, post: App) -> bool {
    &&& only_reports(pre, post)
    &&& if pre.related.fresh@.len() == 0 {
        &&& post.outbox@ == pre.outbox@
        &&& says(post.status, "Sin recomendaciones frescas para renovar el autoplay."@)
    } else {
        &&& sent_one(pre, post)
        &&& post.outbox@.last() matches BackendCommand::ReplaceAutoplay(tracks) && tracks@
            == pre.related.fresh@
        &&& says(
            post.status,
            "Autoplay renovado: "@ + decimal_text(pre.related.fresh@.len())
                + " recomendaciones frescas de la canción en curso."@,
        )
    }
}

/// The mark of the current song was asked to be switched over.
pub open spec fn like_requested(pre: App, post: App) -> bool {
    &&& only_reports(pre, post)
    &&& match pre.now_playing {
        Some(t) => {
            &&& post.outbox@ == pre.outbox@.push(BackendCommand::ToggleLiked(Box::new(t)))
            &&& post.status == pre.status
        },
        None => {
            &&& post.outbox@ == pre.outbox@
            &&& says(post.status, "Sin canción en curso para marcarla como me gusta."@)
        },
    }
}

/// What a key does on the screens that take no text.
pub open spec fn read_only_step(pre: App, code: KeyCode, now: u64, post: App) -> bool {
    if code == KeyCode::Char('q') {
        post == (App { should_quit: true, ..pre })
    } else if code == KeyCode::Esc {
        view_switched(pre, View::NowPlaying, post)
    } else if code == KeyCode::Char(' ') {
        &&& post == (App { outbox: post.outbox, ..pre })
        &&& post.outbox@ == pre.outbox@.push(BackendCommand::Toggle)
    } else if code == KeyCode::Char('a') {
        autoplay_toggled(pre, post)
    } else if code == KeyCode::Char('v') {
        content_cycled(pre, post)
    } else if code == KeyCode::Char('f') {
        shuffle_toggled(pre, post)
    } else if code == KeyCode::Char('t') {
        repeat_cycled(pre, post)
    } else if code == KeyCode::Char('D') || code == KeyCode::Char('A') {
        &&& post == (App { outbox: post.outbox, ..pre })
        &&& post.outbox@ == pre.outbox@.push(
            if code == KeyCode::Char('D') {
                BackendCommand::NextTrack
            } else {
                BackendCommand::PrevTrack
            },
        )
    } else if code == KeyCode::Left {
        seek_requested(pre, -10, now, post)
    } else if code == KeyCode::Right {
        seek_requested(pre, 10, now, post)
    } else if shows_queue(pre) && (code == KeyCode::Char('w') || code == KeyCode::Up) {
        post == (App {
            related: pre.related.with_chosen(
                stepped(pre.related.rows(), pre.related.chosen(), false),
            ),
            ..pre
        })
    } else if shows_queue(pre) && (code == KeyCode::Char('s') || code == KeyCode::Down) {
        post == (App {
            related: pre.related.with_chosen(
                stepped(pre.related.rows(), pre.related.chosen(), true),
            ),
            ..pre
        })
    } else if shows_queue(pre) && code == KeyCode::Enter {
        match pre.related.picked() {
            Some(t) => song_requested(pre, t, post),
            None => related_reloaded(pre, post),
        }
    } else if shows_queue(pre) && code == KeyCode::Char('r') {
        related_reloaded(pre, post)
    } else if shows_queue(pre) && code == KeyCode::Char('R') {
        autoplay_renewed(pre, post)
    } else if code == KeyCode::Char('l') {
        like_requested(pre, post)
    } else {
        post == pre
    }
}

/// A search was started with the trimmed query; a blank one starts nothing.
pub open spec fn search_started(pre: App, post: App) -> bool {
    let query = trimmed(pre.search.input@);
    if query.len() == 0 {
        post == pre
    } else {
        &&& post == (App {
            search: post.search,
            status: post.status,
            outbox: post.outbox,
            ..pre
        })
        &&& post.search == (SearchState {
            editing: false,
            searching: true,
            results: post.search.results,
            related_from: 0,
            list_state: ListState { selected: None },
            last_query: post.search.last_query,
            ..pre.search
        })
        &&& post.search.results@ == Seq::<Track>::empty()
        &&& opt_text(post.search.last_query) == Some(query)
        &&& sent_one(pre, post)
        &&& post.outbox@.last() matches BackendCommand::Search(q) && q@ == query
        &&& says(post.status, "Buscando «"@ + query + "»..."@)
    }
}

/// Only the search field differs, and it was edited.
pub open spec fn query_edited(pre: App, post: App, input: Seq<char>, cursor: int) -> bool {
    &&& post == (App { search: post.search, ..pre })
    &&& post.search.edited_from(pre.search)
    &&& post.search.input@ == input
    &&& post.search.cursor == cursor
    &&& post.search.editing
}

/// Only the cursor of the search field differs.
pub open spec fn cursor_moved(pre: App, post: App, cursor: int) -> bool {
    post == (App { search: SearchState { cursor: cursor as usize, ..pre.search }, ..pre })
}

/// What a key does on the search screen. Letters and digits are text there.
pub open spec fn search_step(pre: App, code: KeyCode, post: App) -> bool {
    let s = pre.search;
    match code {
        KeyCode::Esc => view_switched(pre, View::NowPlaying, post),
        KeyCode::Enter => if s.editing || s.results@.len() == 0 {
            search_started(pre, post)
        } else {
            match s.picked() {
                Some(t) => song_requested(pre, t, post),
                None => post == pre,
            }
        },
        KeyCode::Up => post == (App {
            search: s.with_chosen(stepped(s.rows(), s.chosen(), false)),
            ..pre
        }),
        KeyCode::Down => post == (App {
            search: s.with_chosen(stepped(s.rows(), s.chosen(), true)),
            ..pre
        }),
        KeyCode::Left => cursor_moved(
            pre,
            post,
            if s.cursor > 0 {
                s.cursor - 1
            } else {
                0
            },
        ),
        KeyCode::Right => cursor_moved(
            pre,
            post,
            if s.cursor < s.input@.len() {
                s.cursor + 1
            } else {
                s.cursor as int
            },
        ),
        KeyCode::Home => cursor_moved(pre, post, 0),
        KeyCode::End => cursor_moved(pre, post, s.input@.len() as int),
        KeyCode::Backspace => if s.cursor > 0 {
            query_edited(pre, post, s.input@.remove(s.cursor - 1), s.cursor - 1)
        } else {
            post == pre
        },
        KeyCode::Delete => if s.cursor < s.input@.len() {
            query_edited(pre, post, s.input@.remove(s.cursor as int), s.cursor as int)
        } else {
            post == pre
        },
        KeyCode::Char(c) => if c == '\n' {
            post == pre
        } else {
            query_edited(pre, post, s.input@.insert(s.cursor as int, c), s.cursor + 1)
        },
        _ => post == pre,
    }
}

/// What a key does on the settings screen: nothing before the form is filled in.
pub open spec fn settings_step(
    pre: App,
    code: KeyCode,
    post: App,
    edit: Option<SettingsEdit>,
) -> bool {
    if !pre.settings_ready {
        post == pre && edit is None
    } else {
        match code {
            KeyCode::Esc => view_switched(pre, View::NowPlaying, post) && edit is None,
            KeyCode::Enter => {
                &&& only_reports(pre, post)
                &&& post.outbox@ == pre.outbox@.push(BackendCommand::SaveSettings)
                &&& says(post.status, "Guardando ajustes en .env..."@)
                &&& edit is None
            },
            KeyCode::Up => post == pre && edit == Some(SettingsEdit::FocusPrevious),
            KeyCode::Down | KeyCode::Tab => post == pre && edit == Some(SettingsEdit::FocusNext),
            KeyCode::Backspace => post == pre && edit == Some(SettingsEdit::Backspace),
            KeyCode::Char(c) => post == pre && edit == Some(SettingsEdit::Insert(c)),
            _ => post == pre && edit is None,
        }
    }
}

/// What an action of the Playlists screen does to the application. `mid` is
/// the state after the screen handled the key.
pub open spec fn action_step(mid: App, action: PlaylistAction, post: App) -> bool {
    match action {
        PlaylistAction::Nothing => post == mid,
        PlaylistAction::Open(id, name) => {
            &&& post == (App {
                playlist_view: post.playlist_view,
                status: post.status,
                outbox: post.outbox,
                ..mid
            })
            &&& post.playlist_view == (PlaylistState {
                detail: post.playlist_view.detail,
                ..mid.playlist_view
            })
            &&& post.playlist_view.detail matches Some(d) && d.id == id && d.name == name
                && d.tracks.is_blank()
            &&& post.outbox@ == mid.outbox@.push(BackendCommand::PlaylistTracks(id))
            &&& says(post.status, "Cargando «"@ + name@ + "»..."@)
        },
        PlaylistAction::Play(id) => {
            &&& only_reports(mid, post)
            &&& post.outbox@ == mid.outbox@.push(BackendCommand::PlayPlaylist(id))
            &&& says(post.status, "Reproduciendo la playlist como cola..."@)
        },
        PlaylistAction::PlayTrack(t) => song_requested(mid, t, post),
        PlaylistAction::Create(name) => {
            &&& only_reports(mid, post)
            &&& post.outbox@ == mid.outbox@.push(BackendCommand::CreatePlaylist(name))
            &&& says(post.status, "Creando playlist «"@ + name@ + "»..."@)
        },
        PlaylistAction::Delete(id) => {
            &&& only_reports(mid, post)
            &&& post.outbox@ == mid.outbox@.push(BackendCommand::DeletePlaylist(id))
            &&& says(post.status, "Borrando playlist..."@)
        },
        PlaylistAction::RemoveTrack(pid, tid) => {
            &&& only_reports(mid, post)
            &&& post.outbox@ == mid.outbox@.push(BackendCommand::RemoveFromPlaylist(pid, tid))
            &&& says(post.status, "Quitando track de la playlist..."@)
        },
        PlaylistAction::MoveTrack(pid, tid, to) => {
            &&& only_reports(mid, post)
            &&& post.outbox@ == mid.outbox@.push(BackendCommand::MovePlaylistTrack(pid, tid, to))
            &&& says(post.status, "Moviendo track..."@)
        },
        PlaylistAction::CloseDetail => post == (App {
            playlist_view: PlaylistState { detail: None, ..mid.playlist_view },
            status: None,
            ..mid
        }),
        PlaylistAction::LeaveView => view_switched(mid, View::NowPlaying, post),
    }
}

/// The state in between: the Playlists screen has handled the key and asks for
/// `action`.
pub open spec fn playlists_handled(pre: App, code: KeyCode, mid: App, action: PlaylistAction) -> bool {
    &&& mid == (App { playlist_view: mid.playlist_view, ..pre })
    &&& playlist_step(pre.playlist_view, code, pre.playlists@, mid.playlist_view, action)
}

/// What a key does on the Playlists screen: `q` leaves the program, any other
/// key goes to the screen, and the action it asks for is carried out.
pub open spec fn playlists_screen_step(pre: App, code: KeyCode, post: App) -> bool {
    if code == KeyCode::Char('q') {
        post == (App { should_quit: true, ..pre })
    } else {
        exists|mid: App, action: PlaylistAction|
            playlists_handled(pre, code, mid, action) && #[trigger] action_step(mid, action, post)
    }
}

/// What a key does. Control+C leaves the program from anywhere; an open help is
/// closed by any other key; `h` opens it unless text is typed; Shift+digit
/// changes the screen; the rest goes to the screen.
pub open spec fn key_step(
    pre: App,
    key: KeyEvent,
    now: u64,
    post: App,
    edit: Option<SettingsEdit>,
) -> bool {
    let k = shift_normalized(key);
    if k.code == KeyCode::Char('c') && k.modifiers.control {
        post == (App { should_quit: true, ..pre }) && edit is None
    } else if pre.show_help {
        post == (App { show_help: false, ..pre }) && edit is None
    } else if (k.code == KeyCode::Char('h') || k.code == KeyCode::Char('H'))
        && !k.modifiers.control && !pre.editing() {
        post == (App { show_help: true, ..pre }) && edit is None
    } else {
        match view_of_key(k.code, k.modifiers) {
            Some(v) => view_switched(pre, v, post) && edit is None,
            None => match pre.view {
                View::Search => search_step(pre, k.code, post) && edit is None,
                View::Settings => settings_step(pre, k.code, post, edit),
                View::Playlists => playlists_screen_step(pre, k.code, post) && edit is None,
                _ => read_only_step(pre, k.code, now, post) && edit is None,
            },
        }
    }
}

impl App {
    fn cycle_repeat(&mut self)
        ensures
            repeat_cycled(*old(self), *final(self)),
    {
        let next = self.repeat.next();
        self.repeat = next;
        self.send(BackendCommand::SetRepeat(next));
        self.status = Some(
            match next {
                RepeatMode::Off =>
                    "Repetición desactivada: la cola se detiene en el extremo.".to_string(),
                RepeatMode::All => "Repetición activada: la cola gira (todas).".to_string(),
                RepeatMode::One =>
                    "Repetición activada: siguiente/anterior reinician la canción actual.".to_string(),
            },
        );
    }

    fn toggle_shuffle(&mut self)
        ensures
            shuffle_toggled(*old(self), *final(self)),
    {
        let next = !self.shuffle;
        self.shuffle = next;
        self.send(BackendCommand::SetShuffle(next));
        self.status = Some(
            if next {
                "Shuffle activado: siguiente/anterior se aleatorizan.".to_string()
            } else {
                "Shuffle desactivado: cola en orden.".to_string()
            },
        );
    }

    fn toggle_autoplay(&mut self)
        ensures
            autoplay_toggled(*old(self), *final(self)),
    {
        self.autoplay = !self.autoplay;
        self.send(BackendCommand::SetAutoplay(self.autoplay));
        self.status = Some(
            if self.autoplay {
                "Autoplay activado: al terminar se reproduce la siguiente recomendación.".to_string()
            } else {
                "Autoplay desactivado.".to_string()
            },
        );
    }

    fn cycle_content(&mut self)
        ensures
            content_cycled(*old(self), *final(self)),
    {
        self.visual_mode = self.visual_mode.next();
        self.status = Some(
            concat3(
                "Contenido de la banda: ",
                self.visual_mode.label(),
                " (Auto: letras si las hay, si no el visual)",
            ),
        );
    }

    fn request_seek(&mut self, delta: i64, now: u64)
        ensures
            seek_requested(*old(self), delta as int, now, *final(self)),
    {
        let target: u64 = clamp_seek_target(self.karaoke_now(now), delta, self.playback.duration);
        self.clock.begin_seek(target);
        let for_track = match &self.now_playing {
            Some(t) => t.identifier(),
            None => String::new(),
        };
        self.send(BackendCommand::Seek(target / SECOND, for_track));
        assert(self.outbox@.drop_last() =~= old(self).outbox@);
    }

    /// Asks the backend to replace what autoplay added to the queue by the fresh
    /// recommendations of the current song. What the user chose stays.
    pub fn replace_related_queue(&mut self)
        ensures
            autoplay_renewed(*old(self), *final(self)),
    {
        let fresh = clone_tracks(&self.related.fresh);
        let n: usize = fresh.len();
        if n == 0 {
            self.status = Some(
                "Sin recomendaciones frescas para renovar el autoplay.".to_string(),
            );
            return;
        }
        self.send(BackendCommand::ReplaceAutoplay(fresh));
        let count = decimal(n as u64);
        self.status = Some(
            concat3(
                "Autoplay renovado: ",
                count.as_str(),
                " recomendaciones frescas de la canción en curso.",
            ),
        );
        assert(self.outbox@.drop_last() =~= old(self).outbox@);
    }

    fn request_like(&mut self)
        ensures
            like_requested(*old(self), *final(self)),
    {
        match &self.now_playing {
            Some(t) => {
                let cmd = BackendCommand::ToggleLiked(Box::new(t.clone()));
                self.send(cmd);
            },
            None => {
                self.status = Some(
                    "Sin canción en curso para marcarla como me gusta.".to_string(),
                );
            },
        }
    }

    /// Keys of the screens that take no text.
    pub fn on_read_only_key(&mut self, key: KeyEvent, now: u64)
        requires
            old(self).wf(),
        ensures
            read_only_step(*old(self), key.code, now, *final(self)),
            final(self).wf(),
    {
        let queue_shown = matches!(self.view, View::Related | View::NowPlaying);
        match key.code {
            KeyCode::Char('q') => {
                self.should_quit = true;
            },
            KeyCode::Esc => self.switch_view(View::NowPlaying),
            KeyCode::Char(' ') => self.send(BackendCommand::Toggle),
            KeyCode::Char('a') => self.toggle_autoplay(),
            KeyCode::Char('v') => self.cycle_content(),
            KeyCode::Char('f') => self.toggle_shuffle(),
            KeyCode::Char('t') => self.cycle_repeat(),
            KeyCode::Char('D') => self.skip_track(true),
            KeyCode::Char('A') => self.skip_track(false),
            KeyCode::Left => self.request_seek(-10, now),
            KeyCode::Right => self.request_seek(10, now),
            KeyCode::Char('w') | KeyCode::Up => {
                if queue_shown {
                    self.related.step(false);
                }
            },
            KeyCode::Char('s') | KeyCode::Down => {
                if queue_shown {
                    self.related.step(true);
                }
            },
            KeyCode::Enter => {
                if queue_shown {
                    let track = match self.related.selected() {
                        Some(t) => Some(t.clone()),
                        None => None,
                    };
                    match track {
                        Some(t) => self.save_and_play(t),
                        None => self.reload_related(),
                    }
                }
            },
            KeyCode::Char('r') => {
                if queue_shown {
                    self.reload_related();
                }
            },
            KeyCode::Char('R') => {
                if queue_shown {
                    self.replace_related_queue();
                }
            },
            KeyCode::Char('l') => self.request_like(),
            _ => {},
        }
    }

    fn start_search(&mut self)
        ensures
            search_started(*old(self), *final(self)),
    {
        let text = self.search.text();
        let query = trim(text.as_str());
        if query.as_str().is_empty() {
            return;
        }
        self.search.last_query = Some(query.clone());
        self.search.editing = false;
        self.search.searching = true;
        self.search.results.clear();
        self.search.related_from = 0;
        self.search.list_state.select(None);
        self.status = Some(concat3("Buscando «", query.as_str(), "»..."));
        self.send(BackendCommand::Search(query));
        assert(self.outbox@.drop_last() =~= old(self).outbox@);
    }

    /// Keys of the search screen.
    pub fn on_search_key(&mut self, key: KeyEvent)
        requires
            old(self).wf(),
            old(self).search.input@.len() < usize::MAX,
        ensures
            search_step(*old(self), key.code, *final(self)),
            final(self).wf(),
    {
        match key.code {
            KeyCode::Esc => self.switch_view(View::NowPlaying),
            KeyCode::Enter => {
                if self.search.editing || self.search.results.len() == 0 {
                    self.start_search();
                } else {
                    let track = match self.search.selected() {
                        Some(t) => Some(t.clone()),
                        None => None,
                    };
                    if let Some(t) = track {
                        self.save_and_play(t);
                    }
                }
            },
            KeyCode::Up => self.search.select_prev(),
            KeyCode::Down => self.search.select_next(),
            KeyCode::Left => self.search.move_cursor_left(),
            KeyCode::Right => self.search.move_cursor_right(),
            KeyCode::Home => self.search.move_cursor_home(),
            KeyCode::End => self.search.move_cursor_end(),
            KeyCode::Backspace => self.search.backspace(),
            KeyCode::Delete => self.search.delete(),
            KeyCode::Char('\n') => {},
            KeyCode::Char(c) => self.search.insert_char(c),
            _ => {},
        }
    }

    /// Keys of the settings screen. What they change in the form is returned.
    pub fn on_settings_key(&mut self, key: KeyEvent) -> (edit: Option<SettingsEdit>)
        ensures
            settings_step(*old(self), key.code, *final(self), edit),
    {
        if !self.settings_ready {
            return None;
        }
        match key.code {
            KeyCode::Esc => {
                self.switch_view(View::NowPlaying);
                None
            },
            KeyCode::Enter => {
                self.status = Some("Guardando ajustes en .env...".to_string());
                self.send(BackendCommand::SaveSettings);
                None
            },
            KeyCode::Up => Some(SettingsEdit::FocusPrevious),
            KeyCode::Down | KeyCode::Tab => Some(SettingsEdit::FocusNext),
            KeyCode::Backspace => Some(SettingsEdit::Backspace),
            KeyCode::Char(c) => Some(SettingsEdit::Insert(c)),
            _ => None,
        }
    }

    /// Sends a command and says so in the status line.
    fn ask(&mut self, cmd: BackendCommand, text: String)
        ensures
            only_reports(*old(self), *final(self)),
            final(self).outbox@ == old(self).outbox@.push(cmd),
            final(self).status == Some(text),
    {
        self.send(cmd);
        self.status = Some(text);
    }

    fn open_playlist(&mut self, id: i64, name: String)
        ensures
            action_step(*old(self), PlaylistAction::Open(id, name), *final(self)),
    {
        self.playlist_view.detail = Some(Detail::open(id, name.clone()));
        self.ask(
            BackendCommand::PlaylistTracks(id),
            concat3("Cargando «", name.as_str(), "»..."),
        );
    }

    /// Carries out what the Playlists screen asks for.
    pub fn perform(&mut self, action: PlaylistAction)
        requires
            old(self).thumbnails.wf(),
        ensures
            action_step(*old(self), action, *final(self)),
    {
        match action {
            PlaylistAction::Nothing => {},
            PlaylistAction::Open(id, name) => self.open_playlist(id, name),
            PlaylistAction::Play(id) => self.ask(
                BackendCommand::PlayPlaylist(id),
                "Reproduciendo la playlist como cola...".to_string(),
            ),
            PlaylistAction::PlayTrack(track) => self.save_and_play(track),
            PlaylistAction::Create(name) => {
                let text = concat3("Creando playlist «", name.as_str(), "»...");
                self.ask(BackendCommand::CreatePlaylist(name), text);
            },
            PlaylistAction::Delete(id) => self.ask(
                BackendCommand::DeletePlaylist(id),
                "Borrando playlist...".to_string(),
            ),
            PlaylistAction::RemoveTrack(pid, tid) => self.ask(
                BackendCommand::RemoveFromPlaylist(pid, tid),
                "Quitando track de la playlist...".to_string(),
            ),
            PlaylistAction::MoveTrack(pid, tid, to) => self.ask(
                BackendCommand::MovePlaylistTrack(pid, tid, to),
                "Moviendo track...".to_string(),
            ),
            PlaylistAction::CloseDetail => {
                self.playlist_view.detail = None;
                self.status = None;
            },
            PlaylistAction::LeaveView => self.switch_view(View::NowPlaying),
        }
    }

    /// Keys of the Playlists screen.
    pub fn on_playlists_key(&mut self, key: KeyEvent)
        requires
            old(self).wf(),
        ensures
            playlists_screen_step(*old(self), key.code, *final(self)),
            final(self).wf(),
    {
        if key.code == KeyCode::Char('q') {
            self.should_quit = true;
            return;
        }
        let action = handle_key(&mut self.playlist_view, key.code, &self.playlists);
        let ghost mid = *self;
        let ghost asked = action;
        self.perform(action);
        assert(playlists_handled(*old(self), key.code, mid, asked) && action_step(
            mid,
            asked,
            *self,
        ));
    }

    /// Handles a key. What it changes in the settings form is returned.
    pub fn on_key(&mut self, key: KeyEvent, now: u64) -> (edit: Option<SettingsEdit>)
        requires
            old(self).wf(),
            old(self).search.input@.len() < usize::MAX,
        ensures
            key_step(*old(self), key, now, *final(self), edit),
            final(self).wf(),
    {
        let key = normalize_shift(key);
        if key.code == KeyCode::Char('c') && key.modifiers.control {
            self.should_quit = true;
            return None;
        }
        if self.show_help {
            self.show_help = false;
            return None;
        }
        if matches!(key.code, KeyCode::Char('h') | KeyCode::Char('H')) && !key.modifiers.control
            && !self.is_editing_text() {
            self.show_help = true;
            return None;
        }
        if let Some(view) = View::from_shift_key(key.code, key.modifiers) {
            self.switch_view(view);
            return None;
        }
        match self.view {
            View::Search => {
                self.on_search_key(key);
                None
            },
            View::Settings => self.on_settings_key(key),
            View::Playlists => {
                self.on_playlists_key(key);
                None
            },
            _ => {
                self.on_read_only_key(key, now);
                None
            },
        }
    }

    /// Takes an event of the terminal; `None` means that the terminal is gone.
    pub fn on_ui(&mut self, event: Option<UiEvent>, now: u64) -> (edit: Option<SettingsEdit>)
        requires
            old(self).wf(),
            old(self).search.input@.len() < usize::MAX,
        ensures
            match event {
                Some(UiEvent::Key(key)) => key_step(*old(self), key, now, *final(self), edit),
                Some(UiEvent::Mouse(mouse)) => edit is None && *final(self) == (App {
                    mouse_pos: Some((mouse.column, mouse.row)),
                    mouse_click: old(self).mouse_click || mouse.left_down,
                    ..*old(self)
                }),
                Some(UiEvent::Resize(_, _)) => edit is None && *final(self) == (App {
                    mouse_pos: None,
                    ..*old(self)
                }),
                None => edit is None && *final(self) == (App { should_quit: true, ..*old(self) }),
            },
            final(self).wf(),
    {
        match event {
            Some(UiEvent::Key(key)) => self.on_key(key, now),
            Some(UiEvent::Mouse(mouse)) => {
                self.on_mouse(mouse);
                None
            },
            Some(UiEvent::Resize(_, _)) => {
                self.mouse_pos = None;
                None
            },
            None => {
                self.should_quit = true;
                None
            },
        }
    }
}

} // verus!
