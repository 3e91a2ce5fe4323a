use tunefold::app::App;
use tunefold::domain::{
    Album, LyricLine, LyricSheet, Source, SyncLyrics, Track, MILLISECOND, SECOND,
};
use tunefold::event::{BackendCommand, BackendEvent};
use tunefold::glyphs::{GlyphTheme, UiGlyphs};
use tunefold::keys::{KeyCode, KeyEvent, KeyModifiers};
use tunefold::playback::{PlaybackState, PlaybackStatus, QueueItemOrigin, RepeatMode};
use tunefold::view::View;

const NOW: u64 = 10_000 * SECOND;

fn new_app() -> App {
    App::new(UiGlyphs::new(GlyphTheme::Unicode))
}

fn sample_track() -> Track {
    let mut track = Track::new(
        "Bohemian Rhapsody".to_string(),
        vec!["Queen".to_string()],
        Source::YouTube,
    );
    track.album = Some(Album { title: "A Night at the Opera".to_string(), release_date: None });
    track.genres = std::sync::Arc::new(vec!["rock".to_string()]);
    track.duration = Some(354 * SECOND);
    track
}

fn rec_track(id: &str) -> Track {
    let mut t = sample_track();
    t.external_id = Some(id.to_string());
    t
}

/// Lines of the form `[mm:ss] text`.
fn lyrics(text: &str) -> SyncLyrics {
    let mut lines = Vec::new();
    for line in text.lines() {
        if let Some((time, words)) = line.trim().trim_start_matches('[').split_once(']') {
            if let Some((m, s)) = time.split_once(':') {
                let secs = m.parse::<f64>().unwrap() * 60.0 + s.parse::<f64>().unwrap();
                lines.push(LyricLine {
                    at: (secs * SECOND as f64) as u64,
                    text: words.trim().to_string(),
                });
            }
        }
    }
    SyncLyrics { lines }
}

fn sheet(text: &str) -> LyricSheet {
    LyricSheet { text: text.to_string(), lyrics: lyrics(text) }
}

/// Takes the commands out; whether one of the expected kind was among them.
fn sent(app: &mut App, expect: BackendCommand) -> bool {
    app.take_commands()
        .iter()
        .any(|c| std::mem::discriminant(c) == std::mem::discriminant(&expect))
}

#[test]
fn help_overlay_toggles_on_h_and_any_key_closes() {
    let mut app = new_app();
    app.view = View::NowPlaying;
    assert!(!app.show_help);

    app.on_key(KeyEvent::new(KeyCode::Char('H'), KeyModifiers::none()), NOW);
    assert!(
        app.show_help,
        "H (mayúscula sin modificador) debe abrir la ayuda"
    );

    app.on_key(KeyEvent::new(KeyCode::Char(' '), KeyModifiers::none()), NOW);
    assert!(!app.show_help, "cualquier tecla cierra la ayuda");

    app.on_key(KeyEvent::new(KeyCode::Char('h'), KeyModifiers::shift()), NOW);
    assert!(app.show_help, "h+SHIFT (Varmilo) debe abrir la ayuda");
    app.on_key(KeyEvent::new(KeyCode::Char('q'), KeyModifiers::none()), NOW);
    assert!(!app.show_help, "q también la cierra");

    app.view = View::Search;
    app.search.editing = true;
    app.on_key(KeyEvent::new(KeyCode::Char('h'), KeyModifiers::none()), NOW);
    assert!(!app.show_help, "en búsqueda la h es texto, no ayuda");
}

#[test]
fn digits_do_not_navigate_but_shift_does() {
    let mut app = new_app();

    app.view = View::NowPlaying;
    let key = KeyEvent::new(KeyCode::Char('3'), KeyModifiers::none());
    app.on_key(key, NOW);
    assert_eq!(app.view, View::NowPlaying, "el dígito suelto no navega");

    let key = KeyEvent::new(KeyCode::Char('3'), KeyModifiers::shift());
    app.on_key(key, NOW);
    assert_eq!(app.view, View::Search, "Shift+3 (dígito) debe ir a Search");

    app.view = View::Sources;
    let key = KeyEvent::new(KeyCode::Char('#'), KeyModifiers::none());
    app.on_key(key, NOW);
    assert_eq!(app.view, View::Search, "Shift+3 (#) debe ir a Search");
    let key = KeyEvent::new(KeyCode::Char('!'), KeyModifiers::none());
    app.on_key(key, NOW);
    assert_eq!(
        app.view,
        View::NowPlaying,
        "Shift+1 (!) debe ir a Now Playing"
    );

    app.view = View::Search;
    let key = KeyEvent::new(KeyCode::Char('4'), KeyModifiers::none());
    app.on_key(key, NOW);
    assert_eq!(app.view, View::Search, "el dígito debe quedar en el input");
    assert_eq!(app.search.text(), "4");
}

#[test]
fn q_quits_only_in_read_only_views() {
    let mut app = new_app();

    app.view = View::NowPlaying;
    app.on_key(KeyEvent::new(KeyCode::Char('q'), KeyModifiers::none()), NOW);
    assert!(app.should_quit, "q debe salir desde vistas de solo lectura");

    let mut app = new_app();
    app.view = View::Search;
    app.on_key(KeyEvent::new(KeyCode::Char('q'), KeyModifiers::none()), NOW);
    assert!(
        !app.should_quit,
        "q no debe salir desde el input de búsqueda"
    );
    assert_eq!(app.search.text(), "q");
}

#[test]
fn toggling_autoplay_notifies_backend() {
    let mut app = new_app();
    assert!(app.autoplay, "el autoplay arranca activado");

    app.on_key(KeyEvent::new(KeyCode::Char('a'), KeyModifiers::none()), NOW);
    assert!(!app.autoplay);
    match app.take_commands().into_iter().next() {
        Some(BackendCommand::SetAutoplay(false)) => {}
        other => panic!("esperaba SetAutoplay(false), llegó {other:?}"),
    }
}

#[test]
fn nowplaying_arrows_navigate_recommendations() {
    let mut app = new_app();
    app.view = View::NowPlaying;
    app.related.tracks = vec![sample_track(), sample_track(), sample_track()];
    app.related.list_state.selected = Some(0);

    app.on_key(KeyEvent::new(KeyCode::Down, KeyModifiers::none()), NOW);
    assert_eq!(app.related.list_state.selected, Some(1));
    app.on_key(KeyEvent::new(KeyCode::Down, KeyModifiers::none()), NOW);
    assert_eq!(app.related.list_state.selected, Some(2));
    app.on_key(KeyEvent::new(KeyCode::Up, KeyModifiers::none()), NOW);
    assert_eq!(app.related.list_state.selected, Some(1));
}

#[test]
fn nowplaying_enter_plays_selected_recommendation() {
    let mut app = new_app();
    app.view = View::NowPlaying;
    app.related.tracks = vec![sample_track()];
    app.related.list_state.selected = Some(0);

    app.on_key(KeyEvent::new(KeyCode::Enter, KeyModifiers::none()), NOW);
    let cmds = app.take_commands();
    assert!(
        cmds.iter().any(|c| matches!(c, BackendCommand::Play(_))),
        "Enter debe reproducir la selección: {cmds:?}"
    );
}

#[test]
fn nowplaying_enter_without_selection_loads_related() {
    let mut app = new_app();
    app.view = View::NowPlaying;
    app.now_playing = Some(sample_track());

    app.on_key(KeyEvent::new(KeyCode::Enter, KeyModifiers::none()), NOW);
    match app.take_commands().into_iter().next() {
        Some(BackendCommand::LoadRelated(..)) => {}
        other => panic!("esperaba LoadRelated, llegó {other:?}"),
    }
}

#[test]
fn new_playback_track_auto_loads_related() {
    let mut app = new_app();
    app.view = View::NowPlaying;

    let status = PlaybackStatus {
        track: Some(sample_track()),
        state: PlaybackState::Playing,
        position: 0,
        duration: None,
        stalled: false,
    };
    app.on_backend(BackendEvent::PlaybackStarted {
        status,
        stats: vec![],
    }, NOW);
    let mut found_related = false;
    for cmd in app.take_commands() {
        match cmd {
            BackendCommand::LoadRelated(..) => found_related = true,
            BackendCommand::LoadHistory => {}
            BackendCommand::Thumbnail(_) => {}
            other => panic!("comando inesperado {other:?}"),
        }
    }
    assert!(found_related, "debe pedir recomendaciones del nuevo track");
}

#[test]
fn shift_d_skips_to_next_recommendation() {
    let mut app = new_app();
    app.view = View::NowPlaying;
    app.related.tracks = vec![rec_track("a"), rec_track("b"), rec_track("c")];
    app.now_playing = Some(rec_track("a"));

    app.on_key(KeyEvent::new(KeyCode::Char('D'), KeyModifiers::shift()), NOW);
    assert!(
        sent(&mut app, BackendCommand::NextTrack),
        "Shift+D debe pedir la siguiente de la cola"
    );
}

#[test]
fn shift_d_wraps_to_first_after_last() {
    let mut app = new_app();
    app.view = View::NowPlaying;
    app.related.tracks = vec![rec_track("a"), rec_track("b"), rec_track("c")];
    app.now_playing = Some(rec_track("c"));

    app.on_key(KeyEvent::new(KeyCode::Char('D'), KeyModifiers::none()), NOW);
    assert!(sent(&mut app, BackendCommand::NextTrack));
}

#[test]
fn shift_a_returns_to_previous() {
    let mut app = new_app();
    app.view = View::NowPlaying;
    app.related.tracks = vec![rec_track("a"), rec_track("b"), rec_track("c")];
    app.now_playing = Some(rec_track("b"));

    app.on_key(KeyEvent::new(KeyCode::Char('A'), KeyModifiers::shift()), NOW);
    assert!(
        sent(&mut app, BackendCommand::PrevTrack),
        "Shift+A debe pedir la anterior de la cola"
    );
}

#[test]
fn shift_a_wraps_from_first_to_last() {
    let mut app = new_app();
    app.view = View::NowPlaying;
    app.related.tracks = vec![rec_track("a"), rec_track("b"), rec_track("c")];
    app.now_playing = Some(rec_track("a"));

    app.on_key(KeyEvent::new(KeyCode::Char('A'), KeyModifiers::none()), NOW);
    assert!(sent(&mut app, BackendCommand::PrevTrack));
}

#[test]
fn skip_delegates_to_backend_even_without_local_list() {
    let mut app = new_app();
    app.view = View::NowPlaying;
    app.now_playing = Some(rec_track("b"));
    app.related.list_state.selected = Some(0);

    app.on_key(KeyEvent::new(KeyCode::Char('D'), KeyModifiers::shift()), NOW);
    assert!(
        sent(&mut app, BackendCommand::NextTrack),
        "el salto se delega al backend aunque la lista local esté vacía"
    );
}

#[test]
fn skip_without_recommendations_still_delegates() {
    let mut app = new_app();
    app.view = View::NowPlaying;

    app.on_key(KeyEvent::new(KeyCode::Char('D'), KeyModifiers::shift()), NOW);
    assert!(sent(&mut app, BackendCommand::NextTrack));
}

#[test]
fn same_track_does_not_reload_related() {
    let mut app = new_app();
    app.view = View::NowPlaying;

    let status = PlaybackStatus {
        track: Some(sample_track()),
        state: PlaybackState::Playing,
        position: 0,
        duration: None,
        stalled: false,
    };
    app.on_backend(BackendEvent::Playback(status), NOW);
    app.take_commands();

    let status2 = PlaybackStatus {
        track: Some(sample_track()),
        state: PlaybackState::Playing,
        position: (5 * SECOND),
        duration: None,
        stalled: false,
    };
    app.on_backend(BackendEvent::Playback(status2), NOW);
    assert!(app.take_commands().is_empty(), "no debe recargar recomendaciones");
}

#[test]
fn stale_related_response_is_ignored() {
    let mut app = new_app();
    app.now_playing = Some(sample_track());

    let mut other = sample_track();
    other.title = "Otra canción".to_string();
    app.on_backend(BackendEvent::Related {
        track: Box::new(other),
        related: vec![sample_track()],
        queue: vec![sample_track()],
        origins: vec![QueueItemOrigin::Recommendation],
        synced: None,
        generation: 1,
    }, NOW);
    assert!(app.related.tracks.is_empty(), "respuesta obsoleta ignorada");
}

#[test]
fn related_without_synced_shows_clean_unavailable_state() {
    let mut app = new_app();
    app.now_playing = Some(sample_track());
    let _ = app.recs.request(&sample_track().identifier()).unwrap();

    app.on_backend(BackendEvent::Related {
        track: Box::new(sample_track()),
        related: vec![],
        queue: vec![],
        origins: vec![],
        synced: None,
        generation: 1,
    }, NOW);
    assert!(app.related.synced.is_none());
    assert!(
        app.related.synced_unavailable,
        "sin LRC → estado limpio de 'letras sincronizadas no disponibles'"
    );
}

#[test]
fn related_with_synced_enables_karaoke() {
    let mut app = new_app();
    app.now_playing = Some(sample_track());
    let _ = app.recs.request(&sample_track().identifier()).unwrap();

    app.on_backend(BackendEvent::Related {
        track: Box::new(sample_track()),
        related: vec![],
        queue: vec![],
        origins: vec![],
        synced: Some(sheet("[00:01.00] hola\n[00:05.00] mundo\n")),
        generation: 1,
    }, NOW);
    assert!(
        app.related.synced.is_some(),
        "el LRC de LRCLIB habilita el karaoke"
    );
    assert!(!app.related.synced_unavailable);
}

#[test]
fn related_with_empty_synced_is_treated_as_unavailable() {
    let mut app = new_app();
    app.now_playing = Some(sample_track());
    let _ = app.recs.request(&sample_track().identifier()).unwrap();

    app.on_backend(BackendEvent::Related {
        track: Box::new(sample_track()),
        related: vec![],
        queue: vec![],
        origins: vec![],
        synced: Some(sheet("   ")),
        generation: 1,
    }, NOW);
    assert!(app.related.synced.is_none());
    assert!(
        app.related.synced_unavailable,
        "un LRC vacío no habilita el karaoke"
    );
}

#[test]
fn karaoke_clock_ignores_small_blips_and_reanchors_on_real_restart() {
    let mut app = new_app();

    let track = rec_track("song-1");
    let ev = |pos_ms: u64| PlaybackStatus {
        track: Some(track.clone()),
        state: PlaybackState::Playing,
        position: (pos_ms * MILLISECOND),
        duration: Some((200 * SECOND)),
        stalled: false,
    };

    app.on_backend(BackendEvent::PlaybackStarted {
        status: ev(10_000),
        stats: vec![],
    }, NOW);
    assert_eq!(app.clock.position, (10 * SECOND));

    app.on_backend(BackendEvent::Playback(ev(9_800)), NOW);
    assert_eq!(
        app.clock.position,
        (10 * SECOND),
        "blip espurio ignorado"
    );

    app.on_backend(BackendEvent::Playback(ev(0)), NOW);
    assert_eq!(
        app.clock.position,
        0,
        "reinicio real re-anclado"
    );

    app.on_backend(BackendEvent::Playback(ev(15_000)), NOW);
    assert_eq!(app.clock.position, (15 * SECOND));
}

#[test]
fn karaoke_clock_resets_on_new_track_and_clears_lyrics() {
    let mut app = new_app();
    app.related
        .set_synced(Some(lyrics("[00:01.00] hola\n")));

    let ev = |t: &Track, pos: u64| PlaybackStatus {
        track: Some(t.clone()),
        state: PlaybackState::Playing,
        position: (pos * SECOND),
        duration: None,
        stalled: false,
    };
    app.on_backend(BackendEvent::PlaybackStarted {
        status: ev(&rec_track("song-1"), 90),
        stats: vec![],
    }, NOW);
    assert_eq!(app.clock.position, (90 * SECOND));

    app.on_backend(BackendEvent::PlaybackStarted {
        status: ev(&rec_track("song-2"), 3),
        stats: vec![],
    }, NOW);
    assert_eq!(app.clock.position, (3 * SECOND));
    assert!(
        app.related.synced.is_none(),
        "letras de la canción anterior descartadas"
    );
    assert!(
        !app.related.synced_unavailable,
        "sin letras pedidas aún no es un 'no disponible'"
    );
}

#[test]
fn same_track_playback_started_rewinds_karaoke() {
    let mut app = new_app();
    let track = rec_track("song-1");
    app.on_backend(BackendEvent::PlaybackStarted {
        status: PlaybackStatus {
            track: Some(track.clone()),
            state: PlaybackState::Playing,
            position: (120 * SECOND),
            duration: Some((200 * SECOND)),
            stalled: false,
        },
        stats: vec![],
    }, NOW);
    app.related
        .set_synced(Some(lyrics("[00:01.00] hola\n[00:02.00] mundo\n")));
    app.related.scroll.lines = vec![0, 1];
    app.clock.begin_seek((10 * SECOND));
    let generation = app.recs.loading.as_ref().expect("petición en vuelo").generation;
    app.on_backend(BackendEvent::Related {
        track: Box::new(rec_track("song-1")),
        related: vec![],
        queue: vec![],
        origins: vec![],
        synced: Some(sheet("[00:01.00] hola\n[00:02.00] mundo\n")),
        generation,
    }, NOW);

    app.on_backend(BackendEvent::PlaybackStarted {
        status: PlaybackStatus {
            track: Some(track),
            state: PlaybackState::Playing,
            position: (1 * SECOND),
            duration: Some((200 * SECOND)),
            stalled: false,
        },
        stats: vec![],
    }, NOW);
    assert_eq!(app.clock.position, (1 * SECOND));
    assert!(
        app.clock.pending_seek.is_none(),
        "seek pendiente cancelado"
    );
    assert!(
        app.related.synced.is_some(),
        "la misma canción conserva su letra"
    );
    assert!(
        app.related.scroll.is_empty(),
        "la ventana del karaoke se rebobina al repetir la canción"
    );
}

#[test]
fn playback_recovery_rewinds_clock_and_karaoke_on_same_track() {
    let mut app = new_app();
    let track = rec_track("song-1");
    app.on_backend(BackendEvent::PlaybackStarted {
        status: PlaybackStatus {
            track: Some(track.clone()),
            state: PlaybackState::Playing,
            position: (200 * SECOND),
            duration: Some((300 * SECOND)),
            stalled: false,
        },
        stats: vec![],
    }, NOW);
    app.related
        .set_synced(Some(lyrics("[00:01.00] hola\n[00:02.00] mundo\n")));
    app.related.scroll.lines = vec![0, 1];

    app.on_backend(BackendEvent::RecoveryResumed(PlaybackStatus {
        track: Some(track),
        state: PlaybackState::Playing,
        position: (1 * SECOND),
        duration: Some((300 * SECOND)),
        stalled: false,
    }), NOW);
    assert_eq!(
        app.clock.position,
        (1 * SECOND),
        "el reloj se rebobina con el reinicio del mismo track"
    );
    assert!(app.clock.pending_seek.is_none());
    assert!(
        app.related.synced.is_some(),
        "la letra es de la MISMA canción"
    );
    assert!(
        app.related.scroll.is_empty(),
        "el karaoke se rebobina con la recuperación"
    );
    assert_eq!(app.playback.position, (1 * SECOND));

    app.on_backend(BackendEvent::Playback(PlaybackStatus {
        track: Some(rec_track("song-1")),
        state: PlaybackState::Playing,
        position: (12 * SECOND),
        duration: Some((300 * SECOND)),
        stalled: false,
    }), NOW);
    assert_eq!(app.clock.position, (12 * SECOND));
}

#[test]
fn playback_recovery_ignored_when_user_requested_other_track() {
    let mut app = new_app();
    app.on_backend(BackendEvent::PlaybackStarted {
        status: PlaybackStatus {
            track: Some(rec_track("song-1")),
            state: PlaybackState::Playing,
            position: (90 * SECOND),
            duration: None,
            stalled: false,
        },
        stats: vec![],
    }, NOW);
    app.pending_track = Some("song-2".to_string());
    app.on_backend(BackendEvent::RecoveryResumed(PlaybackStatus {
        track: Some(rec_track("song-1")),
        state: PlaybackState::Playing,
        position: 0,
        duration: None,
        stalled: false,
    }), NOW);
    assert_eq!(
        app.clock.position,
        (90 * SECOND),
        "el reloj de song-1 no se toca si ya se pidió song-2"
    );
    assert_eq!(app.pending_track.as_deref(), Some("song-2"));
}

#[test]
fn queue_in_related_view_persists_across_track_changes() {
    let mut app = new_app();
    app.now_playing = Some(rec_track("song-1"));
    let _ = app.recs.request(&"song-1".to_string());
    app.on_backend(BackendEvent::Related {
        track: Box::new(rec_track("song-1")),
        related: vec![rec_track("a"), rec_track("b"), rec_track("c")],
        queue: vec![rec_track("a"), rec_track("b"), rec_track("c")],
        origins: vec![QueueItemOrigin::Recommendation; 3],
        synced: None,
        generation: 1,
    }, NOW);
    assert_eq!(app.related.tracks.len(), 3);

    app.on_backend(BackendEvent::PlaybackStarted {
        status: PlaybackStatus {
            track: Some(rec_track("song-2")),
            state: PlaybackState::Playing,
            position: (1 * SECOND),
            duration: None,
            stalled: false,
        },
        stats: vec![],
    }, NOW);
    assert_eq!(
        app.related.tracks.len(),
        3,
        "la cola mostrada persiste al cambiar de canción"
    );
    assert_eq!(
        app.now_playing.as_ref().map(Track::identifier),
        Some("song-2".to_string())
    );
    assert!(app.related.synced.is_none());
}

#[test]
fn r_key_refreshes_current_recommendations_into_the_queue() {
    let mut app = new_app();
    app.view = View::Related;
    app.now_playing = Some(rec_track("song-1"));
    app.related.tracks = vec![rec_track("a")];

    app.on_key(KeyEvent::new(KeyCode::Char('r'), KeyModifiers::none()), NOW);
    assert!(
        sent(&mut app,
            BackendCommand::LoadRelated(Box::new(rec_track("song-1")), 0)
        ),
        "«r» vuelve a pedir las recomendaciones de la canción en curso"
    );
    assert!(
        !sent(&mut app, BackendCommand::ReplaceQueue(vec![])),
        "«r» nunca reemplaza la cola"
    );
}

#[test]
fn r_uppercase_renova_solo_el_autoplay_con_las_frescas() {
    let mut app = new_app();
    app.view = View::Related;
    app.now_playing = Some(rec_track("song-1"));
    app.related.tracks = vec![rec_track("stale-1"), rec_track("stale-2")];
    app.related.fresh = vec![rec_track("fresh-1"), rec_track("fresh-2")];

    app.on_key(KeyEvent::new(KeyCode::Char('R'), KeyModifiers::shift()), NOW);

    let mut replaced = false;
    for c in app.take_commands() {
        if let BackendCommand::ReplaceAutoplay(tracks) = c {
            assert_eq!(tracks.len(), 2);
            assert_eq!(tracks[0].identifier(), "fresh-1");
            replaced = true;
        }
    }
    assert!(replaced, "«R» debe enviar ReplaceAutoplay");
    assert_eq!(app.related.tracks[0].identifier(), "stale-1");

    app.related.fresh.clear();
    app.on_key(KeyEvent::new(KeyCode::Char('R'), KeyModifiers::shift()), NOW);
    assert_eq!(app.related.tracks[0].identifier(), "stale-1");
}

#[test]
fn playback_without_track_clears_karaoke_and_lyrics() {
    let mut app = new_app();
    app.on_backend(BackendEvent::PlaybackStarted {
        status: PlaybackStatus {
            track: Some(rec_track("song-1")),
            state: PlaybackState::Playing,
            position: (90 * SECOND),
            duration: None,
            stalled: false,
        },
        stats: vec![],
    }, NOW);
    app.related
        .set_synced(Some(lyrics("[00:01.00] hola\n")));

    app.on_backend(BackendEvent::Playback(PlaybackStatus {
        track: None,
        state: PlaybackState::Stopped,
        position: 0,
        duration: None,
        stalled: false,
    }), NOW);
    assert_eq!(app.clock.position, 0);
    assert!(app.clock.track_key.is_none());
    assert!(app.clock.pending_seek.is_none());
    assert!(app.related.synced.is_none(), "letras limpiadas al terminar");
    assert_eq!(app.playback.state, PlaybackState::Stopped);
}

#[test]
fn playback_error_clears_pending_play_and_resets_state() {
    let mut app = new_app();
    app.save_and_play(rec_track("song-2"));
    assert_eq!(app.playback.state, PlaybackState::Buffering);
    assert!(app.pending_track.is_some());

    app.on_backend(BackendEvent::PlaybackError(
        "stream interrumpido".to_string(),
    ), NOW);
    assert!(app.pending_track.is_none());
    assert_eq!(app.playback.state, PlaybackState::Stopped);
    assert!(app.playback.track.is_none());
    assert!(
        app.status.as_deref().unwrap_or("").contains("Reproducción"),
        "el fallo se muestra en la línea de estado: {:?}",
        app.status
    );
}

#[test]
fn karaoke_clock_resyncs_after_seek() {
    let mut app = new_app();
    let track = rec_track("song-1");
    let ev = |pos: u64| PlaybackStatus {
        track: Some(track.clone()),
        state: PlaybackState::Playing,
        position: (pos * SECOND),
        duration: None,
        stalled: false,
    };
    app.on_backend(BackendEvent::PlaybackStarted {
        status: ev(100),
        stats: vec![],
    }, NOW);

    app.clock.begin_seek((50 * SECOND));
    app.on_backend(BackendEvent::Playback(ev(100)), NOW);
    assert_eq!(
        app.clock.position,
        (100 * SECOND),
        "sin salto ejecutado el karaoke sigue la posición real del audio"
    );
    assert!(
        app.clock.pending_seek.is_some(),
        "el seek sigue pendiente hasta que el motor refleje el salto"
    );

    app.on_backend(BackendEvent::Playback(ev(50)), NOW);
    assert_eq!(app.clock.position, (50 * SECOND));
    assert!(app.clock.pending_seek.is_none(), "seek resuelto");

    app.on_backend(BackendEvent::Playback(ev(0)), NOW);
    assert_eq!(app.clock.position, 0);
}

#[test]
fn backward_seek_keeps_clock_on_audio_until_jump_confirms() {
    let mut app = new_app();
    app.playback.position = (5 * SECOND);
    app.clock.update(Some(&"seed-1".to_string()), (5 * SECOND), NOW);
    app.on_key(KeyEvent::new(KeyCode::Left, KeyModifiers::none()), NOW);

    assert_eq!(app.clock.position, (5 * SECOND));
    assert_eq!(
        app.clock.pending_seek,
        Some(0)
    );
    assert!(matches!(app.take_commands().first(), Some(BackendCommand::Seek(0, _))));
}

#[test]
fn seek_completed_event_confirms_the_clock_without_waiting_for_a_sample() {
    let mut app = new_app();
    let track = rec_track("song-1");
    app.on_backend(BackendEvent::PlaybackStarted {
        status: PlaybackStatus {
            track: Some(track.clone()),
            state: PlaybackState::Playing,
            position: (100 * SECOND),
            duration: None,
            stalled: false,
        },
        stats: vec![],
    }, NOW);
    app.clock.begin_seek((20 * SECOND));
    app.on_backend(BackendEvent::SeekStarted, NOW);
    assert_eq!(app.playback.state, PlaybackState::Seeking);
    assert_eq!(app.clock.position, (100 * SECOND));

    app.on_backend(BackendEvent::SeekCompleted, NOW);
    assert_eq!(app.clock.position, (20 * SECOND));
    assert!(app.clock.pending_seek.is_none(), "seek confirmado");
    assert_eq!(app.playback.state, PlaybackState::Playing);
}

#[test]
fn seek_failed_event_cancels_pending_seek_and_keeps_real_position() {
    let mut app = new_app();
    let track = rec_track("song-1");
    app.on_backend(BackendEvent::PlaybackStarted {
        status: PlaybackStatus {
            track: Some(track.clone()),
            state: PlaybackState::Playing,
            position: (90 * SECOND),
            duration: None,
            stalled: false,
        },
        stats: vec![],
    }, NOW);
    app.clock.begin_seek((10 * SECOND));

    app.on_backend(BackendEvent::SeekFailed, NOW);
    assert!(
        app.clock.pending_seek.is_none(),
        "deseo pendiente cancelado"
    );
    assert_eq!(
        app.clock.position,
        (90 * SECOND),
        "audio sin mover"
    );
}

#[test]
fn karaoke_now_extrapolates_while_playing_and_freezes_paused() {
    let mut app = new_app();
    let track = rec_track("song-1");

    let playing = PlaybackStatus {
        track: Some(track.clone()),
        state: PlaybackState::Playing,
        position: (42 * SECOND),
        duration: Some((200 * SECOND)),
        stalled: false,
    };
    app.on_backend(BackendEvent::PlaybackStarted {
        status: playing,
        stats: vec![],
    }, NOW);
    assert_eq!(app.clock.position, (42 * SECOND));
    assert!(
        app.karaoke_now(NOW) >= app.clock.position,
        "extrapola el tiempo real entre eventos del motor"
    );

    let paused = PlaybackStatus {
        track: Some(track),
        state: PlaybackState::Paused,
        position: (42 * SECOND),
        duration: Some((200 * SECOND)),
        stalled: false,
    };
    app.on_backend(BackendEvent::Playback(paused), NOW);
    assert_eq!(app.karaoke_now(NOW), (42 * SECOND));
}

#[test]
fn buffering_status_freezes_karaoke_immediately() {
    let mut app = new_app();
    let track = rec_track("song-1");
    let status = PlaybackStatus {
        track: Some(track.clone()),
        state: PlaybackState::Playing,
        position: (42 * SECOND),
        duration: Some((200 * SECOND)),
        stalled: false,
    };
    app.on_backend(BackendEvent::PlaybackStarted {
        status: status.clone(),
        stats: vec![],
    }, NOW);
    app.clock.anchor = Some(NOW - (350 * MILLISECOND));
    assert!(
        app.karaoke_now(NOW) > (42 * SECOND),
        "mientras dice Playing extrapola"
    );

    app.on_backend(BackendEvent::Playback(PlaybackStatus {
        state: PlaybackState::Buffering,
        ..status
    }), NOW);
    assert_eq!(
        app.karaoke_now(NOW),
        (42 * SECOND),
        "Buffering congela el reloj de letras de inmediato"
    );
}

#[test]
fn karaoke_clock_rebases_on_every_sample_not_only_when_position_advances() {
    let mut app = new_app();
    let track = rec_track("song-1");
    let ev = |state: PlaybackState, pos: u64| PlaybackStatus {
        track: Some(track.clone()),
        state,
        position: (pos * SECOND),
        duration: Some((200 * SECOND)),
        stalled: false,
    };

    app.on_backend(BackendEvent::PlaybackStarted {
        status: ev(PlaybackState::Playing, 50),
        stats: vec![],
    }, NOW);

    app.clock.anchor = Some(NOW - (600 * SECOND));
    app.on_backend(BackendEvent::Playback(ev(PlaybackState::Paused, 50)), NOW);

    assert!(
        app.karaoke_now(NOW) < (60 * SECOND),
        "el reloj no extrapola a través de una pausa larga (ahora={:?})",
        app.karaoke_now(NOW)
    );
}

#[test]
fn save_and_play_clears_stale_lyrics_immediately() {
    let mut app = new_app();
    app.related
        .set_synced(Some(lyrics("[00:01.00] letra vieja\n")));
    app.playback.state = PlaybackState::Playing;
    app.playback.position = (90 * SECOND);

    app.save_and_play(rec_track("song-2"));

    assert!(app.related.synced.is_none(), "LRC anterior descartado");
    assert_eq!(app.clock.position, 0, "reloj reiniciado");
    assert!(
        app.clock.track_key.is_none(),
        "sin reloj para la canción vieja"
    );
    assert_eq!(app.playback.state, PlaybackState::Buffering);
}

#[test]
fn pending_song_rejects_old_playback_and_lyrics() {
    let mut app = new_app();
    let old = rec_track("song-old");
    let new = rec_track("song-new");
    app.now_playing = Some(old.clone());
    app.related
        .set_synced(Some(lyrics("[00:01] letra vieja\n")));

    app.save_and_play(new.clone());
    assert_eq!(
        app.now_playing.as_ref().map(Track::identifier),
        Some(new.identifier())
    );
    assert!(app.related.synced.is_none());

    app.on_backend(BackendEvent::Playback(PlaybackStatus {
        track: Some(old.clone()),
        state: PlaybackState::Playing,
        position: (20 * SECOND),
        duration: Some((200 * SECOND)),
        stalled: false,
    }), NOW);
    assert_eq!(
        app.now_playing.as_ref().map(Track::identifier),
        Some(new.identifier())
    );

    app.on_backend(BackendEvent::Related {
        track: Box::new(old),
        related: vec![],
        queue: vec![],
        origins: vec![],
        synced: Some(sheet("[00:01] letra vieja\n")),
        generation: 1,
    }, NOW);
    assert!(app.related.synced.is_none());
}

#[test]
fn switching_to_related_view_reuses_loaded_recommendations() {
    let mut app = new_app();
    let id = "song".to_string();
    app.now_playing = Some(rec_track(&id));
    app.related.tracks = vec![rec_track("a"), rec_track("b")];
    app.recs.request(&id);
    app.recs.complete(&id, 1);
    app.take_commands();

    app.switch_view(View::Related);
    assert_eq!(app.view, View::Related);
    assert_eq!(
        app.related.tracks.len(),
        2,
        "muestra las recomendaciones ya cargadas, sin regenerar"
    );
    assert!(
        app.take_commands().is_empty(),
        "cambiar de vista NO regenera recomendaciones"
    );
}

#[test]
fn w_s_and_arrows_navigate_the_related_list() {
    let mut app = new_app();
    app.view = View::Related;
    app.related.tracks = vec![rec_track("a"), rec_track("b"), rec_track("c")];

    app.on_key(KeyEvent::new(KeyCode::Char('s'), KeyModifiers::none()), NOW);
    assert_eq!(
        app.related.list_state.selected,
        Some(0),
        "s baja al primer ítem"
    );
    app.on_key(KeyEvent::new(KeyCode::Char('s'), KeyModifiers::none()), NOW);
    assert_eq!(app.related.list_state.selected, Some(1));
    app.on_key(KeyEvent::new(KeyCode::Down, KeyModifiers::none()), NOW);
    assert_eq!(app.related.list_state.selected, Some(2));
    app.on_key(KeyEvent::new(KeyCode::Down, KeyModifiers::none()), NOW);
    assert_eq!(
        app.related.list_state.selected,
        Some(0),
        "wrap hacia delante"
    );
    app.on_key(KeyEvent::new(KeyCode::Char('w'), KeyModifiers::none()), NOW);
    assert_eq!(
        app.related.list_state.selected,
        Some(2),
        "wrap hacia atrás"
    );
    app.on_key(KeyEvent::new(KeyCode::Up, KeyModifiers::none()), NOW);
    assert_eq!(app.related.list_state.selected, Some(1));
}

#[test]
fn queue_cursor_follows_only_on_track_change() {
    let mut app = new_app();
    app.view = View::NowPlaying;
    app.related.tracks = vec![rec_track("a"), rec_track("b"), rec_track("c")];
    app.now_playing = Some(rec_track("a"));

    app.on_new_now_playing(rec_track("a"));
    assert_eq!(
        app.related.list_state.selected,
        None,
        "el tick del mismo track no siembra el cursor"
    );

    app.related.list_state.selected = Some(2);
    app.on_new_now_playing(rec_track("a"));
    assert_eq!(
        app.related.list_state.selected,
        Some(2),
        "los ticks no secuestran la selección del usuario"
    );

    app.on_new_now_playing(rec_track("b"));
    assert_eq!(
        app.related.list_state.selected,
        Some(1),
        "al cambiar de canción el cursor sigue la cola"
    );
}

#[test]
fn related_navigation_keys_never_send_load_related() {
    let mut app = new_app();
    app.view = View::Related;
    app.now_playing = Some(rec_track("song"));
    app.related.tracks = vec![rec_track("a"), rec_track("b")];
    app.take_commands();

    for code in [
        KeyCode::Char('w'),
        KeyCode::Char('s'),
        KeyCode::Up,
        KeyCode::Down,
    ] {
        app.on_key(KeyEvent::new(code, KeyModifiers::none()), NOW);
    }
    let cmds = app.take_commands();
    assert!(
        cmds.is_empty(),
        "navegar la lista no envía comandos: {cmds:?}"
    );
}

#[test]
fn seek_keys_clamp_backwards_to_zero() {
    let mut app = new_app();
    app.view = View::NowPlaying;
    app.now_playing = Some(rec_track("song"));
    app.playback.duration = Some((200 * SECOND));
    app.clock.update(Some(&"song".to_string()), (5 * SECOND), NOW);

    app.on_key(KeyEvent::new(KeyCode::Left, KeyModifiers::none()), NOW);
    match app.take_commands().into_iter().next() {
        Some(BackendCommand::Seek(0, for_track)) => assert_eq!(for_track, "song"),
        other => panic!("esperaba Seek(0, \"song\"), llegó {other:?}"),
    }
}

#[test]
fn seek_keys_clamp_forward_to_duration() {
    let mut app = new_app();
    app.now_playing = Some(rec_track("song"));
    app.playback.duration = Some((200 * SECOND));
    app.clock.update(Some(&"song".to_string()), (190 * SECOND), NOW);

    app.on_key(KeyEvent::new(KeyCode::Right, KeyModifiers::none()), NOW);
    match app.take_commands().into_iter().next() {
        Some(BackendCommand::Seek(200, _)) => {}
        other => panic!("esperaba Seek(200, ...), llegó {other:?}"),
    }
}

#[test]
fn seek_without_track_clamps_to_zero_without_panicking() {
    let mut app = new_app();

    app.on_key(KeyEvent::new(KeyCode::Left, KeyModifiers::none()), NOW);
    match app.take_commands().into_iter().next() {
        Some(BackendCommand::Seek(0, _)) => {}
        other => panic!("esperaba Seek(0, ...), llegó {other:?}"),
    }
}

#[test]
fn late_related_response_for_a_replayed_track_does_not_stomp_the_new_session() {
    let mut app = new_app();
    let id = "song".to_string();

    app.now_playing = Some(rec_track(&id));
    let gen1 = app.recs.request(&id).unwrap();
    assert!(app.recs.complete(&id, gen1));

    app.recs.on_track_changed();
    let gen2 = app.recs.request(&id).unwrap();
    assert_ne!(gen1, gen2, "la sesión nueva tiene generación distinta");

    app.on_backend(BackendEvent::Related {
        track: Box::new(rec_track(&id)),
        related: vec![rec_track("stale")],
        queue: vec![rec_track("stale")],
        origins: vec![QueueItemOrigin::Recommendation],
        synced: None,
        generation: gen1,
    }, NOW);
    assert!(
        app.related.tracks.is_empty(),
        "la sesión nueva no recibe contenido de la anterior"
    );
    assert!(app.recs.is_loading(), "y la petición en curso sigue viva");

    app.on_backend(BackendEvent::Related {
        track: Box::new(rec_track(&id)),
        related: vec![rec_track("fresh")],
        queue: vec![rec_track("queued-a"), rec_track("queued-b")],
        origins: vec![
            QueueItemOrigin::Recommendation,
            QueueItemOrigin::Recommendation,
        ],
        synced: None,
        generation: gen2,
    }, NOW);
    assert_eq!(app.related.tracks.len(), 2);
    assert_eq!(app.related.tracks[0].identifier(), "queued-a");
    assert_eq!(app.related.fresh.len(), 1);
    assert_eq!(app.related.fresh[0].identifier(), "fresh");
    assert!(!app.recs.is_loading());
}

#[test]
fn f_and_t_toggle_shuffle_and_repeat_and_emit_queue_commands() {
    let mut app = new_app();
    assert!(!app.shuffle);
    assert_eq!(app.repeat, RepeatMode::default());

    app.on_key(KeyEvent::new(KeyCode::Char('f'), KeyModifiers::none()), NOW);
    assert!(app.shuffle, "shuffle optimista ON");
    assert!(sent(&mut app, BackendCommand::SetShuffle(true)));

    app.on_key(KeyEvent::new(KeyCode::Char('f'), KeyModifiers::none()), NOW);
    assert!(!app.shuffle);
    assert!(sent(&mut app, BackendCommand::SetShuffle(false)));

    app.on_key(KeyEvent::new(KeyCode::Char('t'), KeyModifiers::none()), NOW);
    assert_eq!(app.repeat, RepeatMode::One);
    assert!(sent(&mut app,
        BackendCommand::SetRepeat(RepeatMode::One)
    ));
    app.on_key(KeyEvent::new(KeyCode::Char('t'), KeyModifiers::none()), NOW);
    assert_eq!(app.repeat, RepeatMode::Off);
    app.on_key(KeyEvent::new(KeyCode::Char('t'), KeyModifiers::none()), NOW);
    assert_eq!(
        app.repeat,
        RepeatMode::All,
        "vuelve al inicio"
    );
    app.on_key(KeyEvent::new(KeyCode::Char('t'), KeyModifiers::none()), NOW);
    assert_eq!(app.repeat, RepeatMode::One);
}

#[test]
fn queue_state_event_adopts_authoritative_backend_state() {
    let mut app = new_app();
    app.on_backend(BackendEvent::QueueState {
        shuffle: true,
        repeat: RepeatMode::All,
        len: 4,
    }, NOW);
    assert!(app.shuffle);
    assert_eq!(app.repeat, RepeatMode::All);
}

#[test]
fn related_new_items_are_marked_and_reported() {
    let mut app = new_app();
    app.now_playing = Some(rec_track("song-1"));
    let _ = app.recs.request(&"song-1".to_string());

    app.on_backend(BackendEvent::Related {
        track: Box::new(rec_track("song-1")),
        related: vec![rec_track("a"), rec_track("b")],
        queue: vec![rec_track("a"), rec_track("b")],
        origins: vec![
            QueueItemOrigin::Recommendation,
            QueueItemOrigin::Recommendation,
        ],
        synced: None,
        generation: 1,
    }, NOW);
    assert_eq!(app.related.tracks.len(), 2);
    assert_eq!(app.related.new_ids.len(), 2, "ambas son nuevas");
    assert_eq!(
        app.related.origins,
        vec![
            QueueItemOrigin::Recommendation,
            QueueItemOrigin::Recommendation
        ]
    );
    assert!(
        app.status
            .as_deref()
            .is_some_and(|s| s.contains("(+2 nuevas)")),
        "anuncia las nuevas añadidas: {:?}",
        app.status
    );

    app.recs.on_track_changed();
    let gen = app.recs.request(&"song-1".to_string()).unwrap();
    app.on_key(KeyEvent::new(KeyCode::Char('a'), KeyModifiers::none()), NOW);
    app.on_backend(BackendEvent::Related {
        track: Box::new(rec_track("song-1")),
        related: vec![rec_track("b"), rec_track("c")],
        queue: vec![rec_track("a"), rec_track("b"), rec_track("c")],
        origins: vec![
            QueueItemOrigin::Recommendation,
            QueueItemOrigin::Recommendation,
            QueueItemOrigin::Recommendation,
        ],
        synced: None,
        generation: gen,
    }, NOW);
    assert!(app.related.new_ids.contains(&rec_track("c").identifier()));
    assert!(!app.related.new_ids.contains(&rec_track("a").identifier()));
    assert!(
        app.status
            .as_deref()
            .is_some_and(|s| s.contains("(+1 nuevas)")),
        "solo anuncia la realmente nueva: {:?}",
        app.status
    );
}

