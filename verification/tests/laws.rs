use tunefold::app::App;
use tunefold::contrast::{blend, contrast_ratio, contrast_reaches, ensure_contrast};
use tunefold::cover::{rgb_dist_sq, CoverColorMatrix};
use tunefold::domain::{SearchOutcome, Source, Track, SECOND};
use tunefold::event::{BackendCommand, BackendEvent};
use tunefold::glyphs::{GlyphTheme, UiGlyphs};
use tunefold::keys::{KeyCode, KeyEvent, KeyModifiers};
use tunefold::linear::{LINEAR, LINEAR_ONE};
use tunefold::palette::VisualTheme;
use tunefold::playback::{PlaybackState, PlaybackStatus, QueueItemOrigin, RepeatMode};
use tunefold::view::View;

fn new_app() -> App {
    let mut app = App::new(UiGlyphs::new(GlyphTheme::Unicode));
    app.take_commands();
    app
}

fn song(id: &str) -> Track {
    let mut t = Track::new(format!("T-{id}"), vec!["Banda".to_string()], Source::YouTube);
    t.external_id = Some(id.to_string());
    t.duration = Some(200 * SECOND);
    t
}

fn playing(t: Track, position: u64) -> PlaybackStatus {
    PlaybackStatus {
        track: Some(t),
        state: PlaybackState::Playing,
        position,
        duration: Some(200 * SECOND),
        stalled: false,
    }
}

/// A song starts.
fn hear(app: &mut App, id: &str, position: u64, now: u64) {
    let status = playing(song(id), position);
    app.on_backend(BackendEvent::PlaybackStarted { status, stats: vec![] }, now);
}

fn press(app: &mut App, code: KeyCode) {
    app.on_key(KeyEvent::new(code, KeyModifiers::none()), 0);
}

#[test]
fn control_c_leaves_from_everywhere() {
    for view in View::ALL {
        for help in [false, true] {
            let mut app = new_app();
            app.view = view;
            app.show_help = help;
            app.on_key(KeyEvent::new(KeyCode::Char('c'), KeyModifiers::control()), 0);
            assert!(app.should_quit, "desde {view:?}");
            assert_eq!(app.show_help, help, "no hace nada más");
            assert!(app.take_commands().is_empty());
        }
    }
}

#[test]
fn modes_come_back_after_their_cycle() {
    let mut app = new_app();
    let before = (app.shuffle, app.repeat, app.autoplay);
    press(&mut app, KeyCode::Char('f'));
    assert_ne!(app.shuffle, before.0);
    press(&mut app, KeyCode::Char('f'));
    press(&mut app, KeyCode::Char('a'));
    assert_ne!(app.autoplay, before.2);
    press(&mut app, KeyCode::Char('a'));
    for _ in 0..3 {
        press(&mut app, KeyCode::Char('t'));
    }
    assert_eq!((app.shuffle, app.repeat, app.autoplay), before);
    let commands = app.take_commands();
    assert_eq!(
        commands.iter().filter(|c| matches!(c, BackendCommand::SetShuffle(_))).count(),
        2
    );
    assert_eq!(
        commands.iter().filter(|c| matches!(c, BackendCommand::SetAutoplay(_))).count(),
        2
    );
    assert_eq!(
        commands.iter().filter(|c| matches!(c, BackendCommand::SetRepeat(_))).count(),
        3
    );
}

#[test]
fn the_backend_decides_the_modes_of_the_queue() {
    let mut app = new_app();
    app.on_backend(
        BackendEvent::QueueState { shuffle: true, repeat: RepeatMode::One, len: 3 },
        0,
    );
    assert_eq!((app.shuffle, app.repeat), (true, RepeatMode::One));
}

#[test]
fn trouble_with_the_stream_stays_at_the_foot() {
    let mut app = new_app();
    hear(&mut app, "a", 0, 0);
    app.on_backend(BackendEvent::Playback(playing(song("a"), 10 * SECOND)), 0);
    app.take_commands();
    app.on_backend(BackendEvent::StreamError("corte".to_string()), SECOND);
    assert_eq!(app.playback.state, PlaybackState::Playing);
    assert_eq!(app.now_playing.as_ref().unwrap().identifier(), "a");
    assert!(app.take_commands().is_empty());
}

#[test]
fn jumps_wait_for_their_confirmation() {
    let mut app = new_app();
    hear(&mut app, "a", 0, 0);
    app.on_backend(BackendEvent::Playback(playing(song("a"), 10 * SECOND)), 0);
    app.take_commands();
    press(&mut app, KeyCode::Right);
    assert_eq!(app.clock.position, 10 * SECOND, "nada se mueve todavía");
    let target = app.clock.pending_seek.expect("hay un salto pendiente");
    assert!(app.take_commands().iter().any(
        |c| matches!(c, BackendCommand::Seek(s, key) if *s == target / SECOND && key == "a")
    ));
    app.on_backend(BackendEvent::SeekCompleted, SECOND);
    assert_eq!((app.clock.position, app.clock.pending_seek), (target, None));
}

#[test]
fn the_queue_survives_a_change_of_song() {
    let mut app = new_app();
    app.related.tracks = vec![song("a"), song("b")];
    app.related.origins = vec![QueueItemOrigin::User, QueueItemOrigin::Recommendation];
    hear(&mut app, "a", 0, 0);
    hear(&mut app, "b", 0, SECOND);
    let ids: Vec<String> = app.related.tracks.iter().map(|t| t.identifier()).collect();
    assert_eq!(ids, vec!["a", "b"]);
    assert_eq!(
        app.related.origins,
        vec![QueueItemOrigin::User, QueueItemOrigin::Recommendation]
    );
}

#[test]
fn contrasts_are_symmetric_and_reached() {
    let (a, b) = ([200, 30, 90], [12, 14, 20]);
    assert_eq!(contrast_ratio(a, b), contrast_ratio(b, a));
    for fg in [[0, 0, 0], [128, 128, 128], [255, 255, 255], a, b] {
        for bg in [[0, 0, 0], [128, 128, 128], [255, 255, 255], a, b] {
            let fixed = ensure_contrast(fg, bg, 45, 10);
            assert!(contrast_reaches(fixed, bg, 45, 10), "{fg:?} sobre {bg:?}");
            if contrast_reaches(fg, bg, 45, 10) {
                assert_eq!(fixed, fg);
            }
        }
    }
    assert_eq!(blend([0, 100, 255], [255, 100, 0], 1, 2), [128, 100, 128]);
    assert_eq!((LINEAR[0], LINEAR[255]), (0, LINEAR_ONE));
}

#[test]
fn three_distinct_colours_come_back() {
    let d = [[10, 20, 30], [200, 40, 40], [40, 200, 90]];
    let back = CoverColorMatrix::from_dominants(d).dominants();
    assert_eq!(back, d);
    assert_eq!(rgb_dist_sq([0, 0, 0], [1, 2, 3]), 14);
    let close = [[10, 10, 10], [20, 20, 20], [30, 30, 30]];
    let back = CoverColorMatrix::from_dominants(close).dominants();
    assert_ne!(back, close, "colores demasiado parecidos");
}

#[test]
fn only_opaque_pixels_count() {
    let a: Vec<u8> = vec![10, 20, 30, 255, 1, 1, 1, 0, 40, 50, 60, 16, 9, 9, 9, 15];
    let b: Vec<u8> = vec![10, 20, 30, 16, 7, 8, 9, 3, 40, 50, 60, 200, 0, 0, 0, 0, 77, 77];
    let ma = CoverColorMatrix::from_rgba(&a, 2, 2);
    assert!(ma.is_some());
    assert_eq!(ma, CoverColorMatrix::from_rgba(&b, 2, 2));
    assert_eq!(CoverColorMatrix::from_rgba(&[], 400_000, 400_000), None);
    assert_eq!(CoverColorMatrix::from_rgba(&a, 2, 3), None, "faltan bytes");
    assert_eq!(CoverColorMatrix::from_rgba(&a, 0, 2), None);
    assert_eq!(CoverColorMatrix::from_rgba(&[1, 1, 1, 15], 1, 1), None, "nada opaco");
    let one = CoverColorMatrix::from_rgba(&[1, 2, 3, 16], 1, 1).unwrap();
    assert_eq!(one.dominants()[0], [1, 2, 3]);
}

#[test]
fn an_empty_answer_shows_no_results() {
    let mut app = new_app();
    let outcome = SearchOutcome {
        items: vec![],
        errors: vec!["sin red".to_string()],
        related_from: 3,
    };
    app.on_backend(
        BackendEvent::SearchResults { query: "x".to_string(), outcome: Box::new(outcome) },
        0,
    );
    assert_eq!(app.status.unwrap(), "Sin resultados (1 error(es). ¿Red sobre YouTube?");
    assert!(app.search.results.is_empty());
}

#[test]
fn a_new_app_has_searched_nothing() {
    let app = new_app();
    assert!(!app.search.searching && app.search.last_query.is_none());
    assert_eq!((app.search.cursor, app.search.related_from), (0, 0));
    assert_eq!(app.search.list_state.selected, None);
    assert_eq!(app.playlist_view.listing.selected, None);
    assert_eq!(app.playlist_view.draft, "");
}

#[test]
fn contrast_targets_are_fractions() {
    let (gray, black) = ([100, 100, 100], [0, 0, 0]);
    // The contrast of this gray with black is 3.548, rounded down.
    assert!(contrast_reaches(gray, black, 3548, 1000));
    assert!(!contrast_reaches(gray, black, 3549, 1000));
    assert_eq!(ensure_contrast(gray, black, 3548, 1000), gray);
    let moved = ensure_contrast(gray, black, 4321, 1000);
    assert!(contrast_reaches(moved, black, 4321, 1000));
    let steps: Vec<[u8; 3]> = (1..16).map(|k| blend(gray, [255; 3], k, 16)).collect();
    let first = steps.iter().find(|c| contrast_reaches(**c, black, 4321, 1000));
    assert_eq!(first, Some(&moved));
    assert_eq!(ensure_contrast(gray, black, u64::MAX, 1), [255, 255, 255]);
}

#[test]
fn the_palette_has_one_source() {
    let rgba: Vec<u8> = (0..12 * 12 * 4).map(|i| (i * 37 % 251) as u8).collect();
    let solid: Vec<u8> = (0..12 * 12).flat_map(|_| [9, 80, 200, 255]).collect();
    for bytes in [rgba, solid] {
        let m = CoverColorMatrix::from_rgba(&bytes, 12, 12).unwrap();
        assert_eq!(VisualTheme::from_matrix(&m), VisualTheme::from_cover(Some(m.dominants())));
    }
}
