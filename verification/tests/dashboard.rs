use tunefold::areas::{dashboard_areas, shell_areas};
use tunefold::app::App;
use tunefold::dashboard::{
    controls, detail_title, header_lines, heart_color, notice_label, progress_label,
    progress_share, queue_title, status_row, Modes,
};
use tunefold::domain::{HistoryEntry, Source, Track, SECOND};
use tunefold::glyphs::{GlyphTheme, UiGlyphs};
use tunefold::ink::{Ink, Span};
use tunefold::keys::{KeyCode, KeyEvent, KeyModifiers};
use tunefold::layout::{Rect, TerminalProfile};
use tunefold::palette::VisualTheme;
use tunefold::playback::{PlaybackState, PlaybackStatus, RepeatMode};
use tunefold::rows::{history_row, metadata_rows, queue_row, search_row, source_rows};
use tunefold::view::View;

const U: UiGlyphs = UiGlyphs { theme: GlyphTheme::Unicode };

fn song() -> Track {
    Track::new("Bohemian Rhapsody".to_string(), vec!["Queen".to_string()], Source::YouTube)
}

fn playing(stalled: bool) -> PlaybackStatus {
    PlaybackStatus {
        track: Some(song()),
        state: PlaybackState::Playing,
        position: 90 * SECOND,
        duration: Some(354 * SECOND),
        stalled,
    }
}

fn modes(liked: bool) -> Modes {
    Modes { shuffle: true, repeat: RepeatMode::One, autoplay: false, queued: 3, liked }
}

fn text(row: &[Span]) -> String {
    row.iter().map(|s| s.text.as_str()).collect()
}

#[test]
fn progress_is_a_share_of_the_song() {
    assert_eq!(progress_share(&playing(false)), (90 * SECOND, 354 * SECOND));
    let mut over = playing(false);
    over.position = 400 * SECOND;
    assert_eq!(progress_share(&over), (354 * SECOND, 354 * SECOND));
    assert_eq!(progress_share(&PlaybackStatus::idle()), (0, 1));
}

#[test]
fn progress_label_tells_what_happens() {
    let label = progress_label(&playing(false), U, 0);
    assert_eq!((label.text.as_str(), label.ink), (" 1:30 / 5:54 ", Ink::Cyan));
    let slow = progress_label(&playing(true), U, 0);
    assert_eq!(slow.text, " ⠋ stream lento · rellenando buffer…  1:30 / 5:54 ");
    assert_eq!(slow.ink, Ink::Yellow);
    let idle = progress_label(&PlaybackStatus::idle(), U, 0);
    assert_eq!(idle.text, " sin reproducción (Enter en resultados reproduce) ");
}

#[test]
fn controls_tell_the_same_high_and_low() {
    let high = controls(&playing(false), modes(true), U, 0, 5);
    assert_eq!(high.len(), 3);
    assert!(text(&high[0]).starts_with("▶ reproduciendo "));
    assert!(text(&high[0]).ends_with("  ·  1:30 / 5:54"));
    assert_eq!(
        text(&high[1]),
        "SHUFFLE · REPETIR una · 3 en cola · autoplay OFF · l L1K3D ♥"
    );
    assert_eq!(text(&high[2]), "Shift+H: todos los atajos");
    let low = controls(&playing(false), modes(false), U, 0, 4);
    assert_eq!(low.len(), 1);
    assert!(text(&low[0]).starts_with(&text(&high[0])));
    assert!(text(&low[0])
        .ends_with("  ·  SHUFFLE · REPETIR una · autoplay OFF  l L1K3D ♡"));
    assert_eq!(low[0].last().unwrap().ink, Ink::Heart);
}

#[test]
fn controls_name_every_state() {
    let mut p = PlaybackStatus::idle();
    let m = Modes {
        shuffle: false,
        repeat: RepeatMode::Off,
        autoplay: true,
        queued: 0,
        liked: false,
    };
    for (state, name) in [
        (PlaybackState::Paused, "‖ pausado"),
        (PlaybackState::Stopped, "■ detenido"),
        (PlaybackState::Seeking, "» buscando"),
        (PlaybackState::Buffering, "⠋ preparando"),
    ] {
        p.state = state;
        let rows = controls(&p, m, U, 0, 5);
        assert_eq!(text(&rows[0]), format!("{name}  ·  0:00 / --:--"));
        assert!(text(&rows[1]).starts_with("orden · repetir off · 0 en cola · autoplay ON"));
    }
    p.stalled = true;
    assert!(text(&controls(&p, m, U, 0, 5)[0]).contains(" · ⠋ red lenta: rellenando buffer…"));
}

#[test]
fn heart_pulses_while_liked() {
    let t = VisualTheme::fallback();
    assert_eq!(heart_color(&t, false, 0), t.secondary);
    assert_eq!(heart_color(&t, true, 11), t.primary);
    assert_eq!(heart_color(&t, true, 12), t.accent);
    assert_eq!(heart_color(&t, true, 24), t.primary);
}

#[test]
fn titles_count_songs() {
    assert_eq!(queue_title(3, true), " Recomendaciones · 3 · a: autoplay ON ");
    assert_eq!(queue_title(0, false), " Recomendaciones · 0 · a: autoplay OFF ");
    assert_eq!(detail_title(&"Viaje".to_string(), 2), " Viaje  ·  2 tracks  ");
}

#[test]
fn header_shrinks_to_one_line() {
    let lines = header_lines(View::Search, &playing(false), TerminalProfile::Large, U, 0);
    assert_eq!(lines.len(), 2);
    assert!(lines[0].starts_with(" Tunefold — "));
    assert!(lines[0].contains("[▶ reproduciendo]"));
    assert!(lines[1].starts_with("Shift+1 "));
    assert!(lines[1].ends_with("    ·   Shift+H Ayuda    ·   1..8 sueltos no navegan"));
    let tiny = header_lines(View::Search, &playing(true), TerminalProfile::Tiny, U, 0);
    assert_eq!(tiny.len(), 1);
    assert!(tiny[0].contains("stream lento · rellenando…]"));
    assert!(tiny[0].ends_with("    · Shift+H Ayuda]"));
    for digit in 1..=8 {
        assert!(tiny[0].contains(&format!("Shift+{digit} ")));
    }
}

#[test]
fn status_line_has_a_default() {
    assert_eq!(text(&status_row(&None, U)), "›q: salir · Shift+1..7: cambiar vista");
    assert_eq!(text(&status_row(&Some("hola".to_string()), U)), "›hola");
    assert_eq!(notice_label(&"".to_string(), U), None);
    assert_eq!(notice_label(&"roto".to_string(), U), Some("! roto ".to_string()));
}

#[test]
fn renders_all_views_without_panic() {
    let mut app = App::new(U);
    app.now_playing = Some(song());
    app.history = vec![HistoryEntry {
        track_id: 1,
        played_at: "2026-08-02 12:00:00".to_string(),
        source: Source::YouTube,
        duration: Some(354_000),
        title: "Bohemian Rhapsody".to_string(),
        artist_name: Some("Queen".to_string()),
        play_count: 1,
    }];
    app.sources = vec![Source::YouTube];
    app.search.results = vec![song()];
    app.search.list_state.selected = Some(0);
    app.related.tracks = vec![song()];

    for view in View::ALL {
        app.view = view;
        let lines = header_lines(app.view, &app.playback, TerminalProfile::Large, U, 0);
        assert!(lines[0].contains(view.label()));
        assert_eq!(source_rows(&app.sources, U).len(), 1);
        assert!(text(&history_row(&app.history[0], &app.liked, U)).contains("Bohemian"));
        let hit = search_row(&app.search.results[0], 0, 0, &vec![], &app.liked, U);
        assert!(text(&hit).contains("Bohemian"));
        let queued = queue_row(&app.related, 0, &None, &vec![], &app.liked, U);
        assert!(text(&queued).contains("Bohemian"));
        assert_eq!(metadata_rows(&song(), &app.liked, U).len(), 10);
    }

    let expect = [
        ('1', View::NowPlaying),
        ('2', View::Related),
        ('3', View::Search),
        ('4', View::Sources),
        ('5', View::Metadata),
        ('6', View::History),
        ('7', View::Settings),
    ];
    for (digit, view) in expect {
        app.on_key(KeyEvent::new(KeyCode::Char(digit), KeyModifiers::shift()), 0);
        assert_eq!(app.view, view, "atajo Shift+{digit}");
    }
}

#[test]
fn renders_every_view_keeps_sections_at_every_terminal_size() {
    for (w, h) in [(120, 40), (100, 30), (80, 24), (70, 20), (60, 15)] {
        let (_, body, _) = shell_areas(Rect::new(0, 0, w, h));
        let sections = dashboard_areas(body);
        assert_eq!(sections.len(), 5);
        assert!(
            sections.iter().all(|s| s.height >= 1 && s.width == w),
            "todas las secciones presentes a {w}x{h}: {sections:?}"
        );
        assert!(sections[3].height >= 3, "panel de recomendaciones a {w}x{h}");
        let title = queue_title(3, true);
        assert!(
            title.contains("Recomendaciones") && title.chars().count() <= w as usize,
            "el título cabe a {w}x{h}"
        );
        let state = controls(&playing(false), modes(false), U, 0, sections[4].height);
        assert!(text(&state[0]).contains("reproduciendo"), "estado a {w}x{h}");
    }
}
