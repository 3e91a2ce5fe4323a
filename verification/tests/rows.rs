use tunefold::domain::{
    Album, HistoryEntry, PlaylistKind, PlaylistRow, Source, Track, TrackListeningStats, SECOND,
};
use tunefold::glyphs::{GlyphTheme, UiGlyphs};
use tunefold::ink::{Ink, Span};
use tunefold::liked::Liked;
use tunefold::navigation::ListState;
use tunefold::playback::QueueItemOrigin;
use tunefold::related::RelatedState;
use tunefold::rows::{
    apply_click, create_row, detail_hint, format_duration, history_row, metadata_rows,
    playlist_row, query_title, queue_row, row_ink, search_row, search_title, source_rows,
};

const U: UiGlyphs = UiGlyphs { theme: GlyphTheme::Unicode };
const A: UiGlyphs = UiGlyphs { theme: GlyphTheme::Ascii };

fn track(id: &str) -> Track {
    let mut t = Track::new("Título".to_string(), vec!["Banda".to_string()], Source::YouTube);
    t.external_id = Some(id.to_string());
    t.duration = Some(354 * SECOND);
    t
}

fn text(row: &[Span]) -> String {
    row.iter().map(|s| s.text.as_str()).collect()
}

fn stats(id: &str, recent: bool, count: i64) -> TrackListeningStats {
    TrackListeningStats { key: id.to_string(), recently_played: recent, play_count: count }
}

#[test]
fn durations_show_hours_only_when_there_are_any() {
    assert_eq!(format_duration(0), "0:00");
    assert_eq!(format_duration(59 * SECOND + 999_999_999), "0:59");
    assert_eq!(format_duration(354 * SECOND), "5:54");
    assert_eq!(format_duration(3600 * SECOND), "1:00:00");
    assert_eq!(format_duration(3725 * SECOND), "1:02:05");
}

#[test]
fn search_rows_mark_recommendations() {
    let liked = Liked::default();
    let hit = search_row(&track("a"), 0, 1, &vec![], &liked, U);
    assert_eq!(text(&hit), "[YouTube] Banda - Título  (5:54)");
    assert_eq!(hit[0].ink, Ink::Cyan);
    let rec = search_row(&track("b"), 1, 1, &vec![stats("b", true, 3)], &liked, U);
    assert_eq!(text(&rec), "[YouTube] ↳ Banda - Título  (5:54)  ● reciente · 3×");
    assert_eq!(rec[0].ink, Ink::Yellow);
    let none = search_row(&track("b"), 1, 0, &vec![stats("b", false, 2)], &liked, A);
    assert_eq!(text(&none), "[YouTube] Banda - Título  (5:54)  ~ 2×");
    assert_eq!(search_title(0), " Resultados ");
    assert_eq!(search_title(3), " Resultados + Recomendadas ");
    assert_eq!(query_title(true), " Consulta  (Enter selecciona el resultado)");
    assert_eq!(query_title(false), " Consulta ");
}

#[test]
fn liked_songs_show_their_heart() {
    let mut liked = Liked::default();
    liked.add(&track("a"));
    let row = search_row(&track("a"), 0, 0, &vec![], &liked, U);
    assert_eq!(text(&row), "[YouTube] Banda - Título   ♥  (5:54)");
    assert_eq!((row[3].ink, row[3].bold), (Ink::LightRed, true));
}

#[test]
fn queue_rows_mark_the_current_song_and_the_new_ones() {
    let mut state = RelatedState::default();
    state.set_queue(vec![track("a")], vec![QueueItemOrigin::User]);
    state.set_queue(
        vec![track("a"), track("b"), track("c")],
        vec![QueueItemOrigin::User, QueueItemOrigin::Recommendation],
    );
    let liked = Liked::default();
    let current = Some("b".to_string());
    let marks: Vec<String> = (0..3)
        .map(|i| queue_row(&state, i, &current, &vec![], &liked, U)[0].text.clone())
        .collect();
    assert_eq!(marks, vec!["· ", "▶ ", "✚ "]);
    state.set_queue(
        vec![track("a"), track("b"), track("c")],
        vec![QueueItemOrigin::User, QueueItemOrigin::Recommendation],
    );
    let marks: Vec<String> = (0..3)
        .map(|i| queue_row(&state, i, &None, &vec![], &liked, U)[0].text.clone())
        .collect();
    assert_eq!(marks, vec!["· ", "↻ ", "↻ "], "sin origen conocido cuenta como autoplay");
}

#[test]
fn songs_without_artist_or_duration_say_so() {
    let t = Track::new("Sola".to_string(), vec![], Source::YouTube);
    let row = search_row(&t, 0, 0, &vec![], &Liked::default(), U);
    assert_eq!(text(&row), "[YouTube] Desconocido - Sola  (duración pendiente)");
}

fn entry(duration: Option<i64>) -> HistoryEntry {
    HistoryEntry {
        track_id: 7,
        title: "Bohemian Rhapsody".to_string(),
        artist_name: Some("Queen".to_string()),
        source: Source::YouTube,
        played_at: "2026-08-02 12:00:00".to_string(),
        duration,
        play_count: 2,
    }
}

#[test]
fn history_rows_tell_when_and_how_often() {
    let mut liked = Liked::default();
    let row = history_row(&entry(Some(354_000)), &liked, U);
    assert_eq!(
        text(&row),
        "2026-08-02 12:00:00  [YouTube] Queen - Bohemian Rhapsody  (5:54)  2×"
    );
    let negative = history_row(&entry(Some(-1)), &liked, U);
    assert!(text(&negative).contains("(duración pendiente)"));
    let unknown = history_row(&entry(None), &liked, U);
    assert!(text(&unknown).contains("(duración pendiente)"));
    let mut t = track("x");
    t.id = 7;
    liked.add(&t);
    assert!(text(&history_row(&entry(None), &liked, A)).contains("   *"));
}

#[test]
fn system_playlists_stand_out() {
    let system = PlaylistRow {
        id: 1,
        name: "L1K3D".to_string(),
        kind: PlaylistKind::System,
        track_count: 12,
    };
    let row = playlist_row(&system, U);
    assert_eq!(text(&row), "♥ L1K3D  ·  12 tracks  ·  sistema  (protegida)");
    assert_eq!((row[1].ink, row[1].bold), (Ink::Magenta, true));
    let user = PlaylistRow {
        id: 2,
        name: "Viaje".to_string(),
        kind: PlaylistKind::User,
        track_count: 0,
    };
    let row = playlist_row(&user, A);
    assert_eq!(text(&row), "~ Viaje  ·  0 tracks  ·  usuario");
    assert_eq!(row[1].ink, Ink::White);
}

#[test]
fn metadata_lists_every_field() {
    let mut t = track("vid");
    t.album = Some(Album {
        title: "A Night at the Opera".to_string(),
        release_date: Some("1975-11-21".to_string()),
    });
    t.genres = std::sync::Arc::new(vec!["rock".to_string(), "pop".to_string()]);
    let rows = metadata_rows(&t, &Liked::default(), U);
    let fields: Vec<(&str, &str)> =
        rows.iter().map(|f| (f.name, f.value.text.as_str())).collect();
    assert_eq!(
        fields,
        vec![
            ("Título", "Título"),
            ("Artistas", "Banda"),
            ("Álbum", "A Night at the Opera (1975-11-21)"),
            ("Duración", "5:54"),
            ("Fuente", "YouTube"),
            ("L1K3D", "No en L1K3D · l para marcarla"),
            ("ISRC", "-"),
            ("ID externo", "vid"),
            ("URL", "-"),
            ("Géneros", "rock, pop"),
        ]
    );
    let mut liked = Liked::default();
    liked.add(&t);
    assert_eq!(metadata_rows(&t, &liked, U)[5].value.text, "♥ En L1K3D");
    t.genres = std::sync::Arc::new(vec![]);
    assert_eq!(metadata_rows(&t, &liked, U)[9].value.text, "-");
}

#[test]
fn sources_are_listed_or_missed() {
    assert_eq!(text(&source_rows(&vec![], U)[0]), "Sin fuentes configuradas");
    let rows = source_rows(&vec![Source::YouTube], U);
    assert_eq!(rows.len(), 1);
    assert_eq!(text(&rows[0]), "● YouTube");
}

#[test]
fn a_click_selects_the_row_under_the_mouse_once() {
    let mut list = ListState { selected: Some(4) };
    let mut click = true;
    apply_click(&mut list, &mut click, Some(1));
    assert_eq!((list.selected, click), (Some(1), false));
    apply_click(&mut list, &mut click, Some(2));
    assert_eq!(list.selected, Some(1), "sin clic no se mueve");
    let mut click = true;
    apply_click(&mut list, &mut click, None);
    assert_eq!((list.selected, click), (Some(1), false));
    assert_eq!(row_ink(3, Some(3)), Ink::Gray);
    assert_eq!(row_ink(3, Some(2)), Ink::Plain);
    assert_eq!(row_ink(3, None), Ink::Plain);
}

#[test]
fn a_new_playlist_is_named_in_its_field() {
    assert_eq!(text(&create_row(&"Mi".to_string(), U)), "▸ Mi▌");
    assert_eq!(text(&create_row(&"".to_string(), A)), "> |");
    assert_eq!(detail_hint(0), "Playlist vacía. Esc para volver · p para reproducirla.");
    assert_eq!(detail_hint(2), "Enter reproduce · x quita · u/D mueve · p reproduce toda.");
}
