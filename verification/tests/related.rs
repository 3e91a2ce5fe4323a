use tunefold::contrast::contrast_ratio;
use tunefold::domain::{LyricLine, Source, SyncLyrics, Track, SECOND};
use tunefold::layout::Rect;
use tunefold::palette::VisualTheme;
use tunefold::playback::{QueueItemOrigin, VisualContent};
use tunefold::related::{karaoke_line, message_position, BandContent, RelatedState};

fn lyrics(lines: &[(u64, &str)]) -> SyncLyrics {
    SyncLyrics {
        lines: lines
            .iter()
            .map(|(at, text)| LyricLine { at: at * SECOND, text: text.to_string() })
            .collect(),
    }
}

fn singing(lines: &[(u64, &str)]) -> RelatedState {
    let mut state = RelatedState::default();
    state.set_synced(Some(lyrics(lines)));
    state
}

fn track(id: &str) -> Track {
    let mut t = Track::new(format!("T {id}"), vec!["Banda".to_string()], Source::YouTube);
    t.external_id = Some(id.to_string());
    t
}

fn ratio(a: [u8; 3], b: [u8; 3]) -> f64 {
    let (hi, lo) = contrast_ratio(a, b);
    hi as f64 / lo as f64
}

#[test]
fn last_line_stays_visible_during_outro_and_clears_at_real_end() {
    let state = singing(&[(5, "uno"), (10, "dos")]);
    assert_eq!(karaoke_line(&state, 7 * SECOND, false), Some(0), "línea activa visible");
    assert_eq!(
        karaoke_line(&state, 11 * SECOND, false),
        Some(1),
        "durante el outro la última línea sigue visible"
    );
    assert_eq!(karaoke_line(&state, 11 * SECOND, true), None, "al fin real se limpia el panel");
}

#[test]
fn outro_does_not_clear_before_real_end() {
    let state = singing(&[(5, "uno"), (10, "dos")]);
    assert_eq!(
        karaoke_line(&state, 60 * SECOND, false),
        Some(1),
        "durante el outro la última línea se queda (no se limpia a los 10s)"
    );
    assert_eq!(
        karaoke_line(&state, 10 * SECOND, false),
        Some(1),
        "durante la última línea aún se ve"
    );
}

#[test]
fn karaoke_clears_at_real_end_when_lrc_lasts_longer() {
    let state = singing(&[(5, "uno"), (200, "dos")]);
    assert_eq!(
        karaoke_line(&state, 180 * SECOND, true),
        None,
        "al terminar la canción se limpia aunque el LRC no haya acabado"
    );
}

#[test]
fn karaoke_uses_cover_palette() {
    let cover = Some([[255, 0, 0], [0, 255, 0], [0, 0, 255]]);
    let theme = VisualTheme::from_cover(cover);
    let colors = theme.karaoke_colors();
    let bg = theme.karaoke_bg_ceiling();
    assert!(ratio(colors.current, bg) >= 4.5);
    assert!(ratio(colors.read, bg) >= 3.0);
    assert!(ratio(colors.unread, bg) >= 3.0);
    assert!(
        colors.current[0] >= colors.current[1] && colors.current[0] >= colors.current[2],
        "activa conserva dominancia roja: {:?}",
        colors.current
    );
}

#[test]
fn unavailable_lyrics_show_clean_state_without_plain_fallback() {
    let mut state = RelatedState::default();
    state.set_synced(None);
    let content =
        BandContent::resolve(VisualContent::Lyrics, state.has_lyrics(), state.synced_unavailable);
    assert_eq!(content.message(), Some("Letras sincronizadas no disponibles"));
    assert_eq!(
        message_position(Rect::new(0, 0, 60, 9), 35),
        Some((12, 4)),
        "el aviso va centrado"
    );
}

#[test]
fn explicit_visual_mode_overrides_lyrics() {
    let state = singing(&[(5, "una linea oculta")]);
    assert!(state.has_lyrics());
    let content =
        BandContent::resolve(VisualContent::Visual, state.has_lyrics(), state.synced_unavailable);
    assert_eq!(content, BandContent::Visual, "en modo visual no se pintan las letras");
}

#[test]
fn karaoke_colors_resolve_for_contrast() {
    let p = VisualTheme::fallback();
    let colors = p.karaoke_colors();
    let bg = p.karaoke_bg_ceiling();
    assert!(ratio(colors.current, bg) >= 4.5, "activa legible");
    assert!(ratio(colors.read, bg) >= 3.0, "leída legible");
    assert!(ratio(colors.unread, bg) >= 3.0, "no leída legible");
}

#[test]
fn band_content_resolves_from_mode() {
    assert!(matches!(
        BandContent::resolve(VisualContent::Auto, true, false),
        BandContent::Lyrics
    ));
    assert!(matches!(
        BandContent::resolve(VisualContent::Auto, false, false),
        BandContent::Visual
    ));
    assert!(matches!(
        BandContent::resolve(VisualContent::Lyrics, false, true),
        BandContent::Unavailable
    ));
    assert!(matches!(
        BandContent::resolve(VisualContent::Lyrics, false, false),
        BandContent::Waiting
    ));
    assert!(matches!(
        BandContent::resolve(VisualContent::Lyrics, true, false),
        BandContent::Lyrics
    ));
    assert!(matches!(
        BandContent::resolve(VisualContent::Visual, true, false),
        BandContent::Visual
    ));
}

#[test]
fn replacing_the_queue_marks_what_is_new() {
    let mut state = RelatedState::default();
    state.set_queue(vec![track("a"), track("b")], vec![QueueItemOrigin::User; 2]);
    state.set_queue(
        vec![track("a"), track("b"), track("c")],
        vec![QueueItemOrigin::Recommendation; 3],
    );
    assert_eq!(state.previous_len, 2);
    assert!(state.new_ids.contains(&"c".to_string()));
    assert!(!state.new_ids.contains(&"a".to_string()));
    state.select_next();
    assert_eq!(state.selected().unwrap().identifier(), "a");
    state.select_prev();
    assert_eq!(state.selected().unwrap().identifier(), "c");
}
