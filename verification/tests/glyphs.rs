use tunefold::glyphs::{GlyphTheme, UiGlyphs, SPINNER_ASCII, SPINNER_BRAILLE};

const U: UiGlyphs = UiGlyphs { theme: GlyphTheme::Unicode };
const A: UiGlyphs = UiGlyphs { theme: GlyphTheme::Ascii };

#[test]
fn every_state_has_an_ascii_fallback() {
    assert_ne!(U.heart_liked(), A.heart_liked());
    assert_ne!(U.heart_empty(), A.heart_empty());
    assert_ne!(U.play(), A.play());
    assert_ne!(U.pause(), A.pause());
    assert_ne!(U.stop(), A.stop());
    assert_ne!(U.seeking(), A.seeking());
    assert_ne!(U.trace_left(), A.trace_left());
    assert_ne!(U.trace_right(), A.trace_right());
    assert_ne!(U.trace_both(), A.trace_both());
    let ascii_variants = [
        A.current(),
        A.newly_added(),
        A.auto(),
        A.explicit(),
        A.recent(),
        A.listens(),
        A.recommended(),
        A.playlist_system(),
        A.playlist_user(),
        A.active_source(),
        A.prompt(),
        A.status(),
        A.trace_left(),
        A.trace_right(),
        A.trace_both(),
    ];
    for name in ascii_variants {
        assert_eq!(
            name.chars().filter(|c| !c.is_ascii()).count(),
            0,
            "el tema ASCII de «{name}» debe ser 7-bit ASCII"
        );
    }
}

#[test]
fn trace_points_are_width_one_in_both_themes() {
    for g in [U.trace_left(), U.trace_right(), U.trace_both()] {
        assert_eq!(g.chars().count(), 1, "punto «{g}» es un único carácter");
    }
    for g in [A.trace_left(), A.trace_right(), A.trace_both()] {
        assert_eq!(g.chars().count(), 1);
    }
}

#[test]
fn functional_glyphs_are_single_column() {
    for g in [U.current(), U.newly_added(), U.auto(), U.explicit()] {
        assert_eq!(g.chars().count(), 2, "marcador «{g}» = glifo + espacio");
        assert_eq!(g.bytes().last(), Some(b' '), "siempre con espacio");
    }
}

#[test]
fn heart_is_width_one_in_both_themes() {
    assert_eq!(U.heart_liked().chars().count(), 1);
    assert_eq!(U.heart_empty().chars().count(), 1);
    assert_eq!(A.heart_liked().chars().count(), 1);
    assert_eq!(A.heart_empty().chars().count(), 1);
}

#[test]
fn spinner_cycles_without_panicking() {
    for f in 0..32 {
        let c = U.spinner(f);
        assert_eq!(c.len_utf8(), c.len_utf8().min(4));
        assert!(SPINNER_BRAILLE.contains(&c) || SPINNER_ASCII.contains(&c));
    }
}

#[test]
fn activity_always_three_columns() {
    for f in 0..16 {
        assert_eq!(U.activity(f).chars().count(), 3);
        assert_eq!(A.activity(f).chars().count(), 3);
    }
}

#[test]
fn theme_detect_prefers_unicode_by_default() {
    assert_eq!(U.theme(), GlyphTheme::Unicode);
    assert_eq!(A.theme(), GlyphTheme::Ascii);
}

#[test]
fn pick_returns_both_branches() {
    assert_eq!(U.pick("x", "y"), "x");
    assert_eq!(A.pick("x", "y"), "y");
}

#[test]
fn theme_follows_the_environment() {
    assert_eq!(GlyphTheme::detect(None, None), GlyphTheme::Unicode);
    assert_eq!(GlyphTheme::detect(Some("ascii"), None), GlyphTheme::Ascii);
    assert_eq!(GlyphTheme::detect(Some("ASCII"), Some("xterm")), GlyphTheme::Ascii);
    assert_eq!(UiGlyphs::new(GlyphTheme::Ascii).theme(), GlyphTheme::Ascii);
}
