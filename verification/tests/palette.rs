use tunefold::contrast::{blend, contrast_ratio, ensure_contrast, relative_luminance, LUMINANCE_ONE};
use tunefold::cover::{rgb_dist_sq, CoverColorMatrix, MATRIX_CELLS};
use tunefold::palette::{VisualTheme, KARAOKE_ACTIVE_CONTRAST, KARAOKE_DIM_CONTRAST};

const ACTIVE: f64 = KARAOKE_ACTIVE_CONTRAST as f64 / 10.0;
const DIM: f64 = KARAOKE_DIM_CONTRAST as f64 / 10.0;

fn pct(a: [u8; 3], b: [u8; 3], t: f64) -> [u8; 3] {
    blend(a, b, (t * 100.0).round() as u32, 100)
}

fn lum(c: [u8; 3]) -> f64 {
    relative_luminance(c) as f64 / LUMINANCE_ONE as f64
}

fn ratio(a: [u8; 3], b: [u8; 3]) -> f64 {
    let (hi, lo) = contrast_ratio(a, b);
    hi as f64 / lo as f64
}

fn ensure(fg: [u8; 3], bg: [u8; 3], target: f64) -> [u8; 3] {
    ensure_contrast(fg, bg, (target * 10.0).round() as u64, 10)
}

fn channel_distance(a: [u8; 3], b: [u8; 3]) -> f64 {
    (rgb_dist_sq(a, b) as f64).sqrt()
}

#[test]
fn no_cover_equals_fallback_exactly() {
    assert_eq!(VisualTheme::from_cover(None), VisualTheme::fallback());
}

#[test]
fn from_cover_maps_dominants_and_darkens_background() {
    let cover = Some([[200u8, 40, 40], [40, 200, 60], [30, 60, 220]]);
    let p = VisualTheme::from_cover(cover);
    assert_eq!(p.primary, [200, 40, 40]);
    assert_eq!(p.secondary, [40, 200, 60]);
    assert_eq!(p.accent, [35, 63, 215]);
    assert_eq!(p.background, [(200.0f32 * 0.22).round() as u8, 9, 9]);
    assert!(
        u32::from(p.background[0]) + u32::from(p.background[1]) + u32::from(p.background[2])
            < u32::from(p.primary[0]) + u32::from(p.primary[1]) + u32::from(p.primary[2]),
        "el fondo es siempre una versión oscura del dominante"
    );
}

#[test]
fn tame_keeps_hue_but_caps_neon_white_and_black() {
    let neon = VisualTheme::from_cover(Some([[255u8, 0, 0], [0, 255, 0], [0, 0, 255]]));
    assert_eq!(neon.primary, [219, 36, 36]);
    assert_eq!(neon.secondary, [36, 219, 36]);
    assert_eq!(neon.accent, [36, 36, 219]);
    let white =
        VisualTheme::from_cover(Some([[250u8, 245, 235], [250, 245, 235], [250, 245, 235]]));
    assert_eq!(white.primary, [233, 210, 165]);
    let black = VisualTheme::from_cover(Some([[5u8, 5, 5], [5, 5, 5], [5, 5, 5]]));
    assert_eq!(black.primary, [71, 71, 71]);
    let gray =
        VisualTheme::from_cover(Some([[128u8, 128, 128], [128, 128, 128], [128, 128, 128]]));
    assert_eq!(gray.primary, [128, 128, 128]);
    assert_eq!(
        VisualTheme::from_cover(Some([[255u8, 0, 0], [0, 255, 0], [0, 0, 255]])),
        neon
    );
}

#[test]
fn mix_endpoints_are_exact() {
    let a = VisualTheme::from_cover(Some([[10u8, 10, 10], [20, 20, 20], [30, 30, 30]]));
    let b =
        VisualTheme::from_cover(Some([[200u8, 200, 200], [220, 220, 220], [240, 240, 240]]));
    assert_eq!(a.mix(&b, 0.0f32.to_bits()), a);
    assert_eq!(a.mix(&b, 1.0f32.to_bits()), b);
}

#[test]
fn mix_is_deterministic_and_bounded() {
    let a = VisualTheme::fallback();
    let b = VisualTheme::from_cover(Some([[0u8, 20, 250], [10, 30, 0], [5, 5, 5]]));
    let m1 = a.mix(&b, 0.43f32.to_bits());
    let m2 = a.mix(&b, 0.43f32.to_bits());
    assert_eq!(m1, m2, "la mezcla es una función pura");
    assert_eq!(a.mix(&b, (-5.0f32).to_bits()), a, "t < 0 se trata como 0");
    assert_eq!(a.mix(&b, 99.0f32.to_bits()), b, "t > 1 se trata como 1");
}

#[test]
fn repeated_mix_converges_toward_target() {
    let target = VisualTheme::from_cover(Some([[255u8, 0, 0], [0, 255, 0], [0, 0, 255]]));
    let mut cur = VisualTheme::fallback();
    for _ in 0..40 {
        cur = cur.mix(&target, 0.35f32.to_bits());
    }
    let diff = |a: &[u8; 3], b: &[u8; 3]| {
        a.iter()
            .zip(b.iter())
            .map(|(x, y)| (*x as i32 - *y as i32).abs())
            .sum::<i32>()
    };
    assert!(
        diff(&cur.primary, &target.primary) <= 3,
        "converge al dominante"
    );
    assert!(diff(&cur.background, &target.background) <= 3);
}

#[test]
fn luminance_of_known_colors() {
    assert_eq!(lum([0, 0, 0]), 0.0);
    assert!((lum([255, 255, 255]) - 1.0).abs() < 1e-9);
    let mid = lum([128, 128, 128]);
    assert!(mid > 0.18 && mid < 0.25, "gris 128 → luminancia {mid}");
}

#[test]
fn contrast_ratio_extremes() {
    assert_eq!(ratio([0, 0, 0], [255, 255, 255]), 21.0);
    assert!(
        (ratio([0, 0, 0], [0, 0, 0]) - 1.0).abs() < 1e-9,
        "mismo color → 1:1"
    );
    assert_eq!(ratio([255, 255, 255], [0, 0, 0]), 21.0);
}

#[test]
fn compliant_color_is_kept_intact() {
    let fg = [255, 255, 255];
    assert_eq!(ensure(fg, [20, 14, 26], 4.5), fg);
    let fg_black = [0, 0, 0];
    assert_eq!(ensure(fg_black, [230, 230, 230], 4.5), fg_black);
}

#[test]
fn dark_background_resolves_toward_white() {
    let bg = VisualTheme::from_cover(Some([[120u8, 20, 20], [10, 140, 40], [20, 30, 60]]))
        .karaoke_bg_ceiling();
    let out = ensure([120, 20, 20], bg, ACTIVE);
    assert!(
        ratio(out, bg) >= ACTIVE,
        "χ {} < {ACTIVE} ({out:?} sobre {bg:?})",
        ratio(out, bg)
    );
    let (r, g, b) = (out[0], out[1], out[2]);
    assert!(
        u32::from(r) + u32::from(g) + u32::from(b) > 3 * 128,
        "se ilumina hacia blanco: {out:?}"
    );
}

#[test]
fn light_background_resolves_toward_black() {
    let out = ensure([240, 240, 240], [200, 200, 200], ACTIVE);
    assert!(
        ratio(out, [200, 200, 200]) >= ACTIVE,
        "χ {} < 4.5",
        ratio(out, [200, 200, 200])
    );
    let l = u32::from(out[0]) + u32::from(out[1]) + u32::from(out[2]);
    assert!(l < 3 * 128, "se oscurece hacia negro: {out:?}");
}

#[test]
fn light_cover_still_yields_dark_scene() {
    let whiteish = [[240u8, 240, 240], [230, 235, 240], [250, 245, 235]];
    let p = VisualTheme::from_cover(Some(whiteish));
    let bg = p.karaoke_bg_ceiling();
    assert!(
        lum(bg) < 0.5,
        "el techo del fondo sigue siendo oscuro: {bg:?}"
    );
    let c = p.karaoke_colors();
    assert!(
        ratio(c.current, bg) >= ACTIVE,
        "activa χ {} < 4.5",
        ratio(c.current, bg)
    );
    assert!(
        c.current[0] >= 190 && c.current[1] >= 190,
        "se resuelve claro: {:?}",
        c.current
    );
}

#[test]
fn impossible_target_returns_best_endpoint() {
    let out = ensure([128, 128, 128], [20, 14, 26], 21.0);
    assert_eq!(out, [255, 255, 255]);
}

#[test]
fn karaoke_colors_meet_thresholds_on_dark_covers() {
    let dark = [[40u8, 30, 90], [120, 60, 40], [10, 80, 110]];
    let p = VisualTheme::from_cover(Some(dark));
    let c = p.karaoke_colors();
    let bg = p.karaoke_bg_ceiling();
    assert!(
        ratio(c.current, bg) >= ACTIVE,
        "activa χ {} < 4.5",
        ratio(c.current, bg)
    );
    assert!(
        ratio(c.read, bg) >= DIM,
        "leída χ {} < 3",
        ratio(c.read, bg)
    );
    assert!(
        ratio(c.unread, bg) >= DIM,
        "no leída χ {} < 3",
        ratio(c.unread, bg)
    );
    assert!(
        ratio(c.current, bg) >= ratio(c.read, bg),
        "la activa es siempre la de mayor contraste"
    );
}

#[test]
fn karaoke_colors_adapt_to_light_covers() {
    let light = [[220u8, 180, 150], [150, 220, 160], [200, 210, 230]];
    let p = VisualTheme::from_cover(Some(light));
    let c = p.karaoke_colors();
    let bg = p.karaoke_bg_ceiling();
    for (name, color) in [
        ("activa", c.current),
        ("leída", c.read),
        ("no leída", c.unread),
    ] {
        assert!(
            ratio(color, bg) >= DIM,
            "{name} χ {} < 3",
            ratio(color, bg)
        );
    }
}

#[test]
fn karaoke_colors_work_without_cover() {
    let p = VisualTheme::fallback();
    let c = p.karaoke_colors();
    let bg = p.karaoke_bg_ceiling();
    assert!(ratio(c.current, bg) >= ACTIVE);
    assert!(ratio(c.read, bg) >= DIM);
    assert!(ratio(c.unread, bg) >= DIM);
}

#[test]
fn falls_short_of_cover_reaches_some_contrast() {
    let p =
        VisualTheme::from_cover(Some([[130u8, 130, 130], [160, 160, 160], [120, 120, 120]]));
    let c = p.karaoke_colors();
    let bg = p.karaoke_bg_ceiling();
    assert!(ratio(c.unread, bg) >= DIM);
    assert!(
        ratio(c.current, bg) >= ACTIVE
            || lum(bg) > 0.2,
        "sobre fondo intermedio se degrada al mejor posible: χ {}",
        ratio(c.current, bg)
    );
}

fn solid_rgba(color: [u8; 3], w: u32, h: u32) -> Vec<u8> {
    let mut v = Vec::with_capacity(w as usize * h as usize * 4);
    for _ in 0..w * h {
        v.extend_from_slice(&[color[0], color[1], color[2], 255]);
    }
    v
}

#[test]
fn matrix_is_deterministic_per_cover_bytes() {
    let red = solid_rgba([200, 30, 30], 12, 12);
    let m1 = CoverColorMatrix::from_rgba(&red, 12, 12).expect("matriz roja");
    let m2 = CoverColorMatrix::from_rgba(&red, 12, 12).expect("matriz roja");
    assert_eq!(m1, m2, "misma portada ⇒ misma matriz");
    let blue = solid_rgba([30, 60, 220], 12, 12);
    let m3 = CoverColorMatrix::from_rgba(&blue, 12, 12).expect("matriz azul");
    assert_ne!(m1, m3, "portadas distintas ⇒ matrices distintas");
    assert!(m1.cells.iter().all(|c| *c == [200, 30, 30]));
    assert_eq!(m1.populations.iter().sum::<u32>(), 144);
    assert_eq!(m1.dominants()[0], [200, 30, 30]);
}

#[test]
fn matrix_preserves_spatial_regions() {
    let mut rgba = Vec::new();
    for y in 0..12u32 {
        let px = if y < 6 {
            [30, 60, 220, 255]
        } else {
            [200, 30, 30, 255]
        };
        for _ in 0..12 {
            rgba.extend_from_slice(&px);
        }
    }
    let m = CoverColorMatrix::from_rgba(&rgba, 12, 12).expect("matriz");
    assert_eq!(m.cells[0], [30, 60, 220], "celda superior = azul");
    assert_eq!(
        m.cells[MATRIX_CELLS - 1],
        [200, 30, 30],
        "celda inferior = roja"
    );
    let d = m.dominants();
    assert!(d.contains(&[30, 60, 220]) && d.contains(&[200, 30, 30]));
}

#[test]
fn matrix_rejects_empty_or_transparent_input() {
    assert!(CoverColorMatrix::from_rgba(&[], 0, 0).is_none());
    assert!(
        CoverColorMatrix::from_rgba(&[1, 2, 3], 6, 6).is_none(),
        "buffer corto"
    );
    let mut ghost = Vec::with_capacity(36 * 4);
    for _ in 0..36 {
        ghost.extend_from_slice(&[10u8, 20, 30, 0]);
    }
    assert!(
        CoverColorMatrix::from_rgba(&ghost, 6, 6).is_none(),
        "todo transparente ⇒ None"
    );
}

#[test]
fn same_matrix_yields_same_theme() {
    let rgba = solid_rgba([40, 180, 90], 12, 12);
    let m = CoverColorMatrix::from_rgba(&rgba, 12, 12).unwrap();
    assert_eq!(VisualTheme::from_matrix(&m), VisualTheme::from_matrix(&m));
}

#[test]
fn cover_bridge_uses_single_derivation_path() {
    for cover in [
        Some([[200u8, 40, 40], [40, 200, 60], [30, 60, 220]]),
        Some([[255u8, 0, 0], [0, 255, 0], [0, 0, 255]]),
        Some([[120u8, 120, 120], [130, 130, 130], [128, 128, 128]]),
        None,
    ] {
        let a = VisualTheme::from_cover(cover);
        let b = cover
            .map(|p| VisualTheme::from_matrix(&CoverColorMatrix::from_dominants(p)))
            .unwrap_or_else(VisualTheme::fallback);
        assert_eq!(a, b, "vía única para {cover:?}");
    }
}

#[test]
fn fallback_roles_match_derivation() {
    let f = VisualTheme::fallback();
    assert_eq!(f.surface, pct(f.background, f.primary, 0.18));
    assert_eq!(
        f.surface_alt,
        pct(f.background, f.secondary, 0.18)
    );
    assert_eq!(f.border, pct(f.primary, f.background, 0.72));
    assert_eq!(f.title, f.primary);
    assert_eq!(
        f.selection,
        pct(f.primary, f.background, 0.38)
    );
    assert_eq!(f.glow, pct(f.primary, [255, 255, 255], 0.30));
}

#[test]
fn each_song_gets_its_own_chromatic_identity() {
    let red = VisualTheme::from_cover(Some([[220u8, 30, 30], [200, 40, 40], [180, 30, 30]]));
    let green = VisualTheme::from_cover(Some([[30u8, 200, 60], [40, 180, 70], [30, 170, 60]]));
    let blue = VisualTheme::from_cover(Some([[30u8, 60, 220], [40, 70, 200], [30, 50, 210]]));
    assert_ne!(red, green);
    assert_ne!(green, blue);
    assert!(
        red.primary[0] > red.primary[1] && red.primary[0] > red.primary[2],
        "portada roja ⇒ primario rojo: {:?}",
        red.primary
    );
    assert!(
        green.primary[1] > green.primary[0] && green.primary[1] > green.primary[2],
        "portada verde ⇒ primario verde: {:?}",
        green.primary
    );
    assert!(
        blue.primary[2] > blue.primary[0] && blue.primary[2] > blue.primary[1],
        "portada azul ⇒ primario azul: {:?}",
        blue.primary
    );
    assert!(
        red.background[0] > red.background[2],
        "fondo rojizo: {:?}",
        red.background
    );
    assert!(
        blue.background[2] > blue.background[0],
        "fondo azulado: {:?}",
        blue.background
    );
}

#[test]
fn theme_roles_keep_contrast_on_extreme_covers() {
    for cover in [
        Some([[5u8, 5, 5], [8, 8, 8], [12, 12, 12]]),
        Some([[250u8, 245, 235], [245, 240, 230], [248, 242, 235]]),
        Some([[255u8, 0, 255], [0, 255, 255], [255, 255, 0]]),
        Some([[128u8, 128, 128], [128, 128, 128], [128, 128, 128]]),
    ] {
        let t = VisualTheme::from_cover(cover);
        let bg = t.karaoke_bg_ceiling();
        let lyrics = t.karaoke_colors();
        assert!(
            ratio(lyrics.current, bg) >= DIM,
            "activa legible en {cover:?}: χ {}",
            ratio(lyrics.current, bg)
        );
        let ch = t.channel_colors();
        assert!(
            channel_distance(ch.left, ch.right) >= 100.0,
            "L/R distintos en {cover:?}"
        );
        assert_ne!(t.selection, t.background);
        assert_ne!(t.border, t.background);
    }
}

#[test]
fn theme_mixes_as_a_unit() {
    let a = VisualTheme::from_cover(Some([[200u8, 40, 40], [40, 200, 60], [30, 60, 220]]));
    let b = VisualTheme::from_cover(Some([[30u8, 60, 220], [40, 200, 60], [200, 40, 40]]));
    let mid = a.mix(&b, 0.5f32.to_bits());
    for (name, m, x, y) in [
        ("surface", mid.surface, a.surface, b.surface),
        ("border", mid.border, a.border, b.border),
        ("selection", mid.selection, a.selection, b.selection),
        ("glow", mid.glow, a.glow, b.glow),
    ] {
        for i in 0..3 {
            let expect = ((x[i] as f32 + y[i] as f32) / 2.0).round() as u8;
            assert!(
                m[i].abs_diff(expect) <= 1,
                "{name}[{i}]: {} vs punto medio {expect}",
                m[i]
            );
        }
    }
}

#[test]
fn channel_colors_are_distinct_and_deterministic() {
    for cover in [
        None,
        Some([[200u8, 40, 40], [40, 200, 60], [30, 60, 220]]),
        Some([[255u8, 0, 0], [0, 255, 0], [0, 0, 255]]),
        Some([[40u8, 30, 90], [120, 60, 40], [10, 80, 110]]),
        Some([[240u8, 220, 200], [230, 235, 240], [250, 245, 235]]),
        Some([[120u8, 120, 120], [130, 130, 130], [128, 128, 128]]),
    ] {
        let p = VisualTheme::from_cover(cover);
        let c1 = p.channel_colors();
        let c2 = p.channel_colors();
        assert_eq!(c1, c2, "determinista sin portada ni con ella");
        assert!(
            channel_distance(c1.left, c1.right) >= 100.0,
            "L {:?} y R {:?} quedan perceptualmente separados (dist {:.0})",
            c1.left,
            c1.right,
            channel_distance(c1.left, c1.right)
        );
    }
}

#[test]
fn channel_colors_derive_from_cover_palette() {
    let p = VisualTheme::from_cover(Some([[200u8, 40, 40], [40, 200, 60], [30, 60, 220]]));
    let c = p.channel_colors();
    assert!(
        (c.left[2] as u16) > (c.left[1] as u16),
        "L conservaComponente azul (accent) sobre verde: {:?}",
        c.left
    );
    assert!(
        (c.right[1] as u16) > (c.right[2] as u16),
        "R tira a verde (secondary): {:?}",
        c.right
    );
    assert_ne!(c.left, c.right);
}

