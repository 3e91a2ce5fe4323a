use std::collections::{HashMap, HashSet};

use tunefold::contrast::blend;
use tunefold::domain::SECOND;
use tunefold::glyphs::{GlyphTheme, UiGlyphs};
use tunefold::palette::VisualTheme;
use tunefold::scope::{
    bar_color, bar_glyph, bar_index, bar_level, column_bucket_range, panel_color, point_symbol,
    position_jumped, scatter_emit, scatter_min_dist, scene_min_dist, trace_bucket, trace_colors,
    trace_points, ChannelRows, ColumnRows, PointKind, TraceColors, VISUAL_BARS,
    WAVEFORM_BUCKETS,
};

/// Least, greatest and middle value of each bucket of a window.
#[derive(Clone, Copy)]
struct Envelope {
    min: [f32; WAVEFORM_BUCKETS],
    max: [f32; WAVEFORM_BUCKETS],
    trace: [f32; WAVEFORM_BUCKETS],
}

fn envelope(samples: &[f32]) -> Envelope {
    let per = samples.len() / WAVEFORM_BUCKETS;
    let mut e = Envelope {
        min: [0.0; WAVEFORM_BUCKETS],
        max: [0.0; WAVEFORM_BUCKETS],
        trace: [0.0; WAVEFORM_BUCKETS],
    };
    for b in 0..WAVEFORM_BUCKETS {
        let part = &samples[b * per..(b + 1) * per];
        e.min[b] = part.iter().cloned().fold(f32::INFINITY, f32::min);
        e.max[b] = part.iter().cloned().fold(f32::NEG_INFINITY, f32::max);
        e.trace[b] = part[per / 2];
    }
    e
}

fn silent() -> Envelope {
    envelope(&[0.0; 2048])
}

fn row_of(value: f32, center: f32, scale: f32, h: usize) -> u16 {
    let projected = (value.clamp(-1.0, 1.0) * 3.0).atan() / 1.2490458;
    (center - projected * scale).round().clamp(0.0, (h - 1) as f32) as u16
}

fn channel_rows(e: &Envelope, w: usize, col: usize, h: usize, center: f32, scale: f32) -> ChannelRows {
    let (lo, hi) = column_bucket_range(w, col);
    let low = e.min[lo..hi].iter().cloned().fold(f32::INFINITY, f32::min);
    let high = e.max[lo..hi].iter().cloned().fold(f32::NEG_INFINITY, f32::max);
    ChannelRows {
        trace: row_of(e.trace[trace_bucket(w, col)], center, scale, h),
        low: row_of(low, center, scale, h),
        high: row_of(high, center, scale, h),
    }
}

fn columns(left: &Envelope, right: &Envelope, w: usize, h: usize) -> Vec<ColumnRows> {
    let span = h as f32 - 1.0;
    let scale = span * 0.25 * 0.75;
    (0..w)
        .map(|col| ColumnRows {
            left: channel_rows(left, w, col, h, span * 0.25, scale),
            right: channel_rows(right, w, col, h, span * 0.75, scale),
        })
        .collect()
}

/// What is seen of a scope: the kind of the last point in each cell.
fn seen(left: &Envelope, right: &Envelope, w: usize, h: usize, quiet: bool) -> HashMap<(usize, u16), PointKind> {
    let points = trace_points(&columns(left, right, w, h), scene_min_dist(w, quiet));
    points.iter().map(|p| ((p.col, p.row), p.kind)).collect()
}

fn sine(amp: f32, cycles: f32) -> Envelope {
    let samples: Vec<f32> = (0..2048)
        .map(|i| amp * ((i as f32 / 2048.0) * std::f32::consts::TAU * cycles).sin())
        .collect();
    envelope(&samples)
}

/// A sine with a phase of its own.
fn view(amp: f32, seed: usize) -> Envelope {
    let cycles = 6.0 + (seed % 3) as f32;
    let samples: Vec<f32> = (0..1024)
        .map(|i| {
            let ang = std::f32::consts::TAU * (i as f32 / 1024.0) * cycles + (seed as f32) * 0.7;
            amp * ang.sin()
        })
        .collect();
    envelope(&samples)
}

fn columns_painted(cells: &HashMap<(usize, u16), PointKind>) -> usize {
    cells.keys().map(|(x, _)| *x).collect::<HashSet<usize>>().len()
}

#[test]
fn bucket_column_mapping_covers_every_bucket_at_any_width() {
    for w in [1usize, 17, 38, 100, 128, 200, WAVEFORM_BUCKETS + 40] {
        let mut bucket_hit = [false; WAVEFORM_BUCKETS];
        for col in 0..w {
            let (lo, hi) = column_bucket_range(w, col);
            assert!(hi > lo, "columna {col} no vacía con ancho {w}");
            assert!(hi <= WAVEFORM_BUCKETS, "rango acotado con ancho {w}");
            bucket_hit[lo..hi].fill(true);
        }
        assert!(
            bucket_hit.iter().all(|h| *h),
            "todos los buckets llegan a alguna columna con ancho {w}"
        );
    }
}

#[test]
fn scatter_spacing_adapts_to_width_without_losing_shape() {
    assert_eq!(scatter_min_dist(40), 2);
    assert_eq!(scatter_min_dist(100), 2);
    assert_eq!(scatter_min_dist(101), 3);
    assert_eq!(scatter_min_dist(160), 3);
    for min_dist in [2usize, 3] {
        let mut last = Some((10usize, 4u16));
        assert!(scatter_emit(&mut last, 11, 5, min_dist));
        let mut l2 = Some((10usize, 4u16));
        assert!(!scatter_emit(&mut l2, 10 + min_dist - 1, 4, min_dist));
        assert!(scatter_emit(&mut l2, 10 + min_dist, 4, min_dist));
    }
}

#[test]
fn scatter_leaves_gaps_for_redundant_signal() {
    let e = envelope(&[0.5; 2048]);
    let cells = seen(&e, &e, 40, 8, true);
    let cols_with_points = columns_painted(&cells);
    assert!(cols_with_points > 0, "la señal constante sigue visible");
    assert!(
        cols_with_points < 40,
        "pero no ocupa todas las columnas ({cols_with_points}/40): hay huecos"
    );
}

#[test]
fn trace_never_fills_vertical_interval_between_min_and_max() {
    let square: Vec<f32> = (0..1024).map(|i| if i % 2 == 0 { 0.9 } else { -0.9 }).collect();
    let e = envelope(&square);
    let cells = seen(&e, &e, 40, 8, true);
    let at = |x: usize, y: u16| cells.contains_key(&(x, y));
    let mut checked_l = 0usize;
    let mut checked_r = 0usize;
    for x in 0..40usize {
        if (0..2u16).any(|y| at(x, y)) && (2..4u16).any(|y| at(x, y)) {
            assert!((1..3u16).any(|y| !at(x, y)), "columna {x}: L no rellena su intervalo");
            checked_l += 1;
        }
        if (4..6u16).any(|y| at(x, y)) && (6..8u16).any(|y| at(x, y)) {
            assert!((5..7u16).any(|y| !at(x, y)), "columna {x}: R no rellena su intervalo");
            checked_r += 1;
        }
    }
    assert!(checked_l > 0, "hay columnas L con pico+valle para verificar");
    assert!(checked_r > 0, "hay columnas R con pico+valle para verificar");
    let empty_cols = 40 - columns_painted(&cells);
    assert!(empty_cols > 0, "el thinning deja columnas vacías ({empty_cols})");
}

#[test]
fn constant_signal_keeps_amplitude_without_solid_bar() {
    let cells = seen(&envelope(&[0.5; 2048]), &envelope(&[-0.5; 2048]), 40, 8, true);
    assert!(!cells.is_empty(), "constantes visibles");
    let distinct: HashSet<u16> = cells.keys().map(|(_, y)| *y).collect();
    assert_eq!(distinct.len(), 2, "dos filas (una por amplitud con signo): {distinct:?}");
    assert!(
        distinct.iter().any(|&y| y < 4) && distinct.iter().any(|&y| y >= 4),
        "+0.5 arriba del eje y -0.5 abajo: {distinct:?}"
    );
    let cols = columns_painted(&cells);
    assert!(cols < 40, "espaciadas, no sólidas ({cols}/40)");
}

#[test]
fn alternating_samples_are_not_averaged_to_center() {
    let alt: Vec<f32> = (0..2048).map(|i| if i % 2 == 0 { 0.9 } else { -0.9 }).collect();
    let e = envelope(&alt);
    let cells = seen(&e, &e, 40, 8, true);
    assert!(cells.keys().any(|(_, y)| *y < 3), "el pico alterno llega arriba");
    assert!(cells.keys().any(|(_, y)| *y >= 5), "el valle alterno llega abajo del plano");
    assert!(
        !cells.keys().all(|(_, y)| (3..5u16).contains(y)),
        "no colapsa al centro: hay extremos"
    );
}

#[test]
fn slow_sine_spans_plane_rows_with_gaps() {
    let cells = seen(&sine(0.9, 1.0), &silent(), 40, 8, true);
    let distinct: HashSet<u16> = cells.keys().map(|(_, y)| *y).collect();
    assert!(distinct.len() >= 4, "el seno lento barre filas del plano: {distinct:?}");
    let empty = 40 - columns_painted(&cells);
    assert!(empty > 0, "con huecos entre puntos ({empty} columnas vacías)");
}

#[test]
fn active_signal_is_denser_than_flat_signal() {
    let active = seen(&sine(0.9, 6.0), &silent(), 40, 8, true).len();
    let flat = seen(&envelope(&[0.5; 2048]), &silent(), 40, 8, true).len();
    assert!(active > flat * 3 / 2, "señal activa ({active}) más densa que plana ({flat})");
}

#[test]
fn steep_step_paints_dim_link_cells_between() {
    let mut step = [0.9f32; 2048];
    for v in step.iter_mut().skip(1000) {
        *v = -0.9;
    }
    let cells = seen(&envelope(&step), &silent(), 40, 8, true);
    let top = cells.keys().map(|(_, y)| *y).min().unwrap();
    let bottom = cells.keys().map(|(_, y)| *y).max().unwrap();
    assert!(top < bottom, "el escalón toca ambos extremos");
    let links: Vec<(usize, u16)> = cells
        .iter()
        .filter(|(_, k)| **k == PointKind::LeftLink)
        .map(|(at, _)| *at)
        .collect();
    assert!(!links.is_empty(), "el salto pinta enlaces tenues");
    assert!(
        links.iter().all(|&(_, y)| y > top && y < bottom),
        "enlaces solo entre extremos: {links:?} en ({top},{bottom})"
    );
    let theme = VisualTheme::fallback();
    let colors = trace_colors(&theme, false, 0);
    assert_eq!(
        colors.color(PointKind::LeftLink),
        blend(theme.channel_colors().left, theme.background, 60, 100)
    );
}

#[test]
fn point_density_adapts_to_terminal_width() {
    let e = view(0.8, 1);
    let count = |w: usize, h: usize| {
        let cells = seen(&e, &e, w, h, true);
        (cells.len(), w - columns_painted(&cells))
    };
    let (p40, e40) = count(40, 8);
    let (p100, e100) = count(100, 12);
    assert!(p40 > 0 && p100 > 0, "puntos en ambos anchos");
    assert!(e40 > 0 && e100 > 0, "huecos en ambos anchos");
    assert!(p100 >= p40, "más ancho no pierde puntos ({p40} → {p100})");
    assert!(p100 <= 3 * p40, "crecimiento acotado ante 2.5× ancho ({p40} → {p100})");
}

#[test]
fn trace_is_protagonist_and_accents_are_secondary_detail() {
    let cells = seen(&sine(0.9, 6.0), &silent(), 40, 8, true);
    let trace_n = cells.values().filter(|k| **k == PointKind::Left).count();
    let accent_n = cells
        .values()
        .filter(|k| matches!(k, PointKind::LeftAccent | PointKind::RightAccent))
        .count();
    assert!(trace_n > 10, "trace protagonista visible: {trace_n}");
    assert!(trace_n >= accent_n, "trace ≥ acentos: {trace_n} vs {accent_n}");
    let rows: HashSet<u16> = cells
        .iter()
        .filter(|((_, y), k)| *y < 4 && **k == PointKind::Left)
        .map(|((_, y), _)| *y)
        .collect();
    assert!(rows.len() >= 3, "el trace recorre su plano: {rows:?}");
}

#[test]
fn constant_signal_emits_no_peak_accents() {
    let cells = seen(&envelope(&[0.5; 2048]), &envelope(&[-0.5; 2048]), 40, 8, true);
    let accents = cells
        .values()
        .filter(|k| matches!(k, PointKind::LeftAccent | PointKind::RightAccent))
        .count();
    assert_eq!(accents, 0, "constantes sin acentos: {accents}");
}

#[test]
fn transient_spike_survives_as_accent_while_trace_stays() {
    let mut window = [0.0f32; 2048];
    window[1001] = 1.0;
    let cells = seen(&envelope(&window), &silent(), 40, 8, true);
    let top_accent =
        cells.iter().any(|((_, y), k)| *y < 2 && *k == PointKind::LeftAccent);
    assert!(top_accent, "el transitorio sobrevive como acento arriba");
}

#[test]
fn stereo_render_never_swaps_left_and_right_colors() {
    let cells = seen(&sine(0.9, 5.0), &sine(0.9, 5.0), 40, 8, false);
    for ((x, y), kind) in &cells {
        match kind {
            PointKind::Left | PointKind::LeftAccent | PointKind::LeftLink => {
                assert!(*y < 4, "L en su mitad ({x},{y})")
            }
            PointKind::Right | PointKind::RightAccent | PointKind::RightLink => {
                assert!(*y >= 4, "R en su mitad ({x},{y})")
            }
            PointKind::Both => panic!("los planos no se cruzan ({x},{y})"),
        }
    }
    let theme = VisualTheme::fallback();
    let colors = trace_colors(&theme, false, 0);
    assert_eq!(colors.color(PointKind::Left), theme.channel_colors().left);
    assert_eq!(colors.color(PointKind::Right), theme.channel_colors().right);
}

#[test]
fn subdued_trace_uses_dimmed_theme_colors() {
    let theme = VisualTheme::fallback();
    let ceiling = theme.karaoke_bg_ceiling();
    let channels = theme.channel_colors();
    let colors = trace_colors(&theme, true, 1.0f32.to_bits());
    assert_eq!(colors.left, blend(channels.left, ceiling, 55, 100));
    assert_eq!(colors.right, blend(channels.right, ceiling, 55, 100));
    assert_eq!(colors.accent, blend(theme.accent, ceiling, 55, 100));
    assert_ne!(colors.left, channels.left, "nunca a plena intensidad tras las letras");
    assert_ne!(colors.right, channels.right, "nunca a plena intensidad tras las letras");
}

#[test]
fn subdued_backdrop_is_flat_ceiling_for_lyrics() {
    let theme = VisualTheme::fallback();
    assert_eq!(panel_color(&theme, true), theme.karaoke_bg_ceiling());
    assert_eq!(panel_color(&theme, false), theme.background);
}

#[test]
fn backdrop_is_flat_panel_regardless_of_energy() {
    let theme = VisualTheme::from_cover(Some([[200u8, 30, 80], [40, 160, 240], [240, 180, 80]]));
    assert_eq!(panel_color(&theme, false), theme.background);
    assert_eq!(panel_color(&theme, true), theme.karaoke_bg_ceiling());
}

#[test]
fn ascii_theme_uses_only_ascii_points() {
    for kind in [
        PointKind::LeftLink,
        PointKind::RightLink,
        PointKind::Both,
        PointKind::Left,
        PointKind::Right,
        PointKind::LeftAccent,
        PointKind::RightAccent,
    ] {
        assert_eq!(point_symbol(kind, UiGlyphs::new(GlyphTheme::Ascii)), "*");
        assert_eq!(point_symbol(kind, UiGlyphs::new(GlyphTheme::Unicode)), "•");
    }
}

#[test]
fn theme_colors_the_bars() {
    let theme = VisualTheme::from_cover(Some([[220u8, 30, 30], [40, 200, 60], [30, 60, 220]]));
    assert_eq!(bar_color((0.9f32 * 4.0) as usize, &theme), Some([215, 35, 35]));
    assert_eq!(bar_color((0.3f32 * 4.0) as usize, &theme), Some([35, 63, 215]));
    assert_eq!(bar_color((0.6f32 * 4.0) as usize, &theme), Some(theme.secondary));
    assert_eq!(bar_color(0, &theme), None);
}

/// Rows of the bars of a strong signal in an area, from the base up, by column.
fn bars(w: u16, rows: u16) -> Vec<Vec<char>> {
    (0..w)
        .map(|col| {
            let i = bar_index(col, w);
            let v = (1.0 - i as f32 / VISUAL_BARS as f32 + 0.8 * 0.06).clamp(0.0, 1.0);
            let steps = (v * (8 * rows) as f32).round() as usize;
            (0..rows).map(|off| bar_glyph(rows, bar_level(steps, off))).collect()
        })
        .collect()
}

#[test]
fn bars_grow_into_two_rows_when_room() {
    let columns = bars(38, 6);
    assert!(
        columns.iter().all(|c| c[0] != ' '),
        "la fila base (inferior) del EQ tiene barra en cada columna"
    );
    assert!(columns.iter().any(|c| c[1] != ' '), "las barras fuertes crecen a la fila superior");
    assert!(
        columns.iter().any(|c| c[1] == ' '),
        "no toda columna llega arriba: la escalera es gradual"
    );
}

#[test]
fn bars_only_expanded_fills_height_without_trace_points() {
    let columns = bars(38, 6);
    assert!(columns.iter().all(|c| c.iter().all(|g| *g != '•')));
    assert!(columns.iter().all(|c| c[0] != ' '), "la base del EQ tiene barra en cada columna");
    assert!(
        columns.iter().any(|c| c[5] != ' '),
        "las barras ampliadas alcanzan la fila superior"
    );
}

#[test]
fn bars_levels_scale_with_available_rows() {
    let lit_rows_at = |h: u16| {
        let columns = bars(38, h - 2);
        (0..(h - 2) as usize).filter(|&y| columns.iter().any(|c| c[y] != ' ')).count()
    };
    let small = lit_rows_at(5);
    let big = lit_rows_at(12);
    assert!(small >= 1, "con poco alto hay barras visibles");
    assert!(big > small, "más alto ⇒ más filas con barra ({small} → {big})");
}

#[test]
fn short_bars_use_the_short_ramp() {
    assert_eq!(bar_glyph(1, 8), '▇');
    assert_eq!(bar_glyph(2, 8), '█');
    assert_eq!(bar_glyph(1, 0), ' ');
    assert_eq!(bar_level(11, 0), 8);
    assert_eq!(bar_level(11, 1), 3);
    assert_eq!(bar_level(11, 2), 0);
    assert_eq!(bar_index(0, 48), 0);
    assert_eq!(bar_index(47, 48), 23);
}

#[test]
fn both_traces_in_one_cell_are_mixed() {
    let rows = ChannelRows { trace: 3, low: 3, high: 1 };
    let points = trace_points(&vec![ColumnRows { left: rows, right: rows }], 2);
    let kinds: Vec<(u16, PointKind)> = points.iter().map(|p| (p.row, p.kind)).collect();
    assert_eq!(kinds, vec![(3, PointKind::Both), (1, PointKind::LeftAccent)]);
    let colors = trace_colors(&VisualTheme::fallback(), false, 0);
    assert_eq!(colors.both, blend(colors.left, colors.right, 50, 100));
}

#[test]
fn links_join_near_points_only() {
    let flat = |y: u16| ChannelRows { trace: y, low: y, high: y };
    let near = vec![
        ColumnRows { left: flat(0), right: flat(9) },
        ColumnRows { left: flat(3), right: flat(9) },
    ];
    let rows: Vec<(usize, u16, PointKind)> =
        trace_points(&near, 2).iter().map(|p| (p.col, p.row, p.kind)).collect();
    assert_eq!(
        rows,
        vec![
            (0, 0, PointKind::Left),
            (0, 9, PointKind::Right),
            (1, 1, PointKind::LeftLink),
            (1, 2, PointKind::LeftLink),
            (1, 3, PointKind::Left),
        ]
    );
}

#[test]
fn jumps_are_backwards_or_long() {
    assert!(!position_jumped(None, 5));
    assert!(!position_jumped(Some(SECOND), 3 * SECOND));
    assert!(position_jumped(Some(SECOND), 3 * SECOND + 1));
    assert!(position_jumped(Some(SECOND), SECOND - 1));
}

/// What is seen of a panel of 40 by 8 cells: the colour of each point inside its
/// border.
fn panel(left: &Envelope, right: &Envelope, colors: TraceColors) -> HashMap<(u16, u16), [u8; 3]> {
    seen(left, right, 38, 6, false)
        .iter()
        .map(|((x, y), kind)| ((*x as u16 + 1, *y + 1), colors.color(*kind)))
        .collect()
}

/// A sine of five cycles.
fn five_cycles(amp: f32, phase: f32) -> Envelope {
    let samples: Vec<f32> = (0..1024)
        .map(|i| amp * (std::f32::consts::TAU * (i as f32 / 1024.0) * 5.0 + phase).sin())
        .collect();
    envelope(&samples)
}

fn mix_c(a: [u8; 3], b: [u8; 3], t: f32) -> [u8; 3] {
    let t = t.clamp(0.0, 1.0);
    let l = |x: u8, y: u8| (x as f32 + (y as f32 - x as f32) * t).round() as u8;
    [l(a[0], b[0]), l(a[1], b[1]), l(a[2], b[2])]
}

/// The colours of the channels at a brightness, and those of the scope.
fn lit(brightness: f32) -> ([u8; 3], [u8; 3], TraceColors) {
    let theme = VisualTheme::fallback();
    let channels = theme.channel_colors();
    let white = [255, 255, 255];
    let left = mix_c(channels.left, white, brightness * 0.12);
    let right = mix_c(channels.right, white, brightness * 0.12);
    (left, right, trace_colors(&theme, false, brightness.to_bits()))
}

#[test]
fn stereo_channels_render_as_distinct_point_sets() {
    let (left_color, right_color, colors) = lit(0.9);
    let phase = 3.0 * 0.7;
    let cells = panel(
        &five_cycles(0.9, phase),
        &five_cycles(0.2, phase + std::f32::consts::PI),
        colors,
    );
    let sweep = |target: [u8; 3]| {
        let mut best = f32::MIN;
        for ((_, y), color) in &cells {
            if *color == target {
                best = best.max((*y as f32 - 3.5).abs());
            }
        }
        best
    };
    let l_sweep = sweep(left_color);
    let r_sweep = sweep(right_color);
    assert!(l_sweep > 0.0, "L llega al trazo con color de canal L");
    assert!(r_sweep >= 0.0, "R llega al trazo con color de canal R");
    assert!(
        l_sweep > r_sweep,
        "L (0.9) barre más lejos del eje que R (0.2): {l_sweep} vs {r_sweep}"
    );
}

#[test]
fn mono_content_overlaps_with_mixed_color() {
    let (left_color, right_color, colors) = lit(0.9);
    let e = view(0.6, 0);
    let mut left_top = 0usize;
    let mut right_bottom = 0usize;
    for ((_, y), color) in panel(&e, &e, colors) {
        if color == left_color {
            assert!(y <= 3, "L mono vive arriba (y={y})");
            left_top += 1;
        }
        if color == right_color {
            assert!(y >= 4, "R mono vive abajo (y={y})");
            right_bottom += 1;
        }
    }
    assert!(left_top > 0, "L mono visible con su color");
    assert!(right_bottom > 0, "R mono visible con su color");
}

#[test]
fn mono_envelopes_overlap_with_mixed_color() {
    let samples: Vec<f32> = (0..1024)
        .map(|i| 0.7 * ((i as f32 / 1024.0) * std::f32::consts::TAU * 3.0).sin())
        .collect();
    let e = envelope(&samples);
    let channels = VisualTheme::fallback().channel_colors();
    let colors = trace_colors(&VisualTheme::fallback(), false, 0);
    let mut l_rows = HashSet::new();
    let mut r_rows = HashSet::new();
    let mut l_count = 0usize;
    let mut r_count = 0usize;
    for ((_, y), kind) in seen(&e, &e, 40, 8, true) {
        let color = colors.color(kind);
        if color == channels.left {
            assert!(y < 4, "L mono arriba (y={y})");
            l_rows.insert(y);
            l_count += 1;
        }
        if color == channels.right {
            assert!(y >= 4, "R mono abajo (y={y})");
            r_rows.insert(y);
            r_count += 1;
        }
    }
    assert!(l_count > 0, "L mono visible con su color");
    assert!(r_count > 0, "R mono visible con su color");
    assert_eq!(
        l_rows.len(),
        r_rows.len(),
        "geometrías equivalentes: L={l_rows:?} R={r_rows:?}"
    );
    let mut l_sorted: Vec<u16> = l_rows.into_iter().collect();
    l_sorted.sort_unstable();
    let mut r_sorted: Vec<u16> = r_rows.into_iter().collect();
    r_sorted.sort_unstable();
    for (l, r) in l_sorted.iter().zip(r_sorted.iter()) {
        let gap = r.saturating_sub(*l);
        assert!((3..=4).contains(&gap), "traslación rígida entre planos: L={l} R={r}");
    }
}

#[test]
fn brightness_moves_the_channels_a_little_towards_white() {
    for brightness in [0.0, 0.25, 0.5, 1.0] {
        let (left, right, colors) = lit(brightness);
        assert_eq!((colors.left, colors.right), (left, right), "brillo {brightness}");
        let apart = (0..3).any(|i| left[i].abs_diff(right[i]) >= 50);
        assert!(apart, "los canales se distinguen con brillo {brightness}");
    }
}

#[test]
fn buckets_adjoin_in_very_wide_areas() {
    let w = 1_000_003usize;
    assert_eq!(column_bucket_range(w, 0).0, 0);
    assert_eq!(column_bucket_range(w, w - 1).1, WAVEFORM_BUCKETS);
    for col in (0..w - 1).step_by(997) {
        let (lo, hi) = column_bucket_range(w, col);
        let (next_lo, next_hi) = column_bucket_range(w, col + 1);
        assert!(lo <= next_lo && next_lo <= hi && hi <= next_hi);
    }
}
