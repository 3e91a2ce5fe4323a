//! The arithmetic of the library against that of the machine.

use tunefold::contrast::{blend, blend_by};
use tunefold::float::{Float, DOUBLE, SINGLE};
use tunefold::layout::Rect;
use tunefold::palette::VisualTheme;
use tunefold::scope::trace_colors;
use tunefold::thumb::{contrast_boost, dim_for_mat, fit_rect, frame_cell, gradient_base, FrameRole};

/// A sequence of scattered numbers.
struct Scatter(u64);

impl Scatter {
    fn next(&mut self) -> u64 {
        self.0 = self.0.wrapping_mul(6_364_136_223_846_793_005).wrapping_add(1_442_695_040_888_963_407);
        self.0 >> 11
    }
}

fn value(x: Float) -> f64 {
    x.m as f64 * 2f64.powi(x.e)
}

fn double(x: f64) -> Float {
    let bits = x.abs().to_bits();
    if bits == 0 {
        return Float { m: 0, e: 0 };
    }
    let m = ((bits & ((1 << 52) - 1)) | (1 << 52)) as i64;
    let e = (bits >> 52) as i32 - 1075;
    Float { m: if x < 0.0 { -m } else { m }, e }
}

fn single(x: f32) -> Float {
    let f = Float::single(x.abs().to_bits());
    Float { m: if x < 0.0 { -f.m } else { f.m }, e: f.e }
}

#[test]
fn doubles_compute_as_the_machine_does() {
    let mut s = Scatter(7);
    for _ in 0..20_000 {
        let a = (s.next() as f64 - 4.0e15) * 2f64.powi((s.next() % 80) as i32 - 90);
        let b = (s.next() as f64 + 1.0) * 2f64.powi((s.next() % 80) as i32 - 90);
        let (x, y) = (double(a), double(b));
        assert_eq!(value(x.times(y, DOUBLE)), a * b);
        assert_eq!(value(x.divided_by(y, DOUBLE)), a / b);
        assert_eq!(value(x.plus(y, DOUBLE)), a + b);
        assert_eq!(value(x.minus(y, DOUBLE)), a - b);
        assert_eq!(double(a.abs()).below(y, DOUBLE), a.abs() < b);
        let n = s.next() * 2048 + s.next() % 2048;
        assert_eq!(value(Float::of(n, DOUBLE)), n as f64);
    }
}

#[test]
fn singles_compute_as_the_machine_does() {
    let mut s = Scatter(11);
    for _ in 0..20_000 {
        let a = (s.next() as f32 - 4.0e15) * 2f32.powi((s.next() % 30) as i32 - 60);
        let b = (s.next() as f32 + 1.0) * 2f32.powi((s.next() % 30) as i32 - 60);
        let (x, y) = (single(a), single(b));
        assert_eq!(value(x.times(y, SINGLE)), f64::from(a * b));
        assert_eq!(value(x.divided_by(y, SINGLE)), f64::from(a / b));
        assert_eq!(value(x.plus(y, SINGLE)), f64::from(a + b));
        assert_eq!(value(x.minus(y, SINGLE)), f64::from(a - b));
        assert_eq!(value(Float::of(s.0, SINGLE)), f64::from(s.0 as f32));
    }
}

#[test]
fn halves_go_to_the_even_neighbour() {
    // 2^24 + 1 and 2^24 + 3 lie halfway between two single-precision numbers.
    assert_eq!(value(Float::of(16_777_217, SINGLE)), 16_777_216.0);
    assert_eq!(value(Float::of(16_777_219, SINGLE)), 16_777_220.0);
    // A number far below the last place moves nothing.
    let tiny = Float { m: 1 << 23, e: -500 };
    assert_eq!(value(Float::of(255, SINGLE).plus(tiny, SINGLE)), 255.0);
    assert_eq!(value(Float::of(256, SINGLE).minus(tiny, SINGLE)), 256.0);
}

fn machine_fit(cw: usize, ch: usize, iw: usize, ih: usize) -> (usize, usize, usize, usize) {
    let scale = (cw as f64 / iw as f64).min(ch as f64 * 2.0 / ih as f64);
    let w = ((iw as f64 * scale).round() as usize).clamp(1, cw);
    let h = ((ih as f64 * scale).round() as usize).clamp(1, ch * 2);
    (w, h, (cw - w) / 2, (ch * 2 - h) / 2)
}

#[test]
fn covers_fit_as_in_double_precision() {
    assert_eq!(fit_rect(1, 1, 98, 147), (1, 1, 0, 0), "147 * (1 / 98) queda por debajo de 1.5");
    for cw in 1..12 {
        for ch in 1..9 {
            for iw in (1..220).step_by(7) {
                for ih in (1..220).step_by(3) {
                    assert_eq!(
                        fit_rect(cw, ch, iw, ih),
                        machine_fit(cw, ch, iw, ih),
                        "{iw}x{ih} en {cw}x{ch}"
                    );
                }
            }
        }
    }
    let mut s = Scatter(3);
    for _ in 0..20_000 {
        let (cw, ch) = (s.next() as usize % 400 + 1, s.next() as usize % 200 + 1);
        let (iw, ih) = (s.next() as usize % 5000 + 1, s.next() as usize % 5000 + 1);
        assert_eq!(fit_rect(cw, ch, iw, ih), machine_fit(cw, ch, iw, ih));
    }
    let huge = usize::MAX / 2;
    assert_eq!(fit_rect(huge, huge, 3, 7), machine_fit(huge, huge, 3, 7));
}

fn machine_gradient(p: &[[u8; 3]; 3], t: f64) -> [u8; 3] {
    let scaled = (t * 3.0).clamp(0.0, 2.9999);
    let i = scaled.floor() as usize;
    let f = scaled - i as f64;
    let (a, b) = (p[i], p[(i + 1) % 3]);
    let lerp =
        |x: u8, y: u8| (x as f64 + (y as f64 - x as f64) * f).round().clamp(0.0, 255.0) as u8;
    [lerp(a[0], b[0]), lerp(a[1], b[1]), lerp(a[2], b[2])]
}

#[test]
fn gradients_lead_as_in_double_precision() {
    let mut s = Scatter(5);
    for steps in 1..130u32 {
        let mut byte = || s.next() as u8;
        let p = [
            [byte(), byte(), byte()],
            [byte(), byte(), byte()],
            [byte(), byte(), byte()],
        ];
        for t in 0..=steps + 2 {
            let expect = machine_gradient(&p, t as f64 / steps as f64);
            assert_eq!(gradient_base(&p, t, steps), expect, "{t}/{steps} {p:?}");
        }
    }
    let p = [[1, 2, 3], [250, 251, 252], [7, 90, 200]];
    assert_eq!(gradient_base(&p, 0, u32::MAX), [1, 2, 3]);
    assert_eq!(gradient_base(&p, u32::MAX, 1), machine_gradient(&p, u32::MAX as f64));
    let area = Rect::new(0, 0, 9, 5);
    let cell = frame_cell(area, Some(p), FrameRole::Inner, 8, 0).unwrap();
    assert_eq!(cell.color, dim_for_mat(machine_gradient(&p, 8.0 / 24.0)));
}

fn machine_boost(c: [u8; 3]) -> [u8; 3] {
    let l = (0.299 * c[0] as f64 + 0.587 * c[1] as f64 + 0.114 * c[2] as f64) / 255.0;
    let peak = *c.iter().max().unwrap() as f64 / 255.0;
    if l >= 0.35 || peak >= 0.6 {
        return c;
    }
    let t = (0.35 - l) / 0.35;
    let mix = 0.45 + 0.45 * t;
    c.map(|v| v + ((255 - v) as f64 * mix) as u8)
}

#[test]
fn borders_are_boosted_as_in_double_precision() {
    assert_eq!(contrast_boost([3, 57, 146]), machine_boost([3, 57, 146]));
    assert_eq!(contrast_boost([3, 57, 146])[0], 164);
    assert_ne!(contrast_boost([14, 142, 15]), [14, 142, 15], "0.35 exacto queda por debajo");
    for c in [[9, 117, 45], [22, 132, 17], [29, 133, 22], [44, 124, 29], [152, 152, 152]] {
        assert_eq!(contrast_boost(c), machine_boost(c), "{c:?}");
    }
    for r in (0..160).step_by(6) {
        for g in (0..160).step_by(5) {
            for b in (0..160).step_by(7) {
                assert_eq!(contrast_boost([r, g, b]), machine_boost([r, g, b]));
            }
        }
    }
}

#[test]
fn the_mat_is_dimmed_as_in_double_precision() {
    for c in 0..=255u8 {
        let dim = |gray: u8| (c as f64 * (1.0 - 0.55) + gray as f64 * 0.55) as u8;
        assert_eq!(dim_for_mat([c, c, c]), [dim(26), dim(26), dim(32)], "{c}");
    }
    assert_eq!(dim_for_mat([146, 166, 246])[0], 79);
}

fn machine_mix(a: [u8; 3], b: [u8; 3], t: f32) -> [u8; 3] {
    let t = t.clamp(0.0, 1.0);
    let l = |x: u8, y: u8| (x as f32 + (y as f32 - x as f32) * t).round() as u8;
    [l(a[0], b[0]), l(a[1], b[1]), l(a[2], b[2])]
}

#[test]
fn themes_mix_as_in_single_precision() {
    let a = VisualTheme::fallback();
    let b = VisualTheme::from_cover(Some([[0u8, 20, 250], [10, 30, 0], [5, 5, 5]]));
    let mut shares = vec![
        0.0, 1.0, -0.0, 0.5, 0.35, 1.0 / 3.0, 1.0e-9, 1.0e-40, 5.0, -3.0, f32::INFINITY,
        f32::NEG_INFINITY, f32::NAN, f32::MIN_POSITIVE, f32::MAX, 0.999_999_94,
    ];
    let mut s = Scatter(13);
    for _ in 0..3000 {
        shares.push(s.next() as f32 / 9.007_199e15);
    }
    for t in shares {
        let m = a.mix(&b, t.to_bits());
        assert_eq!(m.primary, machine_mix(a.primary, b.primary, t), "{t}");
        assert_eq!(m.glow, machine_mix(a.glow, b.glow, t), "{t}");
        assert_eq!(m.surface_alt, machine_mix(a.surface_alt, b.surface_alt, t), "{t}");
    }
    let third = Float::single((1.0f32 / 3.0).to_bits());
    let (x, y) = ([0, 10, 255], [255, 11, 0]);
    assert_eq!(blend_by(x, y, third), machine_mix(x, y, 1.0 / 3.0));
}

#[test]
fn scenes_shine_as_in_single_precision() {
    let theme = VisualTheme::fallback();
    let c = theme.channel_colors();
    let white = [255, 255, 255];
    let mut s = Scatter(17);
    let mut all = vec![
        0.0, 0.9, 1.0, 8.0, 9.0, -1.0, f32::NAN, f32::INFINITY, 1.0e-42, f32::MAX, 0.25,
    ];
    for _ in 0..2000 {
        all.push(s.next() as f32 / 9.007_199e15);
    }
    for b in all {
        let colors = trace_colors(&theme, false, b.to_bits());
        let expect = |c: [u8; 3]| if b > 0.0 { machine_mix(c, white, b * 0.12) } else { c };
        assert_eq!((colors.left, colors.right), (expect(c.left), expect(c.right)), "{b}");
    }
}

fn machine_hsl(c: [u8; 3]) -> (f32, f32, f32) {
    let (r, g, b) = (c[0] as f32 / 255.0, c[1] as f32 / 255.0, c[2] as f32 / 255.0);
    let max = r.max(g).max(b);
    let min = r.min(g).min(b);
    let l = (max + min) * 0.5;
    if (max - min).abs() < f32::EPSILON {
        return (0.0, 0.0, l);
    }
    let d = max - min;
    let s = d / (1.0 - (2.0 * l - 1.0).abs());
    let h = if (max - r).abs() < f32::EPSILON {
        ((g - b) / d).rem_euclid(6.0)
    } else if (max - g).abs() < f32::EPSILON {
        (b - r) / d + 2.0
    } else {
        (r - g) / d + 4.0
    } / 6.0;
    (h, s.clamp(0.0, 1.0), l.clamp(0.0, 1.0))
}

fn machine_tame(c: [u8; 3]) -> [u8; 3] {
    let (h, s, l) = machine_hsl(c);
    let (s, l) = (s.min(0.72), l.clamp(0.28, 0.78));
    let c = (1.0 - (2.0 * l - 1.0f32).abs()) * s;
    let x = c * (1.0 - ((h * 6.0).rem_euclid(2.0) - 1.0f32).abs());
    let (r, g, b) = match (h * 6.0).floor() as i32 % 6 {
        0 => (c, x, 0.0),
        1 => (x, c, 0.0),
        2 => (0.0, c, x),
        3 => (0.0, x, c),
        4 => (x, 0.0, c),
        _ => (c, 0.0, x),
    };
    let m = l - c * 0.5;
    let byte = |v: f32| ((v + m) * 255.0).round().clamp(0.0, 255.0) as u8;
    [byte(r), byte(g), byte(b)]
}

#[test]
fn colors_are_tamed_as_in_single_precision() {
    assert_eq!(VisualTheme::tame([0, 2, 179])[1], 27);
    for c in [[0, 3, 56], [0, 4, 183], [0, 7, 239], [0, 11, 147], [255, 255, 254], [1, 0, 0]] {
        assert_eq!(VisualTheme::tame(c), machine_tame(c), "{c:?}");
    }
    let mut s = Scatter(19);
    for _ in 0..20_000 {
        let c = [s.next() as u8, s.next() as u8, s.next() as u8];
        assert_eq!(VisualTheme::tame(c), machine_tame(c), "{c:?}");
    }
    for v in 0..=255u8 {
        assert_eq!(VisualTheme::tame([v, v, v]), machine_tame([v, v, v]), "{v}");
    }
}

#[test]
fn fixed_shares_mix_as_in_single_precision() {
    let mut shares: Vec<(u32, u32, f32)> = vec![
        (6, 100, 0.06), (18, 100, 0.18), (22, 100, 0.22), (27, 100, 0.27), (30, 100, 0.30),
        (35, 100, 0.35), (38, 100, 0.38), (45, 100, 0.45), (50, 100, 0.5), (55, 100, 0.55),
        (60, 100, 0.6), (72, 100, 0.72),
    ];
    for k in 1..16 {
        shares.push((k, 16, k as f32 / 16.0));
    }
    for (num, den, t) in shares {
        for a in 0..=255u8 {
            for b in 0..=255u8 {
                let m = blend([a, 0, b], [b, b, a], num, den);
                assert_eq!(m, machine_mix([a, 0, b], [b, b, a], t), "{num}/{den} {a} {b}");
            }
        }
    }
}
