//! A cover drawn with half blocks, and the frame around it.
//!
//! A cell of the terminal stands for two pixels, one above the other.

use vstd::prelude::*;

use crate::domain::{CoverImage, ThumbnailState};
use crate::app::char_and;
#[allow(unused_imports)]
use crate::float::{
    bits, byte_of, difference, finer, lemma_number_at_least, lemma_number_at_most, lemma_number_sign,
    lemma_place_at_most, lemma_sum_ranges, negative, ranges, sum,
    units, whole,
};
#[allow(unused_imports)]
use crate::float::{
    lemma_bits_at_most, lemma_less_is_strict, lemma_product, lemma_product_ranges,
    lemma_quotient, lemma_quotient_ranges, lemma_small_integer, lemma_two, lemma_two_adds,
    lemma_two_grows, lemma_two_values, less, number, product, quotient, to_nearest, two,
};
use crate::float::{Float, DOUBLE};
#[allow(unused_imports)]
use crate::glyphs::spinner_glyph;
use crate::glyphs::UiGlyphs;
use crate::ink::{Ink, Span};
use crate::layout::Rect;
#[allow(unused_imports)]
use crate::layout::{clamped, lesser, monus};

verus! {

/// A length of `n` pixels, scaled in double precision, as a number of cells.
pub open spec fn scaled(n: int, scale: (int, int)) -> int {
    to_nearest(product(number(n, 0, 53), scale, 53))
}

/// `n / d` in double precision.
pub open spec fn ratio(n: int, d: int) -> (int, int) {
    quotient(number(n, 0, 53), number(d, 0, 53), 53)
}

/// The scale at which an image of `iw` by `ih` fills an area of `w` by `h` as far
/// as its proportion allows.
pub open spec fn scale_of(w: int, h: int, iw: int, ih: int) -> (int, int) {
    if less(ratio(h, ih), ratio(w, iw)) {
        ratio(h, ih)
    } else {
        ratio(w, iw)
    }
}

/// Width and height of an image of `iw` by `ih` that fills an area of `w` by
/// `h` as far as its proportion allows.
pub open spec fn fitted(w: int, h: int, iw: int, ih: int) -> (int, int) {
    let scale = scale_of(w, h, iw, ih);
    (clamped(scaled(iw, scale), 1, w), clamped(scaled(ih, scale), 1, h))
}

pub open spec fn at_least_one(n: int) -> int {
    if n < 1 {
        1
    } else {
        n
    }
}

fn fit(w: u64, h: u64, iw: u64, ih: u64) -> (r: (u64, u64))
    requires
        1 <= w,
        1 <= h,
        1 <= iw,
        1 <= ih,
    ensures
        r.0 == fitted(w as int, h as int, iw as int, ih as int).0,
        r.1 == fitted(w as int, h as int, iw as int, ih as int).1,
        1 <= r.0 <= w,
        1 <= r.1 <= h,
{
    let (fw, fh) = (Float::of(iw, DOUBLE), Float::of(ih, DOUBLE));
    let (tw, th) = (Float::of(w, DOUBLE), Float::of(h, DOUBLE));
    proof {
        lemma_quotient_ranges(tw@, fw@, 53);
        lemma_quotient_ranges(th@, fh@, 53);
    }
    let across = tw.divided_by(fw, DOUBLE);
    let down = th.divided_by(fh, DOUBLE);
    let scale = if down.below(across, DOUBLE) {
        down
    } else {
        across
    };
    proof {
        lemma_product_ranges(fw@, scale@, 53);
        lemma_product_ranges(fh@, scale@, 53);
    }
    (
        fw.times(scale, DOUBLE).nearest_within(w),
        fh.times(scale, DOUBLE).nearest_within(h),
    )
}

/// Where an image goes in an area of cells: its width, its height, and the free
/// space to its left and above it. Heights are in half cells.
pub open spec fn placed(cw: int, ch: int, iw: int, ih: int) -> (int, int, int, int) {
    if cw == 0 || ch == 0 {
        (0, 0, 0, 0)
    } else {
        let (w, h) = fitted(cw, 2 * ch, at_least_one(iw), at_least_one(ih));
        (w, h, (cw - w) / 2, (2 * ch - h) / 2)
    }
}

/// Fits an image into an area of cells, centred and in proportion.
pub fn fit_rect(cells_w: usize, cells_h: usize, img_w: usize, img_h: usize) -> (r: (
    usize,
    usize,
    usize,
    usize,
))
    requires
        cells_h <= usize::MAX / 2,
    ensures
        placed(cells_w as int, cells_h as int, img_w as int, img_h as int) == (
            r.0 as int,
            r.1 as int,
            r.2 as int,
            r.3 as int,
        ),
        r.2 + r.0 <= cells_w,
        r.3 + r.1 <= 2 * cells_h,
{
    if cells_w == 0 || cells_h == 0 {
        return (0, 0, 0, 0);
    }
    let iw: usize = if img_w < 1 {
        1
    } else {
        img_w
    };
    let ih: usize = if img_h < 1 {
        1
    } else {
        img_h
    };
    let rows: usize = cells_h * 2;
    let (w, h) = fit(cells_w as u64, rows as u64, iw as u64, ih as u64);
    (w as usize, h as usize, (cells_w - w as usize) / 2, (rows - h as usize) / 2)
}

/// The rectangle inside an area, `inset` cells from its edge on every side.
pub fn inset_rect(area: Rect, inset: u16) -> (r: Rect)
    ensures
        r.x == lesser(area.x + inset, u16::MAX as int),
        r.y == lesser(area.y + inset, u16::MAX as int),
        r.width == monus(area.width as int, lesser(2 * inset, u16::MAX as int)),
        r.height == monus(area.height as int, lesser(2 * inset, u16::MAX as int)),
{
    let twice: u16 = if inset > 32767 {
        u16::MAX
    } else {
        inset * 2
    };
    Rect {
        x: if area.x > u16::MAX - inset {
            u16::MAX
        } else {
            area.x + inset
        },
        y: if area.y > u16::MAX - inset {
            u16::MAX
        } else {
            area.y + inset
        },
        width: if area.width > twice {
            area.width - twice
        } else {
            0
        },
        height: if area.height > twice {
            area.height - twice
        } else {
            0
        },
    }
}

/// The rectangle of the frame: the image in proportion, plus two rings of one
/// cell, centred in the area. Without an image, or in a small area, the whole
/// area.
pub open spec fn frame_rect(area: Rect, image: Option<(int, int)>) -> (int, int, int, int) {
    if image is None || area.width < 6 || area.height < 6 {
        (area.x as int, area.y as int, area.width as int, area.height as int)
    } else {
        let (cw, ch) = fitted(
            area.width - 4,
            2 * (area.height - 4),
            at_least_one((image->0).0),
            at_least_one((image->0).1),
        );
        let w = lesser(cw + 4, area.width as int);
        let h = lesser((ch + 1) / 2 + 4, area.height as int);
        (area.x + (area.width - w) / 2, area.y + (area.height - h) / 2, w, h)
    }
}

/// The size of the image of a loaded cover.
pub open spec fn image_size(state: ThumbnailState) -> Option<(int, int)> {
    match state {
        ThumbnailState::Loaded(img) => Some((img.width as int, img.height as int)),
        _ => None,
    }
}

/// Fits the frame of a cover into an area.
pub fn centered_frame_rect(area: Rect, state: &ThumbnailState) -> (r: Rect)
    requires
        area.wf(),
    ensures
        frame_rect(area, image_size(*state)) == (
            r.x as int,
            r.y as int,
            r.width as int,
            r.height as int,
        ),
        r.inside(area),
{
    let (iw, ih): (u32, u32) = match state {
        ThumbnailState::Loaded(img) => (img.width, img.height),
        _ => {
            return area;
        },
    };
    if area.width < 6 || area.height < 6 {
        return area;
    }
    let iw: u64 = if iw < 1 {
        1
    } else {
        iw as u64
    };
    let ih: u64 = if ih < 1 {
        1
    } else {
        ih as u64
    };
    let (cw, ch) = fit(area.width as u64 - 4, 2 * (area.height as u64 - 4), iw, ih);
    let width: u16 = if cw + 4 < area.width as u64 {
        (cw + 4) as u16
    } else {
        area.width
    };
    let rows: u64 = (ch + 1) / 2 + 4;
    let height: u16 = if rows < area.height as u64 {
        rows as u16
    } else {
        area.height
    };
    Rect {
        x: area.x + (area.width - width) / 2,
        y: area.y + (area.height - height) / 2,
        width,
        height,
    }
}

/// Ring of a frame.
#[derive(Debug, Clone, Copy, PartialEq, Eq, Structural)]
pub enum FrameRole {
    /// The border, which must not vanish against a dark screen.
    Outer,
    /// The mat between the border and the image.
    Inner,
}

/// What stands at the offset `(x, y)` of a ring of `w` by `h` cells: a corner,
/// a side or an edge, with its place on the way round the ring.
pub open spec fn ring_cell(w: int, h: int, x: int, y: int) -> Option<(char, int)> {
    let (tw, th) = (w - 1, h - 1);
    if x >= w || y >= h {
        None
    } else if w == 1 && h == 1 {
        Some(('+', 0))
    } else if w == 1 {
        Some(('|', y))
    } else if h == 1 {
        Some(('-', x))
    } else if x == 0 && y == 0 {
        Some(('+', 0))
    } else if x == tw && y == 0 {
        Some(('+', tw))
    } else if x == 0 && y == th {
        Some(('+', tw + th))
    } else if x == tw && y == th {
        Some(('+', 2 * tw + th))
    } else if y == 0 {
        Some(('-', x))
    } else if y == th {
        Some(('-', 2 * tw + th - x))
    } else if x == 0 {
        Some(('|', tw + y))
    } else if x == tw {
        Some(('|', tw + 2 * th - y))
    } else {
        None
    }
}

/// Length of the way round a ring.
pub open spec fn ring_steps(w: int, h: int) -> int {
    2 * (w - 1 + (h - 1))
}

/// `t / steps` of the way through three colours and back to the first, in thirds
/// of the way and short of three of them; in double precision.
pub open spec fn gradient_place(t: int, steps: int) -> (int, int) {
    let x = product(ratio(t, steps), number(3, 0, 53), 53);
    if less((6_755_174_261_074_375, -51), x) {
        (6_755_174_261_074_375, -51)
    } else {
        x
    }
}

/// A channel at the share `f` of the way from `a` to `b`, in double precision.
#[verifier::opaque]
pub open spec fn led(a: u8, b: u8, f: (int, int)) -> u8 {
    byte_of(sum(number(a as int, 0, 53), product(number(b - a, 0, 53), f, 53), 53)) as u8
}

/// The colour at `t` of `steps`, on the way through three colours and back to
/// the first.
pub open spec fn gradient(p: [[u8; 3]; 3], t: int, steps: int) -> Seq<u8> {
    let place = gradient_place(t, steps);
    let i = whole(place);
    let f = difference(place, number(i, 0, 53), 53);
    Seq::new(3, |k: int| led(p@[i]@[k], p@[(i + 1) % 3]@[k], f))
}

/// The place of a gradient has a last digit behind the point, and lies below three.
proof fn lemma_gradient_place(x: (int, int))
    requires
        ranges(x, 53, -90, -10),
        x.0 >= 0,
        !less((6_755_174_261_074_375, -51), x),
    ensures
        x.0 > 0 ==> x.1 < 0,
        0 <= whole(x) <= 2,
        whole(x) >= 1 ==> x.1 >= -53,
{
    lemma_two_values();
    lemma_two(-x.1);
    if x.0 == 0 {
        lemma_two(0);
        assert(0 * two(0) == 0);
    } else {
        let (m, t) = (x.0, two(-x.1));
        let cap: (int, int) = (6_755_174_261_074_375, -51);
        // m * 2^x.1 is at most 6755174261074375 * 2^-51, which is below 3.
        assert(m < 3 * t) by {
            if x.1 >= -51 {
                lemma_two_adds(-x.1, x.1 + 51);
                let u = two(x.1 + 51);
                lemma_two(0);
                assert(units(cap, -51) == 6_755_174_261_074_375 * two(0));
                assert(units(x, -51) == m * u);
                assert(3 * two(51) == 3 * (t * u));
                assert(m < 3 * t) by (nonlinear_arith)
                    requires
                        m * u <= 6_755_174_261_074_375,
                        6_755_174_261_074_375 < 3 * (t * u),
                        u >= 1,
                ;
            } else {
                lemma_two_adds(51, -x.1 - 51);
                let u = two(-51 - x.1);
                lemma_two(0);
                assert(units(x, x.1) == m * two(0));
                assert(units(cap, x.1) == 6_755_174_261_074_375 * u);
                assert(m < 3 * t) by (nonlinear_arith)
                    requires
                        m <= 6_755_174_261_074_375 * u,
                        t == two(51) * u,
                        two(51) == 0x8_0000_0000_0000,
                        u >= 1,
                ;
            }
        }
        assert(0 <= m / t <= 2 && (m / t >= 1 ==> m >= t)) by (nonlinear_arith)
            requires
                0 <= m < 3 * t,
                t >= 1,
        ;
        if m >= t && x.1 < -53 {
            lemma_two_grows(54, -x.1);
        }
    }
}

fn lead(a: u8, b: u8, f: Float) -> (r: u8)
    requires
        ranges(f@, 53, -107, -5),
    ensures
        r == led(a, b, f@),
{
    proof {
        reveal(led);
    }
    let from = Float::of(a as u64, DOUBLE);
    let way = Float::of_signed(b as i32 - a as i32, DOUBLE);
    proof {
        lemma_product_ranges(way@, f@, 53);
    }
    let step = way.times(f, DOUBLE);
    proof {
        lemma_sum_ranges(from@, step@, 53);
    }
    from.plus(step, DOUBLE).nearest_byte()
}

fn place_on_ring(t: u32, steps: u32) -> (r: Float)
    requires
        0 < steps,
    ensures
        r@ == gradient_place(t as int, steps as int),
        ranges(r@, 53, -90, -10),
        r.m >= 0,
        !less((6_755_174_261_074_375, -51), r@),
{
    proof {
        lemma_two_values();
        if t > 0 {
            lemma_small_integer(t as int, 53);
            lemma_bits_at_most(t as int, 32);
        }
        lemma_small_integer(steps as int, 53);
        lemma_bits_at_most(steps as int, 32);
    }
    let (part, all) = (Float::of(t as u64, DOUBLE), Float::of(steps as u64, DOUBLE));
    let three = Float::of(3, DOUBLE);
    proof {
        lemma_quotient_ranges(part@, all@, 53);
    }
    let share = part.divided_by(all, DOUBLE);
    proof {
        lemma_product_ranges(share@, three@, 53);
    }
    let scaled = share.times(three, DOUBLE);
    let cap = Float { m: 6_755_174_261_074_375, e: -51 };
    if cap.below(scaled, DOUBLE) {
        cap
    } else {
        scaled
    }
}

/// A place on the ring, as the number of its colour and the share of the way to the
/// next one.
fn leg(place: Float) -> (r: (u64, Float))
    requires
        ranges(place@, 53, -90, -10),
        place.m >= 0,
        !less((6_755_174_261_074_375, -51), place@),
    ensures
        r.0 == whole(place@),
        r.0 <= 2,
        r.1@ == difference(place@, number(whole(place@), 0, 53), 53),
        ranges(r.1@, 53, -107, -5),
{
    proof {
        lemma_two_values();
        lemma_gradient_place(place@);
    }
    if place.m == 0 {
        proof {
            assert(0 * two(0) == 0);
        }
        return (0, place);
    }
    let i: u64 = place.whole_part();
    let start = Float::of(i, DOUBLE);
    if i == 0 {
        return (0, place);
    }
    let f = place.minus(start, DOUBLE);
    proof {
        lemma_sum_ranges(place@, negative(start@), 53);
    }
    (i, f)
}

/// Interpolates three colours round a ring.
pub fn gradient_base(palette: &[[u8; 3]; 3], t: u32, steps: u32) -> (r: [u8; 3])
    requires
        0 < steps,
    ensures
        r@ == gradient(*palette, t as int, steps as int),
{
    let (i, f) = leg(place_on_ring(t, steps));
    let (from, to): ([u8; 3], [u8; 3]) = (palette[i as usize], palette[(i as usize + 1) % 3]);
    let r = [lead(from[0], to[0], f), lead(from[1], to[1], f), lead(from[2], to[2], f)];
    assert(r@ =~= gradient(*palette, t as int, steps as int));
    r
}

/// Brightness of a colour, 255000 for white.
pub open spec fn brightness(c: Seq<u8>) -> int {
    299 * c[0] + 587 * c[1] + 114 * c[2]
}

/// Brightness of a colour in double precision: 0.299 of its red, 0.587 of its green
/// and 0.114 of its blue.
#[verifier::opaque]
pub open spec fn light(c: Seq<u8>) -> (int, int) {
    let red = product((5_386_305_154_335_113, -54), number(c[0] as int, 0, 53), 53);
    let green = product((5_287_225_962_532_962, -53), number(c[1] as int, 0, 53), 53);
    let blue = product((8_214_565_720_323_785, -56), number(c[2] as int, 0, 53), 53);
    quotient(sum(sum(red, green, 53), blue, 53), number(255, 0, 53), 53)
}

/// 0.35 in double precision.
pub open spec fn dim_limit() -> (int, int) {
    (6_305_039_478_318_694, -54)
}

/// 0.45 in double precision.
pub open spec fn least_boost() -> (int, int) {
    (8_106_479_329_266_893, -54)
}

/// A colour is bright enough for a border if its brightness is at least 0.35 or
/// one of its channels at least 0.6.
pub open spec fn bright_enough(c: Seq<u8>) -> bool {
    !less(light(c), dim_limit()) || c[0] >= 153 || c[1] >= 153 || c[2] >= 153
}

/// How far a colour of the brightness `l` moves towards white: 0.45, and up to as
/// much again the darker it is.
#[verifier::opaque]
pub open spec fn boost_share(l: (int, int)) -> (int, int) {
    let t = quotient(difference(dim_limit(), l, 53), dim_limit(), 53);
    sum(least_boost(), product(least_boost(), t, 53), 53)
}

/// The whole steps of a channel that moves by a share of its way to white.
#[verifier::opaque]
pub open spec fn boost_step(c: u8, share: (int, int)) -> int {
    whole(product(number(255 - c, 0, 53), share, 53))
}

/// A border colour: kept if it is bright enough, else moved towards white.
pub open spec fn boosted(c: Seq<u8>) -> Seq<u8> {
    if bright_enough(c) {
        c
    } else {
        Seq::new(3, |i: int| (c[i] + boost_step(c[i], boost_share(light(c)))) as u8)
    }
}

fn light_of(c: [u8; 3]) -> (r: Float)
    ensures
        r@ == light(c@),
        ranges(r@, 53, -67, -45),
        r.m >= 0,
{
    proof {
        reveal(light);
        lemma_two_values();
    }
    let (r, g, b) = (
        Float::of(c[0] as u64, DOUBLE),
        Float::of(c[1] as u64, DOUBLE),
        Float::of(c[2] as u64, DOUBLE),
    );
    let (kr, kg, kb) = (
        Float { m: 5_386_305_154_335_113, e: -54 },
        Float { m: 5_287_225_962_532_962, e: -53 },
        Float { m: 8_214_565_720_323_785, e: -56 },
    );
    proof {
        lemma_product_ranges(kr@, r@, 53);
        lemma_product_ranges(kg@, g@, 53);
        lemma_product_ranges(kb@, b@, 53);
    }
    let (red, green, blue) = (kr.times(r, DOUBLE), kg.times(g, DOUBLE), kb.times(b, DOUBLE));
    proof {
        lemma_sum_ranges(red@, green@, 53);
    }
    let two_of_them = red.plus(green, DOUBLE);
    proof {
        lemma_sum_ranges(two_of_them@, blue@, 53);
    }
    let all = two_of_them.plus(blue, DOUBLE);
    let white = Float::of(255, DOUBLE);
    proof {
        lemma_small_integer(255, 53);
        lemma_bits_of_255();
        lemma_quotient_ranges(all@, white@, 53);
    }
    all.divided_by(white, DOUBLE)
}

/// The brightness of a colour is a number between nothing and two.
proof fn lemma_light(c: Seq<u8>)
    ensures
        ranges(light(c), 53, -67, -45),
        light(c).0 >= 0,
{
    reveal(light);
    lemma_two_values();
    let (kr, kg, kb): ((int, int), (int, int), (int, int)) = (
        (5_386_305_154_335_113, -54),
        (5_287_225_962_532_962, -53),
        (8_214_565_720_323_785, -56),
    );
    let (r, g, b) = (
        number(c[0] as int, 0, 53),
        number(c[1] as int, 0, 53),
        number(c[2] as int, 0, 53),
    );
    lemma_byte(c[0]);
    lemma_byte(c[1]);
    lemma_byte(c[2]);
    lemma_product_ranges(kr, r, 53);
    lemma_product_ranges(kg, g, 53);
    lemma_product_ranges(kb, b, 53);
    let (red, green, blue) = (product(kr, r, 53), product(kg, g, 53), product(kb, b, 53));
    lemma_sum_ranges(red, green, 53);
    lemma_sum_ranges(sum(red, green, 53), blue, 53);
    lemma_small_integer(255, 53);
    lemma_bits_of_255();
    lemma_quotient_ranges(sum(sum(red, green, 53), blue, 53), number(255, 0, 53), 53);
}

/// A share of a byte is at least `c / 1024` where the exact one is.
proof fn lemma_share_at_least(v: u8, k: (int, int), c: int)
    requires
        0 < v,
        ranges(k, 53, -56, -53),
        k.0 > 0,
        k.0 >= c * two(-10 - k.1),
    ensures
        ({
            let x = product(k, number(v as int, 0, 53), 53);
            &&& ranges(x, 53, -58, -43)
            &&& x.0 >= (c * v) * two(-10 - x.1)
            &&& x.0 > 0
        }),
{
    lemma_two_values();
    let a = number(v as int, 0, 53);
    lemma_small_integer(v as int, 53);
    lemma_bits_at_most(v as int, 8);
    lemma_product_ranges(k, a, 53);
    let e = k.1 + a.1;
    let n = k.0 * a.0;
    lemma_two_adds(-10 - k.1, -a.1);
    let (ta, tk) = (two(-a.1), two(-10 - k.1));
    assert(n >= (c * v) * two(-10 - e) && n > 0) by (nonlinear_arith)
        requires
            n == k.0 * a.0,
            a.0 == v * ta,
            k.0 >= c * tk,
            k.0 > 0,
            two(-10 - e) == tk * ta,
            ta >= 1,
            v > 0,
    ;
    lemma_number_at_least(n, e, 53, c * v, -10);
    lemma_number_sign(n, e, 53);
}

/// Sums of positive numbers keep their bounds.
proof fn lemma_sum_at_least(x: (int, int), y: (int, int), c: int, d: int)
    requires
        ranges(x, 53, -60, -40),
        ranges(y, 53, -60, -40),
        x.0 > 0,
        y.0 > 0,
        x.0 >= c * two(-10 - x.1),
        y.0 >= d * two(-10 - y.1),
    ensures
        sum(x, y, 53).0 >= (c + d) * two(-10 - sum(x, y, 53).1),
        sum(x, y, 53).0 > 0,
        sum(x, y, 53).1 >= -61,
{
    let e = finer(x, y);
    let n = units(x, e) + units(y, e);
    lemma_sum_ranges(x, y, 53);
    lemma_two_adds(-10 - x.1, x.1 - e);
    lemma_two_adds(-10 - y.1, y.1 - e);
    let (tx, ty, te) = (two(x.1 - e), two(y.1 - e), two(-10 - e));
    assert(0 < n && n >= (c + d) * te) by (nonlinear_arith)
        requires
            n == x.0 * tx + y.0 * ty,
            x.0 >= c * two(-10 - x.1),
            y.0 >= d * two(-10 - y.1),
            x.0 > 0,
            y.0 > 0,
            te == two(-10 - x.1) * tx,
            te == two(-10 - y.1) * ty,
            tx >= 1,
            ty >= 1,
    ;
    lemma_number_sign(n, e, 53);
    assert(sum(x, y, 53) == number(n, e, 53));
    lemma_number_at_least(n, e, 53, c + d, -10);
}

/// A sum of 112000 in 1024 parts, over 255, is not dim.
proof fn lemma_not_dim(all: (int, int), k: int)
    requires
        ranges(all, 53, -64, -38),
        all.0 > 0,
        all.0 >= k * two(-10 - all.1),
        k >= 112_000,
    ensures
        !less(quotient(all, number(255, 0, 53), 53), dim_limit()),
{
    lemma_two_values();
    lemma_small_integer(255, 53);
    lemma_bits_of_255();
    let b = number(255, 0, 53);
    let q = quotient(all, b, 53);
    lemma_quotient(all, b, 53);
    lemma_quotient_ranges(all, b, 53);
    let t = q.1 - all.1 + b.1;
    let x = -10 - t - all.1;
    lemma_two_adds(-10 - all.1, -t);
    lemma_two_adds(-b.1, -10 - q.1);
    lemma_two_grows(60, x);
    lemma_two_adds(6, 54);
    let (ta, tt, tx, tq) = (two(-10 - all.1), two(-t), two(x), two(-10 - q.1));
    // 416 / 1024 is above 0.35 and below 110 / 255.
    assert(q.0 >= 416 * tq) by (nonlinear_arith)
        requires
            -b.0 <= 2 * (q.0 * b.0 - all.0 * tt),
            all.0 >= k * ta,
            k >= 112_000,
            tx == ta * tt,
            b.0 == 255 * two(-b.1),
            tx == two(-b.1) * tq,
            0 < b.0 <= tx,
            ta >= 1,
            tt >= 1,
    ;
    let e = finer(q, dim_limit());
    lemma_two_adds(-10 - q.1, q.1 - e);
    lemma_two_adds(44, -54 - e);
    let (qe, le, w) = (two(q.1 - e), two(-54 - e), two(-10 - e));
    assert(q.0 * qe >= 6_305_039_478_318_694 * le) by (nonlinear_arith)
        requires
            q.0 >= 416 * tq,
            w == tq * qe,
            w == two(44) * le,
            two(44) == 0x1000_0000_0000,
            qe >= 1,
            le >= 1,
    ;
}

/// A colour whose channels are all 110 or more is bright enough.
proof fn lemma_light_enough(c: Seq<u8>)
    requires
        c[0] >= 110,
        c[1] >= 110,
        c[2] >= 110,
    ensures
        bright_enough(c),
{
    reveal(light);
    lemma_two_values();
    lemma_light(c);
    let (kr, kg, kb): ((int, int), (int, int), (int, int)) = (
        (5_386_305_154_335_113, -54),
        (5_287_225_962_532_962, -53),
        (8_214_565_720_323_785, -56),
    );
    lemma_share_at_least(c[0], kr, 306);
    lemma_share_at_least(c[1], kg, 601);
    lemma_share_at_least(c[2], kb, 116);
    let red = product(kr, number(c[0] as int, 0, 53), 53);
    let green = product(kg, number(c[1] as int, 0, 53), 53);
    let blue = product(kb, number(c[2] as int, 0, 53), 53);
    let pair = sum(red, green, 53);
    lemma_sum_ranges(red, green, 53);
    lemma_sum_at_least(red, green, 306 * c[0], 601 * c[1]);
    let all = sum(pair, blue, 53);
    lemma_sum_ranges(pair, blue, 53);
    lemma_sum_at_least(pair, blue, 306 * c[0] + 601 * c[1], 116 * c[2]);
    let k: int = 306 * c[0] + 601 * c[1] + 116 * c[2];
    lemma_small_integer(255, 53);
    lemma_bits_of_255();
    lemma_not_dim(all, k);
}

proof fn lemma_byte(c: u8)
    ensures
        ranges(number(c as int, 0, 53), 53, -53, -44),
        number(c as int, 0, 53).0 >= 0,
        number(c as int, 0, 53).0 == 0 <==> c == 0,
{
    lemma_two_values();
    if c > 0 {
        lemma_small_integer(c as int, 53);
        lemma_bits_at_most(c as int, 8);
    }
}

proof fn lemma_bits_of_255()
    ensures
        bits(255) == 8,
{
    reveal_with_fuel(bits, 9);
}

/// A dark colour moves by more than seven sixteenths of its way, and not beyond its
/// end.
proof fn lemma_boost_share(l: (int, int))
    requires
        ranges(l, 53, -67, -45),
        l.0 >= 0,
        less(l, dim_limit()),
    ensures
        ({
            let d = difference(dim_limit(), l, 53);
            let t = quotient(d, dim_limit(), 53);
            let q = product(least_boost(), t, 53);
            let s = boost_share(l);
            &&& ranges(d, 53, -120, -43)
            &&& d.0 > 0
            &&& ranges(t, 53, -121, -40)
            &&& t.0 > 0
            &&& ranges(q, 53, -124, -38)
            &&& q.0 > 0
            &&& ranges(s, 53, -180, -36)
            &&& s.0 > 0
            &&& s.0 <= two(-s.1)
            &&& s.0 >= 7 * two(-4 - s.1)
        }),
{
    reveal(boost_share);
    lemma_two_values();
    let (k, b) = (dim_limit(), least_boost());
    let d = difference(k, l, 53);
    lemma_sum_ranges(k, negative(l), 53);
    // d is at most 0.35.
    if l.0 > 0 {
        let e = finer(k, l);
        lemma_two(k.1 - e);
        lemma_two(l.1 - e);
        let n = units(k, e) + units(negative(l), e);
        let (kl, tl, tk) = (l.0, two(l.1 - e), two(k.1 - e));
        assert(units(negative(l), e) == -units(l, e) && units(l, e) > 0) by (nonlinear_arith)
            requires
                units(negative(l), e) == (-kl) * tl,
                units(l, e) == kl * tl,
                kl > 0,
                tl >= 1,
        ;
        assert(n == units(k, e) - units(l, e));
        assert(finer(l, k) == e);
        assert(0 < n < k.0 * tk);
        assert(k.0 * tk < two(53) * tk) by (nonlinear_arith)
            requires
                k.0 < two(53),
                tk >= 1,
        ;
        lemma_place_at_most(n, e, 53, -54);
        lemma_number_at_most(n, e, 53, k.0, -54);
        assert(d == number(n, e, 53));
        lemma_number_sign(n, e, 53);
    }
    assert(d.1 <= -54 && d.0 <= k.0 * two(-54 - d.1) && d.0 > 0) by {
        lemma_two(0);
        assert(k.0 * two(0) == k.0);
    }
    // t is at most one.
    let t = quotient(d, k, 53);
    lemma_quotient(d, k, 53);
    lemma_quotient_ranges(d, k, 53);
    let u = t.1 - d.1 + k.1;
    lemma_two_adds(-u, -54 - d.1);
    let (du, dd, tt) = (two(-u), two(-54 - d.1), two(-t.1));
    assert(d.0 * du <= k.0 * tt) by (nonlinear_arith)
        requires
            d.0 <= k.0 * dd,
            tt == du * dd,
            du >= 1,
    ;
    assert(t.0 <= tt) by (nonlinear_arith)
        requires
            2 * (t.0 * k.0 - d.0 * du) <= k.0,
            d.0 * du <= k.0 * tt,
            k.0 > 0,
    ;
    // q is at most a half.
    let q = product(b, t, 53);
    lemma_product_ranges(b, t, 53);
    let n = b.0 * t.0;
    lemma_two_adds(53, -t.1);
    lemma_two(53 - t.1);
    assert(0 < n <= 1 * two(-1 - (b.1 + t.1))) by (nonlinear_arith)
        requires
            n == b.0 * t.0,
            0 < b.0 <= two(53),
            0 < t.0 <= tt,
            two(-1 - (b.1 + t.1)) == two(53) * tt,
    ;
    lemma_number_at_most(n, b.1 + t.1, 53, 1, -1);
    // The sum of both is at most one, and at least seven sixteenths.
    let s = sum(b, q, 53);
    lemma_sum_ranges(b, q, 53);
    let e = finer(b, q);
    let n = units(b, e) + units(q, e);
    lemma_two_adds(-1 - q.1, q.1 - e);
    lemma_two_adds(53, b.1 - e);
    lemma_two_adds(50, b.1 - e);
    lemma_two(-1 - e);
    let (te, qe, be) = (two(-1 - e), two(q.1 - e), two(b.1 - e));
    assert(q.0 * qe <= te) by (nonlinear_arith)
        requires
            q.0 <= 1 * two(-1 - q.1),
            te == two(-1 - q.1) * qe,
            qe >= 1,
    ;
    assert(b.0 * be <= te && b.0 * be >= 7 * two(50 + b.1 - e)) by (nonlinear_arith)
        requires
            7 * two(50) <= b.0 <= two(53),
            te == two(53) * be,
            two(50 + b.1 - e) == two(50) * be,
            be >= 1,
    ;
    assert(q.0 * qe > 0) by (nonlinear_arith)
        requires
            q.0 > 0,
            qe >= 1,
    ;
    assert(1 * two(-e) == two(-e));
    lemma_number_sign(n, e, 53);
    assert(s == number(n, e, 53));
    lemma_number_at_most(n, e, 53, 1, 0);
    lemma_number_at_least(n, e, 53, 7, -4);
}

/// The step of a channel that moves by such a share.
proof fn lemma_boost_step(c: u8, share: (int, int))
    requires
        ranges(share, 53, -180, -36),
        share.0 > 0,
        share.0 <= two(-share.1),
        share.0 >= 7 * two(-4 - share.1),
    ensures
        ({
            let x = product(number(255 - c, 0, 53), share, 53);
            &&& ranges(x, 53, -240, -25)
            &&& x.0 >= 0
        }),
        0 <= boost_step(c, share) <= 255 - c,
        16 * boost_step(c, share) > 7 * (255 - c) - 16,
{
    reveal(boost_step);
    lemma_two_values();
    let k = 255 - c;
    let x = product(number(k, 0, 53), share, 53);
    if k == 0 {
        lemma_two(0);
        assert(0 * share.0 == 0 && 0 * two(0) == 0);
    } else {
        let w = number(k, 0, 53);
        lemma_small_integer(k, 53);
        lemma_bits_at_most(k, 8);
        lemma_product_ranges(w, share, 53);
        let n = w.0 * share.0;
        let e = w.1 + share.1;
        lemma_two_adds(-w.1, -share.1);
        lemma_two_adds(-w.1, -4 - share.1);
        let (tw, ts, tl) = (two(-w.1), two(-share.1), two(-4 - share.1));
        assert(0 < n <= k * two(-e) && n >= (7 * k) * two(-4 - e)) by (nonlinear_arith)
            requires
                n == w.0 * share.0,
                w.0 == k * tw,
                0 < share.0 <= ts,
                share.0 >= 7 * tl,
                two(-e) == tw * ts,
                two(-4 - e) == tw * tl,
                k > 0,
                tw >= 1,
        ;
        lemma_number_at_most(n, e, 53, k, 0);
        lemma_number_at_least(n, e, 53, 7 * k, -4);
        lemma_number_sign(n, e, 53);
        lemma_two_adds(4, -4 - x.1);
        let (tx, ty) = (two(-x.1), two(-4 - x.1));
        assert(0 <= x.0 / tx <= k && 16 * (x.0 / tx) > 7 * k - 16) by (nonlinear_arith)
            requires
                x.0 <= k * tx,
                x.0 >= (7 * k) * ty,
                tx == 16 * ty,
                ty >= 1,
                k > 0,
        ;
    }
}

fn boost_channel(c: u8, share: Float) -> (r: u8)
    requires
        ranges(share@, 53, -180, -36),
        share.m > 0,
        share.m <= two(-share.e as int),
        share.m >= 7 * two(-4 - share.e),
    ensures
        r == c + boost_step(c, share@),
{
    let way = Float::of((255 - c) as u64, DOUBLE);
    proof {
        lemma_two_values();
        lemma_boost_step(c, share@);
    }
    let x = way.times(share, DOUBLE);
    if x.m == 0 {
        proof {
            reveal(boost_step);
            assert(0 * two(0) == 0);
        }
        return c;
    }
    let step: u64 = x.whole_part();
    proof {
        reveal(boost_step);
    }
    c + step as u8
}

fn share_of(l: Float) -> (r: Float)
    requires
        ranges(l@, 53, -67, -45),
        l.m >= 0,
        less(l@, dim_limit()),
    ensures
        r@ == boost_share(l@),
{
    let limit = Float { m: 6_305_039_478_318_694, e: -54 };
    let least = Float { m: 8_106_479_329_266_893, e: -54 };
    proof {
        lemma_two_values();
        lemma_boost_share(l@);
        reveal(boost_share);
    }
    let d = limit.minus(l, DOUBLE);
    let t = d.divided_by(limit, DOUBLE);
    let q = least.times(t, DOUBLE);
    least.plus(q, DOUBLE)
}

/// Brightens colours that would vanish against a dark screen.
pub fn contrast_boost(c: [u8; 3]) -> (r: [u8; 3])
    ensures
        r@ == boosted(c@),
{
    let l = light_of(c);
    let limit = Float { m: 6_305_039_478_318_694, e: -54 };
    proof {
        lemma_two_values();
    }
    if !l.below(limit, DOUBLE) || c[0] >= 153 || c[1] >= 153 || c[2] >= 153 {
        return c;
    }
    proof {
        lemma_boost_share(l@);
        lemma_boost_step(c@[0], boost_share(l@));
        lemma_boost_step(c@[1], boost_share(l@));
        lemma_boost_step(c@[2], boost_share(l@));
    }
    let share = share_of(l);
    let r = [boost_channel(c[0], share), boost_channel(c[1], share), boost_channel(c[2], share)];
    assert(r@ =~= boosted(c@));
    r
}

/// A channel of the mat in double precision: the channel by one less 0.55, and 0.55
/// of a dark gray.
#[verifier::opaque]
pub open spec fn dimmed(c: u8, gray: u8) -> int {
    whole(
        sum(
            product(number(c as int, 0, 53), (8_106_479_329_266_892, -54), 53),
            product(number(gray as int, 0, 53), (4_953_959_590_107_546, -53), 53),
            53,
        ),
    )
}

/// A colour of the mat.
pub open spec fn matted(c: Seq<u8>) -> Seq<u8> {
    seq![dimmed(c[0], 26) as u8, dimmed(c[1], 26) as u8, dimmed(c[2], 32) as u8]
}

/// 45 percent of a channel is below `459 / 4`, and 55 percent of a dark gray at most
/// `71 / 4`.
proof fn lemma_dimmed(c: u8, gray: u8)
    requires
        0 < gray <= 32,
    ensures
        ({
            let x = product(number(c as int, 0, 53), (8_106_479_329_266_892, -54), 53);
            let y = product(number(gray as int, 0, 53), (4_953_959_590_107_546, -53), 53);
            let s = sum(x, y, 53);
            &&& ranges(x, 53, -56, -44)
            &&& x.0 >= 0
            &&& ranges(y, 53, -55, -43)
            &&& y.0 > 0
            &&& ranges(s, 53, -60, -40)
            &&& s.0 > 0
        }),
        0 <= dimmed(c, gray) <= 132,
{
    reveal(dimmed);
    lemma_two_values();
    let (k, m): ((int, int), (int, int)) = (
        (8_106_479_329_266_892, -54),
        (4_953_959_590_107_546, -53),
    );
    let (a, b) = (number(c as int, 0, 53), number(gray as int, 0, 53));
    lemma_small_integer(gray as int, 53);
    lemma_bits_at_most(gray as int, 8);
    lemma_product_ranges(b, m, 53);
    let y = product(b, m, 53);
    lemma_share_at_most(gray as int, b, m, 71);
    let x = product(a, k, 53);
    if c > 0 {
        lemma_small_integer(c as int, 53);
        lemma_bits_at_most(c as int, 8);
        lemma_product_ranges(a, k, 53);
        lemma_share_at_most(c as int, a, k, 459);
    } else {
        assert(0 * k.0 == 0);
    }
    let s = sum(x, y, 53);
    lemma_sum_ranges(x, y, 53);
    if c > 0 {
        let e = finer(x, y);
        let n = units(x, e) + units(y, e);
        lemma_two_adds(-2 - x.1, x.1 - e);
        lemma_two_adds(-2 - y.1, y.1 - e);
        let (tx, ty, te) = (two(x.1 - e), two(y.1 - e), two(-2 - e));
        assert(0 < n <= 530 * te) by (nonlinear_arith)
            requires
                n == x.0 * tx + y.0 * ty,
                0 < x.0 <= 459 * two(-2 - x.1),
                0 < y.0 <= 71 * two(-2 - y.1),
                te == two(-2 - x.1) * tx,
                te == two(-2 - y.1) * ty,
                tx >= 1,
                ty >= 1,
        ;
        lemma_number_sign(n, e, 53);
        assert(s == number(n, e, 53));
        lemma_number_at_most(n, e, 53, 530, -2);
    } else {
        assert(71 * two(-2 - y.1) <= 530 * two(-2 - y.1)) by {
            lemma_two(-2 - y.1);
        }
    }
    lemma_two_adds(2, -2 - s.1);
    let (t, u) = (two(-s.1), two(-2 - s.1));
    assert(0 <= s.0 / t <= 132) by (nonlinear_arith)
        requires
            0 < s.0 <= 530 * u,
            t == 4 * u,
            u >= 1,
    ;
}

/// A share of a byte is at most `c / 4` where the exact one is.
proof fn lemma_share_at_most(n: int, a: (int, int), k: (int, int), c: int)
    requires
        0 < n,
        a.0 == n * two(-a.1),
        ranges(a, 53, -53, -44),
        ranges(k, 53, -54, -53),
        k.0 > 0,
        n * k.0 <= c * two(-2 - k.1),
    ensures
        product(a, k, 53).0 <= c * two(-2 - product(a, k, 53).1),
        product(a, k, 53).0 > 0,
{
    lemma_two_values();
    lemma_two(-a.1);
    let e = a.1 + k.1;
    let v = a.0 * k.0;
    lemma_two_adds(-2 - k.1, -a.1);
    let (ta, tk) = (two(-a.1), two(-2 - k.1));
    assert(0 < v <= c * two(-2 - e)) by (nonlinear_arith)
        requires
            v == a.0 * k.0,
            a.0 == n * ta,
            n * k.0 <= c * tk,
            two(-2 - e) == tk * ta,
            ta >= 1,
            n > 0,
            k.0 > 0,
    ;
    assert(a.0 > 0) by (nonlinear_arith)
        requires
            a.0 == n * ta,
            n > 0,
            ta >= 1,
    ;
    lemma_product_ranges(a, k, 53);
    lemma_number_at_most(v, e, 53, c, -2);
    lemma_number_sign(v, e, 53);
}

fn dim_channel(c: u8, gray: u8) -> (r: u8)
    requires
        0 < gray <= 32,
    ensures
        r == dimmed(c, gray),
{
    proof {
        lemma_two_values();
        lemma_dimmed(c, gray);
        reveal(dimmed);
    }
    let x = Float::of(c as u64, DOUBLE).times(
        Float { m: 8_106_479_329_266_892, e: -54 },
        DOUBLE,
    );
    let y = Float::of(gray as u64, DOUBLE).times(
        Float { m: 4_953_959_590_107_546, e: -53 },
        DOUBLE,
    );
    x.plus(y, DOUBLE).whole_part() as u8
}

/// Dims a colour for the mat.
pub fn dim_for_mat(c: [u8; 3]) -> (r: [u8; 3])
    ensures
        r@ == matted(c@),
{
    let r = [dim_channel(c[0], 26), dim_channel(c[1], 26), dim_channel(c[2], 32)];
    assert(r@ =~= matted(c@));
    r
}

/// The colour of a ring at `t` of `steps`; a fixed gray without a palette.
pub open spec fn ring_color(
    palette: Option<[[u8; 3]; 3]>,
    role: FrameRole,
    t: int,
    steps: int,
) -> Seq<u8> {
    let base = match palette {
        Some(p) => gradient(p, t, steps),
        None => seq![110u8, 110u8, 110u8],
    };
    match role {
        FrameRole::Outer => boosted(base),
        FrameRole::Inner => matted(base),
    }
}

/// The colour of a cell of a frame.
pub fn frame_color(palette: Option<[[u8; 3]; 3]>, role: FrameRole, t: u32, steps: u32) -> (r: [u8;
    3])
    requires
        palette is Some ==> 0 < steps,
    ensures
        r@ == ring_color(palette, role, t as int, steps as int),
{
    let base: [u8; 3] = match palette {
        Some(p) => gradient_base(&p, t, steps),
        None => {
            let gray: [u8; 3] = [110, 110, 110];
            assert(gray@ =~= seq![110u8, 110u8, 110u8]);
            gray
        },
    };
    match role {
        FrameRole::Outer => contrast_boost(base),
        FrameRole::Inner => dim_for_mat(base),
    }
}

/// A cell of a frame.
#[derive(Debug, Clone, Copy, PartialEq, Eq)]
pub struct FrameCell {
    pub symbol: char,
    pub color: [u8; 3],
}

/// The length of a frame can be counted along its edges.
pub open spec fn frame_fits(area: Rect) -> bool {
    area.width >= 2 && area.height >= 2 ==> {
        let (tw, th) = (area.width - 1, area.height - 1);
        2 * tw + th <= u16::MAX && tw + 2 * th <= u16::MAX
    }
}

/// What a frame shows at the offset `(x, y)` of its area, if anything.
pub fn frame_cell(area: Rect, palette: Option<[[u8; 3]; 3]>, role: FrameRole, x: u16, y: u16) -> (r:
    Option<FrameCell>)
    requires
        frame_fits(area),
    ensures
        ({
            let (w, h) = (area.width as int, area.height as int);
            let cell = ring_cell(w, h, x as int, y as int);
            let p = if w == 1 && h == 1 {
                None
            } else {
                palette
            };
            &&& r is Some <==> cell is Some
            &&& r is Some ==> r->0.symbol == (cell->0).0
            &&& r is Some ==> r->0.color@ == ring_color(p, role, (cell->0).1, ring_steps(w, h))
        }),
{
    let (w, h): (u32, u32) = (area.width as u32, area.height as u32);
    let (x, y): (u32, u32) = (x as u32, y as u32);
    if x >= w || y >= h {
        return None;
    }
    if w == 1 && h == 1 {
        return Some(FrameCell { symbol: '+', color: frame_color(None, role, 0, 0) });
    }
    let (tw, th): (u32, u32) = (w - 1, h - 1);
    let steps: u32 = 2 * (tw + th);
    let (symbol, t): (char, u32) = if w == 1 {
        ('|', y)
    } else if h == 1 {
        ('-', x)
    } else if x == 0 && y == 0 {
        ('+', 0)
    } else if x == tw && y == 0 {
        ('+', tw)
    } else if x == 0 && y == th {
        ('+', tw + th)
    } else if x == tw && y == th {
        ('+', 2 * tw + th)
    } else if y == 0 {
        ('-', x)
    } else if y == th {
        ('-', 2 * tw + th - x)
    } else if x == 0 {
        ('|', tw + y)
    } else if x == tw {
        ('|', tw + 2 * th - y)
    } else {
        return None;
    };
    Some(FrameCell { symbol, color: frame_color(palette, role, t, steps) })
}

/// The rectangles of a framed cover: its rings, as far as the area has room for
/// them, and what is left for the image.
#[derive(Debug, Clone, Copy, PartialEq, Eq)]
pub struct FramePlan {
    pub outer: Option<Rect>,
    pub inner: Option<Rect>,
    pub content: Rect,
}

/// Lays a framed cover out: two rings in areas of at least six by six, one ring
/// in smaller ones, none in areas of two rows or columns.
pub fn frame_plan(area: Rect, state: &ThumbnailState) -> (r: FramePlan)
    requires
        area.wf(),
    ensures
        ({
            let (x, y, w, h) = frame_rect(area, image_size(*state));
            let rings = if w <= 2 || h <= 2 {
                0int
            } else if w >= 6 && h >= 6 {
                2int
            } else {
                1int
            };
            &&& r.outer is Some <==> rings >= 1
            &&& r.inner is Some <==> rings == 2
            &&& r.outer is Some ==> (r.outer->0.x, r.outer->0.y, r.outer->0.width, r.outer->0.height)
                == (x as u16, y as u16, w as u16, h as u16)
            &&& r.inner is Some ==> (r.inner->0.x, r.inner->0.y, r.inner->0.width, r.inner->0.height)
                == ((x + 1) as u16, (y + 1) as u16, (w - 2) as u16, (h - 2) as u16)
            &&& (r.content.x, r.content.y, r.content.width, r.content.height) == (
                (x + rings) as u16,
                (y + rings) as u16,
                (w - 2 * rings) as u16,
                (h - 2 * rings) as u16,
            )
        }),
        r.content.inside(area),
{
    let rect = centered_frame_rect(area, state);
    if rect.width <= 2 || rect.height <= 2 {
        return FramePlan { outer: None, inner: None, content: rect };
    }
    let inner = inset_rect(rect, 1);
    if rect.width >= 6 && rect.height >= 6 {
        FramePlan { outer: Some(rect), inner: Some(inner), content: inset_rect(inner, 1) }
    } else {
        FramePlan { outer: Some(rect), inner: None, content: inner }
    }
}

/// A cell of an image: its upper and its lower pixel, where the image has an
/// opaque one.
#[derive(Debug, Clone, Copy, PartialEq, Eq)]
pub struct HalfBlock {
    pub top: Option<[u8; 3]>,
    pub bottom: Option<[u8; 3]>,
}

impl HalfBlock {
    /// The upper half block where the upper pixel is painted, the lower one
    /// where only the lower pixel is, a space where none is.
    pub fn symbol(self) -> (r: char)
        ensures
            r == if self.top is Some {
                '▀'
            } else if self.bottom is Some {
                '▄'
            } else {
                ' '
            },
    {
        if self.top.is_some() {
            '▀'
        } else if self.bottom.is_some() {
            '▄'
        } else {
            ' '
        }
    }

    /// Colour of the symbol.
    pub fn foreground(self) -> (r: Option<[u8; 3]>)
        ensures
            r == if self.top is Some {
                self.top
            } else {
                self.bottom
            },
    {
        if self.top.is_some() {
            self.top
        } else {
            self.bottom
        }
    }

    /// Colour behind the symbol; where there is none the panel shows.
    pub fn background(self) -> (r: Option<[u8; 3]>)
        ensures
            r == if self.top is Some {
                self.bottom
            } else {
                None
            },
    {
        if self.top.is_some() {
            self.bottom
        } else {
            None
        }
    }
}

impl CoverImage {
    /// The image has a size, and bytes for all its pixels.
    pub open spec fn wf(&self) -> bool {
        &&& self.width > 0
        &&& self.height > 0
        &&& self.rgba@.len() >= self.width * self.height * 4
    }

    /// Position of the bytes of a pixel; beyond the edge, those of the edge.
    pub open spec fn offset(&self, x: int, y: int) -> int {
        (lesser(y, self.height - 1) * self.width + lesser(x, self.width - 1)) * 4
    }

    /// `c` is the colour of the pixel, which is absent where the pixel is almost
    /// transparent.
    pub open spec fn is_pixel(&self, x: int, y: int, c: Option<[u8; 3]>) -> bool {
        let o = self.offset(x, y);
        &&& c is Some <==> self.rgba@[o + 3] >= 16
        &&& c is Some ==> c->0@ == seq![self.rgba@[o], self.rgba@[o + 1], self.rgba@[o + 2]]
    }
}

proof fn lemma_offset(w: int, h: int, x: int, y: int)
    by (nonlinear_arith)
    requires
        0 <= x < w,
        0 <= y < h,
    ensures
        0 <= y * w,
        y * w + x < w * h,
        (y * w + x) * 4 + 3 < w * h * 4,
{
}

/// The colour of a pixel.
pub fn pixel_color(img: &CoverImage, x: usize, y: usize) -> (r: Option<[u8; 3]>)
    requires
        img.wf(),
    ensures
        img.is_pixel(x as int, y as int, r),
{
    let w: usize = img.width as usize;
    let h: usize = img.height as usize;
    let x: usize = if x < w - 1 {
        x
    } else {
        w - 1
    };
    let y: usize = if y < h - 1 {
        y
    } else {
        h - 1
    };
    proof {
        lemma_offset(w as int, h as int, x as int, y as int);
        assert(img.rgba.len() == img.rgba@.len());
    }
    let o: usize = (y * w + x) * 4;
    if img.rgba[o + 3] < 16 {
        None
    } else {
        let c = [img.rgba[o], img.rgba[o + 1], img.rgba[o + 2]];
        assert(c@ =~= seq![img.rgba@[o as int], img.rgba@[o + 1], img.rgba@[o + 2]]);
        Some(c)
    }
}

/// `c` is what the drawn image shows in its column `x` and its half row `py`.
pub open spec fn is_sample(
    img: CoverImage,
    x: int,
    py: int,
    y0: int,
    draw_h: int,
    c: Option<[u8; 3]>,
) -> bool {
    if py < y0 || py >= y0 + draw_h {
        c is None
    } else {
        img.is_pixel(x, (py - y0) * img.height / draw_h, c)
    }
}

/// The pixel of a half row, if the drawn image reaches it.
pub fn sample_pixel(img: &CoverImage, x: usize, py: usize, y0: usize, draw_h: usize) -> (r: Option<
    [u8; 3],
>)
    requires
        img.wf(),
        y0 + draw_h <= usize::MAX,
    ensures
        is_sample(*img, x as int, py as int, y0 as int, draw_h as int, r),
{
    if py < y0 || py >= y0 + draw_h {
        return None;
    }
    proof {
        let (a, b) = (py - y0, img.height as int);
        assert(0 <= a * b <= 0xffff_ffff_ffff_ffff * 0xffff_ffff) by (nonlinear_arith)
            requires
                0 <= a <= 0xffff_ffff_ffff_ffff,
                0 <= b <= 0xffff_ffff,
        ;
        assert(0 <= a * b / (draw_h as int) <= b) by (nonlinear_arith)
            requires
                0 <= a < draw_h,
                0 <= b,
        ;
    }
    let sy: u128 = (py - y0) as u128 * img.height as u128 / draw_h as u128;
    pixel_color(img, x, sy as usize)
}

/// `b` is what the cell `(col, row)` of an area of `cw` by `ch` cells shows of an
/// image that fills the area in proportion.
pub open spec fn is_image_cell(
    img: CoverImage,
    cw: int,
    ch: int,
    col: int,
    row: int,
    b: HalfBlock,
) -> bool {
    let (dw, dh, x0, y0) = placed(cw, ch, img.width as int, img.height as int);
    if col < x0 || col >= x0 + dw {
        b.top is None && b.bottom is None
    } else {
        let sx = (col - x0) * img.width / dw;
        &&& is_sample(img, sx, 2 * row, y0, dh, b.top)
        &&& is_sample(img, sx, 2 * row + 1, y0, dh, b.bottom)
    }
}

/// What a cell of an area shows of an image.
pub fn image_cell(img: &CoverImage, cells_w: u16, cells_h: u16, col: u16, row: u16) -> (r: HalfBlock)
    requires
        img.wf(),
        col < cells_w,
        row < cells_h,
    ensures
        is_image_cell(*img, cells_w as int, cells_h as int, col as int, row as int, r),
{
    let (dw, dh, x0, y0) = fit_rect(
        cells_w as usize,
        cells_h as usize,
        img.width as usize,
        img.height as usize,
    );
    if (col as usize) < x0 || col as usize >= x0 + dw {
        return HalfBlock { top: None, bottom: None };
    }
    proof {
        let (a, b) = (col - x0, img.width as int);
        assert(0 <= a * b <= 0xffff * 0xffff_ffff) by (nonlinear_arith)
            requires
                0 <= a <= 0xffff,
                0 <= b <= 0xffff_ffff,
        ;
        assert(0 <= a * b / (dw as int) <= b) by (nonlinear_arith)
            requires
                0 <= a < dw,
                0 <= b,
        ;
    }
    let sx: usize = ((col as usize - x0) as u64 * img.width as u64 / dw as u64) as usize;
    HalfBlock {
        top: sample_pixel(img, sx, 2 * row as usize, y0, dh),
        bottom: sample_pixel(img, sx, 2 * row as usize + 1, y0, dh),
    }
}

/// What is said in place of a cover that is not there.
pub open spec fn placeholder_text(state: ThumbnailState, spinner: char) -> Option<(Seq<char>, Ink)> {
    match state {
        ThumbnailState::Loaded(_) => None,
        ThumbnailState::Loading => Some((seq![spinner] + " cargando miniatura…"@, Ink::Yellow)),
        ThumbnailState::Failed => Some(("⚠ miniatura no disponible"@, Ink::Red)),
        ThumbnailState::Missing => Some(("sin miniatura"@, Ink::DarkGray)),
    }
}

/// What is said in place of a cover that is not there.
pub fn placeholder(state: &ThumbnailState, glyphs: UiGlyphs, frame: u64) -> (r: Option<Span>)
    ensures
        ({
            let p = placeholder_text(*state, spinner_glyph(glyphs.theme, frame));
            &&& r is Some <==> p is Some
            &&& r is Some ==> (r->0.text@, r->0.ink) == p->0 && !r->0.bold
        }),
{
    match state {
        ThumbnailState::Loaded(_) => None,
        ThumbnailState::Loading => Some(
            Span::new(char_and(glyphs.spinner(frame), " cargando miniatura…"), Ink::Yellow),
        ),
        ThumbnailState::Failed => Some(Span::inked("⚠ miniatura no disponible", Ink::Red)),
        ThumbnailState::Missing => Some(Span::inked("sin miniatura", Ink::DarkGray)),
    }
}

/// A length that is divided and multiplied by the same number comes back.
proof fn lemma_scaled_back(n: int, d: int)
    requires
        0 < n < 0x1000_0000_0000,
        0 < d < two(53),
    ensures
        scaled(d, ratio(n, d)) == n,
{
    lemma_two_values();
    let (a, b) = (number(n, 0, 53), number(d, 0, 53));
    lemma_small_integer(n, 53);
    lemma_small_integer(d, 53);
    let q = ratio(n, d);
    lemma_quotient(a, b, 53);
    lemma_quotient_ranges(a, b, 53);
    let t = q.1 - a.1 + b.1;
    let r = product(b, q, 53);
    lemma_product(b, q, 53);
    let s = r.1 - b.1 - q.1;
    assert(r.1 == s + t + a.1);
    lemma_bits_at_most(n, 44);
    assert(a.1 <= -9);
    assert(r.1 < 0);
    let (ts, tt, tr) = (two(s), two(-t), two(-r.1));
    lemma_two_adds(-t, -a.1);
    lemma_two_adds(-r.1, s);
    assert(a.0 * tt == n * (tr * ts)) by (nonlinear_arith)
        requires
            a.0 == n * two(-a.1),
            two(-t) * two(-a.1) == tr * ts,
            tt == two(-t),
    ;
    lemma_two_grows(s, 54);
    lemma_two_grows(51, s);
    lemma_two_grows(5, -r.1);
    let p53 = two(53);
    assert(-3 * p53 <= 2 * (r.0 * ts - n * (tr * ts)) <= 3 * p53) by {
        assert(b.0 * q.0 == q.0 * b.0) by (nonlinear_arith);
    }
    assert(-12 <= 2 * (r.0 - n * tr) <= 12) by (nonlinear_arith)
        requires
            -3 * p53 <= 2 * (r.0 * ts - n * (tr * ts)) <= 3 * p53,
            p53 <= 4 * ts,
            ts >= 1,
    ;
    assert((2 * r.0 + tr) / (2 * tr) == n) by (nonlinear_arith)
        requires
            -12 <= 2 * (r.0 - n * tr) <= 12,
            tr >= 32,
    ;
}

/// An image never leaves its area, fills it in one direction and is centred in
/// the other to within one cell.
pub proof fn law_image_fills_its_area(cw: int, ch: int, iw: int, ih: int)
    requires
        0 < cw < 0x1000_0000_0000,
        0 < 2 * ch < 0x1000_0000_0000,
        0 <= iw < 0x20_0000_0000_0000,
        0 <= ih < 0x20_0000_0000_0000,
    ensures
        ({
            let (w, h, x0, y0) = placed(cw, ch, iw, ih);
            &&& 1 <= w <= cw
            &&& 1 <= h <= 2 * ch
            &&& w == cw || h == 2 * ch
            &&& 0 <= cw - w - 2 * x0 <= 1
            &&& 0 <= 2 * ch - h - 2 * y0 <= 1
        }),
{
    lemma_two_values();
    lemma_scaled_back(cw, at_least_one(iw));
    lemma_scaled_back(2 * ch, at_least_one(ih));
}

/// Ratios of integers that are not too great compare as the exact ones do.
proof fn lemma_ratios_compare(w: int, iw: int, h: int, ih: int)
    requires
        0 < w < two(53),
        0 < iw < two(53),
        0 < h < two(53),
        0 < ih < two(53),
        h * iw < two(51),
        !less(ratio(h, ih), ratio(w, iw)),
    ensures
        w * ih <= h * iw,
{
    lemma_two_values();
    lemma_small_integer(w, 53);
    lemma_small_integer(iw, 53);
    lemma_small_integer(h, 53);
    lemma_small_integer(ih, 53);
    let (a, b) = (number(w, 0, 53), number(iw, 0, 53));
    let (c, d) = (number(h, 0, 53), number(ih, 0, 53));
    let (x, y) = (ratio(w, iw), ratio(h, ih));
    lemma_quotient(a, b, 53);
    lemma_quotient(c, d, 53);
    let (t, u, k) = (x.1 - a.1 + b.1, y.1 - c.1 + d.1, finer(y, x));
    let p = two(53);
    let (xa, yc) = (a.0 * two(-t), c.0 * two(-u));
    lemma_two(x.1 - k);
    lemma_two(y.1 - k);
    let (xk, yk) = (two(x.1 - k), two(y.1 - k));
    // x is at most one part in 2^53 below the exact ratio, y at most one above it.
    assert((p - 1) * xa <= p * (x.0 * b.0)) by (nonlinear_arith)
        requires
            -b.0 <= 2 * (x.0 * b.0 - xa),
            2 * (b.0 * two(52)) <= 2 * xa,
            p == 2 * two(52),
            p >= 1,
    ;
    assert(p * (y.0 * d.0) <= (p + 1) * yc) by (nonlinear_arith)
        requires
            2 * (y.0 * d.0 - yc) <= d.0,
            2 * (d.0 * two(52)) <= 2 * yc,
            p == 2 * two(52),
            p >= 1,
    ;
    assert(x.0 * xk <= y.0 * yk);
    let (m, n) = (x.0 * xk, y.0 * yk);
    assert((p - 1) * (xa * (xk * d.0)) <= p * (m * (b.0 * d.0))) by (nonlinear_arith)
        requires
            (p - 1) * xa <= p * (x.0 * b.0),
            m == x.0 * xk,
            xk >= 1,
            d.0 > 0,
    ;
    assert(p * (n * (b.0 * d.0)) <= (p + 1) * (yc * (yk * b.0))) by (nonlinear_arith)
        requires
            p * (y.0 * d.0) <= (p + 1) * yc,
            n == y.0 * yk,
            yk >= 1,
            b.0 > 0,
    ;
    assert(p * (m * (b.0 * d.0)) <= p * (n * (b.0 * d.0))) by (nonlinear_arith)
        requires
            m <= n,
            b.0 > 0,
            d.0 > 0,
            p >= 1,
    ;
    // Both sides are multiples of the same power of two.
    let g = -b.1 - d.1 - k;
    lemma_two_adds(-t, x.1 - k);
    lemma_two_adds(-a.1, -t + x.1 - k);
    lemma_two_adds(-d.1, -a.1 - t + x.1 - k);
    lemma_two_adds(-u, y.1 - k);
    lemma_two_adds(-c.1, -u + y.1 - k);
    lemma_two_adds(-b.1, -c.1 - u + y.1 - k);
    let f = two(g);
    assert(xa * (xk * d.0) == (w * ih) * f) by (nonlinear_arith)
        requires
            xa == a.0 * two(-t),
            a.0 == w * two(-a.1),
            d.0 == ih * two(-d.1),
            f == two(-d.1) * (two(-a.1) * (two(-t) * xk)),
    ;
    assert(yc * (yk * b.0) == (h * iw) * f) by (nonlinear_arith)
        requires
            yc == c.0 * two(-u),
            c.0 == h * two(-c.1),
            b.0 == iw * two(-b.1),
            f == two(-b.1) * (two(-c.1) * (two(-u) * yk)),
    ;
    let (z, v) = (h * iw, w * ih);
    assert((p - 1) * (v * f) <= (p + 1) * (z * f));
    lemma_two(g);
    let (l, o) = ((p - 1) * v, (p + 1) * z);
    assert(l <= o) by (nonlinear_arith)
        requires
            (p - 1) * (v * f) <= (p + 1) * (z * f),
            l == (p - 1) * v,
            o == (p + 1) * z,
            f >= 1,
    ;
    assert(0 <= z) by (nonlinear_arith)
        requires
            z == h * iw,
            h > 0,
            iw > 0,
    ;
    assert(v <= z) by (nonlinear_arith)
        requires
            (p - 1) * v <= (p + 1) * z,
            0 <= z,
            4 * z < p,
            p >= 2,
    ;
}

/// A scaled length is at most half a cell away from the exact one.
proof fn lemma_scaled_near(n: int, w: int, d: int, max: int)
    requires
        0 < n <= u32::MAX,
        0 < d <= u32::MAX,
        0 < w <= 0x1_ffff,
        0 < max <= 0x1_ffff,
        w * n <= max * d,
    ensures
        -d <= 2 * (scaled(n, ratio(w, d)) * d - w * n) <= d,
        0 <= scaled(n, ratio(w, d)) <= max,
{
    lemma_two_values();
    lemma_small_integer(n, 53);
    lemma_small_integer(w, 53);
    lemma_small_integer(d, 53);
    lemma_bits_at_most(n, 32);
    lemma_bits_at_most(d, 32);
    lemma_bits_at_most(w, 17);
    let (a, b, c) = (number(w, 0, 53), number(d, 0, 53), number(n, 0, 53));
    let q = ratio(w, d);
    lemma_quotient(a, b, 53);
    lemma_quotient_ranges(a, b, 53);
    let t = q.1 - a.1 + b.1;
    let r = product(c, q, 53);
    lemma_product(c, q, 53);
    lemma_product_ranges(c, q, 53);
    let s = r.1 - c.1 - q.1;
    assert(r.1 == s + t + a.1 - b.1 + c.1);
    let (ts, tt) = (two(s), two(-t));
    lemma_two_grows(s, 54);
    lemma_two_grows(51, s);
    let p = two(53);
    let e = r.0 * ts * b.0 - c.0 * (a.0 * tt);
    // The exact length, times b, is off by at most this much.
    assert(-3 * (p * b.0) <= 2 * e <= 3 * (p * b.0)) by (nonlinear_arith)
        requires
            -ts <= 2 * (r.0 * ts - c.0 * q.0) <= ts,
            -b.0 <= 2 * (q.0 * b.0 - a.0 * tt) <= b.0,
            0 < c.0 <= p,
            0 < ts <= 2 * p,
            b.0 > 0,
            e == r.0 * ts * b.0 - c.0 * (a.0 * tt),
    ;
    let k = -t - a.1 - c.1;
    let tk = two(k);
    lemma_two_adds(-a.1, -t);
    lemma_two_adds(-c.1, -a.1 - t);
    assert(c.0 * (a.0 * tt) == (n * w) * tk) by (nonlinear_arith)
        requires
            a.0 == w * two(-a.1),
            c.0 == n * two(-c.1),
            tk == two(-c.1) * (two(-a.1) * tt),
    ;
    lemma_two_grows(108, k);
    lemma_two_adds(53, 55);
    lemma_two_adds(53, 53);
    lemma_two_values();
    let slack = 3 * (p * b.0);
    assert(slack < tk) by (nonlinear_arith)
        requires
            slack == 3 * (p * b.0),
            0 < b.0 <= p,
            tk >= p * two(55),
            two(55) == 4 * p,
            p >= 1,
    ;
    let exact = n * w;
    assert(exact <= max * d && exact == w * n) by (nonlinear_arith)
        requires
            exact == n * w,
            w * n <= max * d,
    ;
    // The scaled length lies below 2^53, so its last place is behind the point.
    if r.1 >= 0 {
        lemma_two_grows(53, r.1 + 53);
        let j = s - b.1;
        lemma_two_adds(s, -b.1);
        lemma_two_adds(52, j);
        assert(r.0 * ts * b.0 >= two(52) * two(j) * d) by (nonlinear_arith)
            requires
                r.0 >= two(52),
                b.0 == d * two(-b.1),
                two(j) == ts * two(-b.1),
                ts >= 1,
                two(-b.1) >= 1,
                d > 0,
                two(52) >= 1,
        ;
        lemma_two_grows(k, j);
        assert(two(52) * two(j) * d >= two(52) * tk * d) by (nonlinear_arith)
            requires
                two(j) >= tk,
                d > 0,
                two(52) >= 1,
        ;
        assert(exact * tk + slack < two(52) * tk * d) by (nonlinear_arith)
            requires
                exact <= max * d,
                max <= 0x1_ffff,
                slack < tk,
                tk >= 1,
                d >= 1,
                two(52) >= 0x10_0000,
        ;
        assert(false);
    }
    let tr = two(-r.1);
    let h = (2 * r.0 + tr) / (2 * tr);
    lemma_two(-r.1);
    assert(-tr <= 2 * (h * tr - r.0) <= tr) by (nonlinear_arith)
        requires
            h == (2 * r.0 + tr) / (2 * tr),
            tr >= 1,
    ;
    // tr * ts * b.0 == d * tk
    lemma_two_adds(-r.1, s);
    lemma_two_adds(-r.1 + s, -b.1);
    assert(tr * ts * b.0 == d * tk) by (nonlinear_arith)
        requires
            tk == tr * ts * two(-b.1),
            b.0 == d * two(-b.1),
    ;
    assert(-(d * tk) - slack <= 2 * (h * (d * tk) - exact * tk) <= d * tk + slack)
        by (nonlinear_arith)
        requires
            -tr <= 2 * (h * tr - r.0) <= tr,
            tr * ts * b.0 == d * tk,
            -slack <= 2 * (r.0 * ts * b.0 - exact * tk) <= slack,
            ts >= 1,
            b.0 >= 1,
    ;
    let z = 2 * (h * d - exact);
    assert(-(d * tk) - slack <= z * tk <= d * tk + slack) by (nonlinear_arith)
        requires
            -(d * tk) - slack <= 2 * (h * (d * tk) - exact * tk) <= d * tk + slack,
            z == 2 * (h * d - exact),
    ;
    assert(-d <= z <= d) by (nonlinear_arith)
        requires
            -(d * tk) - slack <= z * tk <= d * tk + slack,
            0 <= slack < tk,
    ;
    assert(0 <= h) by (nonlinear_arith)
        requires
            h == (2 * r.0 + tr) / (2 * tr),
            r.0 > 0,
            tr >= 1,
    ;
    assert(h <= max) by (nonlinear_arith)
        requires
            2 * (h * d - exact) <= d,
            exact <= max * d,
            d > 0,
    ;
}

/// An image keeps its proportion: it fills the area in one direction, and its
/// other side differs from the exact one by at most half a cell, unless the exact
/// one is shorter than that.
pub proof fn law_image_keeps_its_proportion(cw: int, ch: int, iw: int, ih: int)
    requires
        0 < cw <= u16::MAX,
        0 < ch <= u16::MAX,
        0 < iw <= u32::MAX,
        0 < ih <= u32::MAX,
    ensures
        ({
            let (w, h, x0, y0) = placed(cw, ch, iw, ih);
            ||| w == cw && (h == 1 || -iw <= 2 * (h * iw - cw * ih) <= iw)
            ||| h == 2 * ch && (w == 1 || -ih <= 2 * (w * ih - 2 * ch * iw) <= ih)
        }),
{
    lemma_two_values();
    let h2 = 2 * ch;
    assert(0 < h2 * iw < two(51) && 0 < cw * ih < two(51)) by (nonlinear_arith)
        requires
            0 < h2 <= 0x1_fffe,
            0 < iw <= 0xffff_ffff,
            0 < cw <= 0xffff,
            0 < ih <= 0xffff_ffff,
            two(51) == 0x8_0000_0000_0000,
    ;
    if less(ratio(h2, ih), ratio(cw, iw)) {
        lemma_less_is_strict(ratio(h2, ih), ratio(cw, iw));
        lemma_ratios_compare(h2, ih, cw, iw);
        lemma_scaled_back(h2, ih);
        lemma_scaled_near(iw, h2, ih, cw);
        assert(h2 * iw == 2 * ch * iw);
    } else {
        lemma_ratios_compare(cw, iw, h2, ih);
        lemma_scaled_back(cw, iw);
        lemma_scaled_near(ih, cw, iw, h2);
    }
}

/// A border colour never vanishes: it is kept because it is bright or has a
/// bright channel, or it is made bright.
pub proof fn law_border_stays_visible(c: Seq<u8>)
    requires
        c.len() == 3,
    ensures
        bright_enough(boosted(c)),
        brightness(boosted(c)) >= 89_250 || boosted(c) == c,
{
    if !bright_enough(c) {
        lemma_light(c);
        let share = boost_share(light(c));
        lemma_boost_share(light(c));
        lemma_boost_step(c[0], share);
        lemma_boost_step(c[1], share);
        lemma_boost_step(c[2], share);
        lemma_light_enough(boosted(c));
    }
}

/// The mat never grows brighter than 132 of 255, whatever the colour.
pub proof fn law_mat_is_dark(c: Seq<u8>, i: int)
    requires
        c.len() == 3,
        0 <= i < 3,
    ensures
        matted(c)[i] <= 132,
{
    lemma_dimmed(c[0], 26);
    lemma_dimmed(c[1], 26);
    lemma_dimmed(c[2], 32);
}

/// Transparent pixels paint nothing, and a half block never shows an unpainted
/// half as its symbol.
pub proof fn law_painted_halves_only(
    img: CoverImage,
    cw: int,
    ch: int,
    col: int,
    row: int,
    b: HalfBlock,
)
    requires
        is_image_cell(img, cw, ch, col, row, b),
    ensures
        ({
            let (dw, dh, x0, y0) = placed(cw, ch, img.width as int, img.height as int);
            &&& col < x0 || col >= x0 + dw ==> b.top is None && b.bottom is None
            &&& 2 * row < y0 || 2 * row >= y0 + dh ==> b.top is None
            &&& 2 * row + 1 < y0 || 2 * row + 1 >= y0 + dh ==> b.bottom is None
        }),
        (forall|k: int| 0 <= k < img.rgba@.len() ==> #[trigger] img.rgba@[k] < 16)
            && img.wf() && 0 <= col < cw && 0 <= row < ch ==> b.top is None && b.bottom is None,
{
    if (forall|k: int| 0 <= k < img.rgba@.len() ==> #[trigger] img.rgba@[k] < 16) && img.wf() && 0
        <= col < cw && 0 <= row < ch {
        let (dw, dh, x0, y0) = placed(cw, ch, img.width as int, img.height as int);
        if x0 <= col < x0 + dw {
            let sx = (col - x0) * img.width / dw;
            lemma_share(col - x0, dw, img.width as int);
            if y0 <= 2 * row < y0 + dh {
                let sy = (2 * row - y0) * img.height / dh;
                lemma_share(2 * row - y0, dh, img.height as int);
                lemma_offset(
                    img.width as int,
                    img.height as int,
                    lesser(sx, img.width - 1),
                    lesser(sy, img.height - 1),
                );
            }
            if y0 <= 2 * row + 1 < y0 + dh {
                let sy = (2 * row + 1 - y0) * img.height / dh;
                lemma_share(2 * row + 1 - y0, dh, img.height as int);
                lemma_offset(
                    img.width as int,
                    img.height as int,
                    lesser(sx, img.width - 1),
                    lesser(sy, img.height - 1),
                );
            }
        }
    }
}

proof fn lemma_share(a: int, d: int, n: int)
    by (nonlinear_arith)
    requires
        0 <= a < d,
        0 <= n,
    ensures
        0 <= a * n / d <= n,
{
}

/// A pixel of the picture as it is shown: nothing if it is transparent, else its
/// red, green and blue.
pub open spec fn shows_pixel(img: CoverImage, x: int, y: int, c: Option<[u8; 3]>) -> bool {
    let o = (y * img.width + x) * 4;
    &&& c is Some <==> img.rgba@[o + 3] >= 16
    &&& c is Some ==> c->0@[0] == img.rgba@[o] && c->0@[1] == img.rgba@[o + 1] && c->0@[2]
        == img.rgba@[o + 2]
}

/// The picture is scaled without turning it: a half cell at a share of the way
/// across and down the drawn picture shows the pixel at the same share of the way
/// across and down the picture itself. The two halves of a cell are two rows.
pub proof fn law_picture_is_scaled_upright(
    img: CoverImage,
    cells_w: u16,
    cells_h: u16,
    col: u16,
    row: u16,
    cell: HalfBlock,
    at: (usize, usize, usize, usize),
    sx: int,
    top: int,
    bottom: int,
)
    requires
        img.wf(),
        col < cells_w,
        row < cells_h,
        call_ensures(image_cell, (&img, cells_w, cells_h, col, row), cell),
        call_ensures(
            fit_rect,
            (cells_w as usize, cells_h as usize, img.width as usize, img.height as usize),
            at,
        ),
        at.2 <= col < at.2 + at.0,
        at.3 <= 2 * row,
        2 * row + 1 < at.3 + at.1,
        sx * at.0 <= (col - at.2) * img.width < (sx + 1) * at.0,
        top * at.1 <= (2 * row - at.3) * img.height < (top + 1) * at.1,
        bottom * at.1 <= (2 * row + 1 - at.3) * img.height < (bottom + 1) * at.1,
    ensures
        shows_pixel(img, sx, top, cell.top),
        shows_pixel(img, sx, bottom, cell.bottom),
        0 <= sx < img.width,
        0 <= top <= bottom < img.height,
{
    let (dw, dh, x0, y0) = (at.0 as int, at.1 as int, at.2 as int, at.3 as int);
    let (w, h) = (img.width as int, img.height as int);
    assert(placed(cells_w as int, cells_h as int, w, h) == (dw, dh, x0, y0));
    lemma_sample_index(col - x0, w, dw, sx);
    lemma_sample_index(2 * row - y0, h, dh, top);
    lemma_sample_index(2 * row + 1 - y0, h, dh, bottom);
    assert(top <= bottom) by (nonlinear_arith)
        requires
            top * dh <= (2 * row - y0) * h,
            (2 * row + 1 - y0) * h < (bottom + 1) * dh,
            h >= 0,
            dh > 0,
    ;
}

proof fn lemma_sample_index(n: int, size: int, drawn: int, s: int)
    requires
        0 <= n < drawn,
        0 < size,
        s * drawn <= n * size < (s + 1) * drawn,
    ensures
        s == n * size / drawn,
        0 <= s < size,
{
    assert(0 <= s < size) by (nonlinear_arith)
        requires
            s * drawn <= n * size < (s + 1) * drawn,
            0 <= n < drawn,
            0 < size,
    ;
    let (x, q) = (n * size, n * size / drawn);
    assert(q == s) by (nonlinear_arith)
        requires
            q == x / drawn,
            s * drawn <= x < (s + 1) * drawn,
            0 < drawn,
    ;
}

/// The symbol and the two colours of a cell show its halves: a painted upper half
/// is the foreground over the lower one, a lower half alone is the foreground.
pub proof fn law_halves_are_drawn(
    cell: HalfBlock,
    symbol: char,
    front: Option<[u8; 3]>,
    back: Option<[u8; 3]>,
)
    requires
        call_ensures(HalfBlock::symbol, (cell,), symbol),
        call_ensures(HalfBlock::foreground, (cell,), front),
        call_ensures(HalfBlock::background, (cell,), back),
    ensures
        symbol == '▀' <==> cell.top is Some,
        symbol == '▄' <==> cell.top is None && cell.bottom is Some,
        symbol == ' ' <==> cell.top is None && cell.bottom is None,
        symbol == '▀' ==> front == cell.top && back == cell.bottom,
        symbol == '▄' ==> front == cell.bottom && back is None,
        symbol == ' ' ==> front is None && back is None,
{
}

/// A frame is drawn on the edge of its area and nowhere else, with crosses in its
/// corners, and its places run round the edge.
pub proof fn law_frame_runs_round_the_edge(w: int, h: int, x: int, y: int)
    requires
        2 <= w,
        2 <= h,
        0 <= x,
        0 <= y,
    ensures
        ({
            let cell = ring_cell(w, h, x, y);
            let (side, end) = (x == 0 || x == w - 1, y == 0 || y == h - 1);
            &&& cell is Some <==> x < w && y < h && (side || end)
            &&& cell is Some ==> 0 <= (cell->0).1 <= ring_steps(w, h)
            &&& cell is Some && side && end ==> (cell->0).0 == '+'
            &&& cell is Some && end && !side ==> (cell->0).0 == '-'
            &&& cell is Some && side && !end ==> (cell->0).0 == '|'
        }),
        ring_cell(w, h, 0, 0) == Some(('+', 0int)),
        ring_steps(w, h) == 2 * w + 2 * h - 4,
        x + 1 < w ==> (ring_cell(w, h, x + 1, 0)->0).1 == (ring_cell(w, h, x, 0)->0).1 + 1,
{
}

/// Cutting an edge off leaves the middle: as much goes on each side, as long as
/// there is enough.
pub proof fn law_inset_keeps_the_middle(area: Rect, inset: u16, inner: Rect)
    requires
        area.wf(),
        2 * inset <= area.width,
        2 * inset <= area.height,
        call_ensures(inset_rect, (area, inset), inner),
    ensures
        inner.inside(area),
        inner.x - area.x == inset,
        inner.y - area.y == inset,
        area.x + area.width - inner.x - inner.width == inset,
        area.y + area.height - inner.y - inner.height == inset,
{
}

/// The rings of a frame and what they hold lie in each other, one cell apart.
pub proof fn law_rings_are_nested(area: Rect, state: ThumbnailState, plan: FramePlan)
    requires
        area.wf(),
        call_ensures(frame_plan, (area, &state), plan),
    ensures
        plan.content.inside(area),
        plan.inner is Some ==> plan.outer is Some,
        plan.outer is Some && plan.inner is None ==> plan.content.x == plan.outer->0.x + 1
            && plan.content.y == plan.outer->0.y + 1 && plan.content.width + 2
            == plan.outer->0.width && plan.content.height + 2 == plan.outer->0.height,
        plan.inner is Some ==> plan.inner->0.x == plan.outer->0.x + 1 && plan.inner->0.y
            == plan.outer->0.y + 1 && plan.inner->0.width + 2 == plan.outer->0.width
            && plan.inner->0.height + 2 == plan.outer->0.height,
        plan.inner is Some ==> plan.content.x == plan.inner->0.x + 1 && plan.content.y
            == plan.inner->0.y + 1 && plan.content.width + 2 == plan.inner->0.width
            && plan.content.height + 2 == plan.inner->0.height,
{
}

/// A border colour is only ever made brighter, and the two rings of a frame are
/// told apart: the outer one never vanishes, the inner one never shines.
pub proof fn law_rings_differ_in_brightness(
    palette: Option<[[u8; 3]; 3]>,
    t: u32,
    steps: u32,
    outer: [u8; 3],
    inner: [u8; 3],
    i: int,
)
    requires
        0 < steps,
        0 <= i < 3,
        call_ensures(frame_color, (palette, FrameRole::Outer, t, steps), outer),
        call_ensures(frame_color, (palette, FrameRole::Inner, t, steps), inner),
    ensures
        bright_enough(outer@),
        inner@[i] <= 132,
        palette is Some ==> outer@[i] >= gradient(palette->0, t as int, steps as int)[i],
        palette is None ==> outer@[i] >= 110,
{
    let base = match palette {
        Some(p) => gradient(p, t as int, steps as int),
        None => seq![110u8, 110u8, 110u8],
    };
    law_border_stays_visible(base);
    law_mat_is_dark(base, i);
    if !bright_enough(base) {
        lemma_light(base);
        let share = boost_share(light(base));
        lemma_boost_share(light(base));
        lemma_boost_step(base[i], share);
    }
}

/// There is a placeholder exactly while there is no picture.
pub proof fn law_placeholders_stand_for_pictures(
    state: ThumbnailState,
    glyphs: UiGlyphs,
    frame: u64,
    text: Option<Span>,
)
    requires
        call_ensures(placeholder, (&state, glyphs, frame), text),
    ensures
        text is None <==> state is Loaded,
        state is Loading ==> text->0.text@[0] == spinner_glyph(glyphs.theme, frame),
        state is Failed ==> text->0.ink is Red,
{
}

/// The frame of a loaded picture is as large as the picture drawn in the area
/// without a margin of two cells, and two cells more on each side; it stands in
/// the middle of the area. Without a picture, or without room for one, it is the
/// whole area.
pub proof fn law_frames_are_centred(
    area: Rect,
    state: ThumbnailState,
    frame: Rect,
    drawn: (usize, usize, usize, usize),
)
    requires
        area.wf(),
        call_ensures(centered_frame_rect, (area, &state), frame),
        state is Loaded ==> area.width >= 4 && area.height >= 4 && call_ensures(
            fit_rect,
            (
                (area.width - 4) as usize,
                (area.height - 4) as usize,
                state->Loaded_0.width as usize,
                state->Loaded_0.height as usize,
            ),
            drawn,
        ),
    ensures
        !(state is Loaded) || area.width < 6 || area.height < 6 ==> frame == area,
        state is Loaded && area.width >= 6 && area.height >= 6 ==> {
            &&& frame.width == drawn.0 + 4
            &&& 2 * (frame.height - 4) - 1 <= drawn.1 <= 2 * (frame.height - 4)
        },
        ({
            let (left, right) = (
                frame.x - area.x,
                area.x + area.width - frame.x - frame.width,
            );
            let (above, below) = (
                frame.y - area.y,
                area.y + area.height - frame.y - frame.height,
            );
            left <= right <= left + 1 && above <= below <= above + 1
        }),
{
}

/// A cell of a frame is drawn exactly on its edge; its colour is bright in the outer
/// ring and dark in the inner one.
pub proof fn law_frame_cells(
    area: Rect,
    palette: Option<[[u8; 3]; 3]>,
    x: u16,
    y: u16,
    outer: Option<FrameCell>,
    inner: Option<FrameCell>,
    i: int,
)
    requires
        2 <= area.width,
        2 <= area.height,
        frame_fits(area),
        call_ensures(frame_cell, (area, palette, FrameRole::Outer, x, y), outer),
        call_ensures(frame_cell, (area, palette, FrameRole::Inner, x, y), inner),
        0 <= i < 3,
    ensures
        outer is Some <==> x < area.width && y < area.height && (x == 0 || y == 0 || x
            == area.width - 1 || y == area.height - 1),
        inner is Some <==> outer is Some,
        outer is Some ==> outer->0.symbol == inner->0.symbol && bright_enough(outer->0.color@)
            && inner->0.color@[i] <= 132,
{
    law_frame_runs_round_the_edge(area.width as int, area.height as int, x as int, y as int);
    if outer is Some {
        let (w, h) = (area.width as int, area.height as int);
        let t = (ring_cell(w, h, x as int, y as int)->0).1;
        let base = match palette {
            Some(p) => gradient(p, t, ring_steps(w, h)),
            None => seq![110u8, 110u8, 110u8],
        };
        law_border_stays_visible(base);
        law_mat_is_dark(base, i);
    }
}

} // verus!
