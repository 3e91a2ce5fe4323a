//! Luminance and contrast of colours, and the mixing of colours.
//!
//! The luminance of a colour weighs its linear channels with 0.2126, 0.7152 and
//! 0.0722, in units of 10^-19. The contrast of two colours is
//! (lighter + 0.05) / (darker + 0.05).

use vstd::prelude::*;

use crate::float::{Float, SINGLE};
#[allow(unused_imports)]
use crate::float::{
    byte_of, finer, lemma_bits_at_most, lemma_number_near, lemma_number_sign, lemma_product_ranges,
    lemma_small_integer, lemma_sum_ranges, lemma_two, lemma_two_adds, lemma_two_grows,
    lemma_two_values, magnitude, number, product, ranges, single_one, sum, to_nearest, two, units,
};
use crate::linear::{LINEAR, LINEAR_ONE};

verus! {

/// One, in units of luminance.
pub const LUMINANCE_ONE: u64 = 10_000_000_000_000_000_000;

/// The 0.05 that both terms of a contrast add.
pub const FLARE: u64 = 500_000_000_000_000_000;

/// Greatest luminance of a background that counts as dark: 0.18.
pub const DARK_LUMINANCE: u64 = 1_800_000_000_000_000_000;

/// Greatest denominator of a mix.
pub const MIX_MAX: u32 = 0x100_0000;

pub const WHITE: [u8; 3] = [255, 255, 255];

pub const BLACK: [u8; 3] = [0, 0, 0];

/// Linear mix of two channel values, `num / den` of the way from `a` to `b`,
/// rounded half up. For the shares in hundredths and sixteenths that the colours of
/// a scene are made with, single precision gives the same.
pub open spec fn mixed(a: int, b: int, num: int, den: int) -> int {
    (2 * (den * a + (b - a) * num) + den) / (2 * den)
}

/// Mix of two colours, channel by channel.
pub open spec fn blended(a: Seq<u8>, b: Seq<u8>, num: int, den: int) -> Seq<u8> {
    Seq::new(3, |i: int| mixed(a[i] as int, b[i] as int, num, den) as u8)
}

proof fn lemma_mixed_between(a: int, b: int, num: int, den: int)
    requires
        0 <= num <= den,
        0 < den,
    ensures
        a <= b ==> a <= mixed(a, b, num, den) <= b,
        b <= a ==> b <= mixed(a, b, num, den) <= a,
{
    let v = 2 * (den * a + (b - a) * num) + den;
    let q = v / (2 * den);
    let lo = if a <= b { a } else { b };
    let hi = if a <= b { b } else { a };
    assert(2 * den * lo <= v < 2 * den * (hi + 1)) by (nonlinear_arith)
        requires
            0 <= num <= den,
            0 < den,
            v == 2 * (den * a + (b - a) * num) + den,
            lo == (if a <= b { a } else { b }),
            hi == (if a <= b { b } else { a }),
    ;
    assert(lo <= q <= hi) by (nonlinear_arith)
        requires
            0 < den,
            2 * den * lo <= v < 2 * den * (hi + 1),
            q == v / (2 * den),
    ;
}

fn mix_channel(a: u8, b: u8, num: u32, den: u32) -> (r: u8)
    requires
        0 < den <= MIX_MAX,
        num <= den,
    ensures
        r == mixed(a as int, b as int, num as int, den as int),
{
    proof {
        lemma_mixed_between(a as int, b as int, num as int, den as int);
        assert(-255 * 0x100_0000 <= (b - a) * num <= 255 * 0x100_0000) by (nonlinear_arith)
            requires
                -255 <= b - a <= 255,
                0 <= num <= 0x100_0000,
        ;
        assert(0 <= den * a <= 255 * 0x100_0000) by (nonlinear_arith)
            requires
                0 <= a <= 255,
                0 <= den <= 0x100_0000,
        ;
        assert(0 <= den * a + (b - a) * num) by (nonlinear_arith)
            requires
                0 <= a <= 255,
                0 <= b <= 255,
                0 <= num <= den,
        ;
    }
    let step: i64 = (b as i64 - a as i64) * num as i64;
    let sum: i64 = den as i64 * a as i64 + step;
    let q: i64 = (2 * sum + den as i64) / (2 * den as i64);
    q as u8
}

/// Mixes two colours, `num / den` of the way from `a` to `b`.
pub fn blend(a: [u8; 3], b: [u8; 3], num: u32, den: u32) -> (r: [u8; 3])
    requires
        0 < den <= MIX_MAX,
        num <= den,
    ensures
        r@ == blended(a@, b@, num as int, den as int),
{
    let r = [
        mix_channel(a[0], b[0], num, den),
        mix_channel(a[1], b[1], num, den),
        mix_channel(a[2], b[2], num, den),
    ];
    assert(r@ =~= blended(a@, b@, num as int, den as int));
    r
}

/// Darkens a colour to `num / den` of its brightness.
pub fn shade(c: [u8; 3], num: u32, den: u32) -> (r: [u8; 3])
    requires
        0 < den <= MIX_MAX,
        num <= den,
    ensures
        r@ == blended(BLACK@, c@, num as int, den as int),
{
    blend(BLACK, c, num, den)
}

/// Mix of two channel values in single precision, the share `t` of the way from `a`
/// to `b`.
#[verifier::opaque]
pub open spec fn mixed_by(a: u8, b: u8, t: (int, int)) -> u8 {
    byte_of(sum(number(a as int, 0, 24), product(number(b - a, 0, 24), t, 24), 24)) as u8
}

/// Mix of two colours in single precision, channel by channel.
pub open spec fn blended_by(a: Seq<u8>, b: Seq<u8>, t: (int, int)) -> Seq<u8> {
    Seq::new(3, |i: int| mixed_by(a[i], b[i], t))
}

fn mix_channel_by(a: u8, b: u8, t: Float) -> (r: u8)
    requires
        ranges(t@, 24, -200, -20),
    ensures
        r == mixed_by(a, b, t@),
{
    proof {
        reveal(mixed_by);
    }
    let from = Float::of(a as u64, SINGLE);
    let way = Float::of_signed(b as i32 - a as i32, SINGLE);
    proof {
        lemma_product_ranges(way@, t@, 24);
    }
    let step = way.times(t, SINGLE);
    proof {
        lemma_sum_ranges(from@, step@, 24);
    }
    from.plus(step, SINGLE).nearest_byte()
}

/// Mixes two colours in single precision.
pub fn blend_by(a: [u8; 3], b: [u8; 3], t: Float) -> (r: [u8; 3])
    requires
        ranges(t@, 24, -200, -20),
    ensures
        r@ == blended_by(a@, b@, t@),
{
    let r = [
        mix_channel_by(a[0], b[0], t),
        mix_channel_by(a[1], b[1], t),
        mix_channel_by(a[2], b[2], t),
    ];
    assert(r@ =~= blended_by(a@, b@, t@));
    r
}

/// A mix in single precision is hardly more than half a step away from the exact
/// one. Lengths are in units of `2^-300`.
pub proof fn lemma_mixed_by_near(a: u8, b: u8, t: (int, int))
    requires
        ranges(t, 24, -200, -23),
        0 <= t.0,
        t.0 * two(t.1 + 300) <= two(300),
    ensures
        ({
            let exact = a * two(300) + (b - a) * (t.0 * two(t.1 + 300));
            let q = two(285);
            -16389 * q <= mixed_by(a, b, t) * two(300) - exact <= 16389 * q
        }),
        two(300) == 0x8000 * two(285),
        two(285) >= 1,
{
    reveal(mixed_by);
    lemma_two_values();
    lemma_two_adds(285, 15);
    let (k, q) = (two(300), two(285));
    let d = b - a;
    let (x, way) = (number(a as int, 0, 24), number(d, 0, 24));
    let tv = t.0 * two(t.1 + 300);
    lemma_two(t.1 + 300);
    assert(0 <= tv) by (nonlinear_arith)
        requires
            tv == t.0 * two(t.1 + 300),
            t.0 >= 0,
            two(t.1 + 300) >= 1,
    ;
    let exact = a * k + d * tv;
    assert(0 <= exact <= 255 * k) by (nonlinear_arith)
        requires
            exact == a * k + d * tv,
            0 <= tv <= k,
            0 <= a <= 255,
            0 <= a + d <= 255,
    ;
    // The number of the first channel is exact.
    if a > 0 {
        lemma_small_integer(a as int, 24);
        lemma_bits_at_most(a as int, 8);
        lemma_two_adds(-x.1, x.1 + 300);
    }
    let xv = x.0 * two(x.1 + 300);
    assert(xv == a * k) by (nonlinear_arith)
        requires
            a > 0 ==> x.0 == a * two(-x.1) && k == two(-x.1) * two(x.1 + 300),
            a == 0 ==> x.0 == 0,
            xv == x.0 * two(x.1 + 300),
            a >= 0,
    ;
    // The step is off by at most 2^-15.
    let step = product(way, t, 24);
    let sv = step.0 * two(step.1 + 300);
    lemma_small_way(d);
    lemma_product_ranges(way, t, 24);
    let n = way.0 * t.0;
    if d != 0 && t.0 != 0 {
        let e = way.1 + t.1;
        lemma_two_adds(-way.1, e + 300);
        assert(n * two(e + 300) == d * tv) by (nonlinear_arith)
            requires
                n == way.0 * t.0,
                way.0 == d * two(-way.1),
                tv == t.0 * two(t.1 + 300),
                two(t.1 + 300) == two(-way.1) * two(e + 300),
        ;
        assert(n != 0) by (nonlinear_arith)
            requires
                n == way.0 * t.0,
                way.0 != 0,
                t.0 != 0,
        ;
        lemma_number_near(n, e, 24, 300);
        lemma_two_grows(step.1 + 299, 285);
    } else {
        assert(d * tv == 0) by (nonlinear_arith)
            requires
                d == 0 || tv == 0,
        ;
        assert(0 * two(300) == 0 && 0 * two(t.1 + 300) == 0);
    }
    assert(-q <= sv - d * tv <= q);
    // So is the sum, by four times as much.
    let s = sum(x, step, 24);
    let v = s.0 * two(s.1 + 300);
    lemma_sum_ranges(x, step, 24);
    assert(-4 * q <= v - xv - sv <= 4 * q) by {
        if x.0 == 0 || step.0 == 0 {
            assert(0 * two(300) == 0);
        } else {
            let e = finer(x, step);
            lemma_two_adds(x.1 - e, e + 300);
            lemma_two_adds(step.1 - e, e + 300);
            let m = units(x, e) + units(step, e);
            assert(m * two(e + 300) == xv + sv) by (nonlinear_arith)
                requires
                    m == x.0 * two(x.1 - e) + step.0 * two(step.1 - e),
                    xv == x.0 * two(x.1 + 300),
                    sv == step.0 * two(step.1 + 300),
                    two(x.1 + 300) == two(x.1 - e) * two(e + 300),
                    two(step.1 + 300) == two(step.1 - e) * two(e + 300),
            ;
            if m == 0 {
                assert(0 * two(300) == 0 && 0 * two(e + 300) == 0);
            } else {
                lemma_number_sign(m, e, 24);
                lemma_number_near(m, e, 24, 300);
                lemma_two_grows(s.1 + 299, 287);
                lemma_two(285);
                lemma_two(286);
            }
        }
    }
    // The nearest byte is half a step away, or held to the side of the exact mix.
    let r = byte_of(s);
    if s.0 >= 0 {
        let (w, u) = (two(-s.1), two(s.1 + 300));
        lemma_two_adds(-s.1, s.1 + 300);
        let h = to_nearest(s);
        if s.0 == 0 {
            assert(0 * two(0) == 0 && 0 * two(300) == 0);
            assert(h == 0);
        } else {
            assert(h == (2 * s.0 + w) / (2 * w));
            assert(-w <= 2 * (h * w - s.0) <= w && h >= 0) by (nonlinear_arith)
                requires
                    h == (2 * s.0 + w) / (2 * w),
                    w >= 1,
                    s.0 >= 0,
            ;
            assert(-k <= 2 * (h * k - v) <= k) by (nonlinear_arith)
                requires
                    -w <= 2 * (h * w - s.0) <= w,
                    k == w * u,
                    v == s.0 * u,
                    u >= 1,
            ;
        }
        assert(h * k - v <= 0x4000 * q && v - h * k <= 0x4000 * q);
        if h > 255 {
            assert(h * k >= 256 * k) by (nonlinear_arith)
                requires
                    h >= 256,
                    k >= 1,
            ;
        }
    } else {
        lemma_two(s.1 + 300);
        assert(v <= 0) by (nonlinear_arith)
            requires
                v == s.0 * two(s.1 + 300),
                s.0 < 0,
                two(s.1 + 300) >= 1,
        ;
        assert(0 * k == 0);
    }
}

/// A mix in single precision starts and ends at its two values.
pub proof fn law_mixed_by_ends(a: u8, b: u8)
    ensures
        mixed_by(a, b, (0, 0)) == a,
        mixed_by(a, b, single_one()) == b,
{
    lemma_two_values();
    lemma_two(300);
    lemma_two_adds(277, 23);
    lemma_mixed_by_near(a, b, single_one());
    let (k, q) = (two(300), two(285));
    let r = mixed_by(a, b, single_one());
    assert(r == b) by (nonlinear_arith)
        requires
            -16389 * q <= r * k - (a * k + (b - a) * k) <= 16389 * q,
            k == 0x8000 * q,
            q >= 1,
    ;
    lemma_mixed_by_near(a, b, (0, 0));
    let r = mixed_by(a, b, (0, 0));
    assert((b - a) * (0 * k) == 0) by (nonlinear_arith);
    assert(r == a) by (nonlinear_arith)
        requires
            -16389 * q <= r * k - a * k <= 16389 * q,
            k == 0x8000 * q,
            q >= 1,
    ;
}

proof fn lemma_small_way(d: int)
    requires
        -255 <= d <= 255,
    ensures
        ranges(number(d, 0, 24), 24, -24, -16),
        number(d, 0, 24).0 == 0 <==> d == 0,
        d != 0 ==> number(d, 0, 24).0 == d * two(-number(d, 0, 24).1),
{
    lemma_two_values();
    if d != 0 {
        let m = magnitude(d);
        lemma_small_integer(m, 24);
        lemma_bits_at_most(m, 8);
        let x = number(m, 0, 24);
        let t = two(-x.1);
        assert((-m) * t == -(m * t)) by (nonlinear_arith);
    }
}

/// Luminance of a colour.
pub open spec fn luminance(c: Seq<u8>) -> int {
    2126 * LINEAR@[c[0] as int] + 7152 * LINEAR@[c[1] as int] + 722 * LINEAR@[c[2] as int]
}

/// Luminance of a colour.
pub fn relative_luminance(c: [u8; 3]) -> (r: u64)
    ensures
        r == luminance(c@),
        r <= LUMINANCE_ONE,
{
    proof {
        law_linear_is_at_most_one(c@[0] as int);
        law_linear_is_at_most_one(c@[1] as int);
        law_linear_is_at_most_one(c@[2] as int);
    }
    2126 * LINEAR[c[0] as usize] + 7152 * LINEAR[c[1] as usize] + 722 * LINEAR[c[2] as usize]
}

/// The greater of the two luminances, with its flare.
pub open spec fn lighter_term(a: Seq<u8>, b: Seq<u8>) -> int {
    FLARE + if luminance(a) >= luminance(b) {
        luminance(a)
    } else {
        luminance(b)
    }
}

/// The lesser of the two luminances, with its flare.
pub open spec fn darker_term(a: Seq<u8>, b: Seq<u8>) -> int {
    FLARE + if luminance(a) >= luminance(b) {
        luminance(b)
    } else {
        luminance(a)
    }
}

/// The contrast of two colours, as the two terms of the ratio.
pub fn contrast_ratio(a: [u8; 3], b: [u8; 3]) -> (r: (u64, u64))
    ensures
        r.0 == lighter_term(a@, b@),
        r.1 == darker_term(a@, b@),
        r.1 >= FLARE,
        r.0 <= LUMINANCE_ONE + FLARE,
{
    let la: u64 = relative_luminance(a);
    let lb: u64 = relative_luminance(b);
    if la >= lb {
        (la + FLARE, lb + FLARE)
    } else {
        (lb + FLARE, la + FLARE)
    }
}

/// The contrast of two colours is at least `num / den`.
pub open spec fn reaches(a: Seq<u8>, b: Seq<u8>, num: int, den: int) -> bool {
    den * lighter_term(a, b) >= num * darker_term(a, b)
}

/// Tests the contrast of two colours.
pub fn contrast_reaches(a: [u8; 3], b: [u8; 3], num: u64, den: u64) -> (r: bool)
    requires
        0 < den,
    ensures
        r == reaches(a@, b@, num as int, den as int),
{
    let (hi, lo) = contrast_ratio(a, b);
    proof {
        lemma_product_fits(num, lo);
        lemma_product_fits(den, hi);
    }
    den as u128 * hi as u128 >= num as u128 * lo as u128
}

proof fn lemma_product_fits(a: u64, b: u64)
    ensures
        0 <= a * b <= u128::MAX,
{
    assert(0 <= a * b <= 0xffff_ffff_ffff_ffff * 0xffff_ffff_ffff_ffff) by (nonlinear_arith)
        requires
            0 <= a <= 0xffff_ffff_ffff_ffff,
            0 <= b <= 0xffff_ffff_ffff_ffff,
    ;
}

/// The extreme that contrasts with a background: white with a dark one.
pub open spec fn far_end(bg: Seq<u8>) -> Seq<u8> {
    if luminance(bg) <= DARK_LUMINANCE {
        WHITE@
    } else {
        BLACK@
    }
}

/// The first step from `k` sixteenths on, towards the extreme, that reaches the
/// target, or the extreme itself.
pub open spec fn first_step(fg: Seq<u8>, bg: Seq<u8>, num: int, den: int, k: int) -> Seq<u8>
    decreases 16 - k,
{
    if k >= 16 {
        far_end(bg)
    } else if reaches(blended(fg, far_end(bg), k, 16), bg, num, den) {
        blended(fg, far_end(bg), k, 16)
    } else {
        first_step(fg, bg, num, den, k + 1)
    }
}

/// The colour itself if it reaches the target, else the first step towards the
/// extreme that does, else the extreme.
pub open spec fn contrasting(fg: Seq<u8>, bg: Seq<u8>, num: int, den: int) -> Seq<u8> {
    if reaches(fg, bg, num, den) {
        fg
    } else {
        first_step(fg, bg, num, den, 1)
    }
}

/// Moves a colour away from its background, in sixteenths, only as far as the
/// target asks.
pub fn ensure_contrast(fg: [u8; 3], bg: [u8; 3], num: u64, den: u64) -> (r: [u8; 3])
    requires
        0 < den,
    ensures
        r@ == contrasting(fg@, bg@, num as int, den as int),
{
    if contrast_reaches(fg, bg, num, den) {
        return fg;
    }
    let end: [u8; 3] = if relative_luminance(bg) <= DARK_LUMINANCE {
        WHITE
    } else {
        BLACK
    };
    let mut k: u32 = 1;
    while k < 16
        invariant
            1 <= k <= 16,
            0 < den,
            end@ == far_end(bg@),
            first_step(fg@, bg@, num as int, den as int, 1) == first_step(
                fg@,
                bg@,
                num as int, den as int,
                k as int,
            ),
            !reaches(fg@, bg@, num as int, den as int),
        decreases 16 - k,
    {
        let step = blend(fg, end, k, 16);
        if contrast_reaches(step, bg, num, den) {
            return step;
        }
        k = k + 1;
    }
    end
}

proof fn lemma_ends()
    ensures
        luminance(WHITE@) == LUMINANCE_ONE,
        luminance(BLACK@) == 0,
{
}

proof fn lemma_step_reaches(fg: Seq<u8>, bg: Seq<u8>, num: int, den: int, k: int)
    requires
        reaches(far_end(bg), bg, num, den),
    ensures
        reaches(first_step(fg, bg, num, den, k), bg, num, den),
    decreases 16 - k,
{
    if k < 16 {
        lemma_step_reaches(fg, bg, num, den, k + 1);
    }
}

/// A linear channel is at most one.
pub proof fn law_linear_is_at_most_one(c: int)
    requires
        0 <= c < 256,
    ensures
        LINEAR@[c] <= LINEAR_ONE,
{
    assert(forall|i: int| 0 <= i < 256 ==> #[trigger] LINEAR@[i] <= LINEAR_ONE);
}

/// A target of up to 4.5 is always reached, whatever the colour and the
/// background.
pub proof fn law_contrast_is_reached(fg: Seq<u8>, bg: Seq<u8>, num: int, den: int)
    requires
        bg.len() == 3,
        0 <= num,
        0 < den,
        10 * num <= 45 * den,
    ensures
        reaches(contrasting(fg, bg, num, den), bg, num, den),
{
    lemma_ends();
    law_linear_is_at_most_one(bg[0] as int);
    law_linear_is_at_most_one(bg[1] as int);
    law_linear_is_at_most_one(bg[2] as int);
    let l = luminance(bg);
    assert(0 <= l <= LUMINANCE_ONE);
    let lo = darker_term(far_end(bg), bg);
    let hi = lighter_term(far_end(bg), bg);
    assert(10 * hi >= 45 * lo);
    assert(den * hi >= num * lo) by (nonlinear_arith)
        requires
            10 * hi >= 45 * lo,
            10 * num <= 45 * den,
            0 < den,
            0 <= lo,
    ;
    assert(reaches(far_end(bg), bg, num, den));
    if !reaches(fg, bg, num, den) {
        lemma_step_reaches(fg, bg, num, den, 1);
    }
}

/// A colour that reaches the target is kept as it is.
pub proof fn law_good_contrast_is_kept(fg: Seq<u8>, bg: Seq<u8>, num: int, den: int)
    requires
        reaches(fg, bg, num, den),
    ensures
        contrasting(fg, bg, num, den) == fg,
{
}

/// The contrast is symmetric, and least, at 1, for equal luminances.
pub proof fn law_contrast_is_symmetric(a: Seq<u8>, b: Seq<u8>)
    ensures
        lighter_term(a, b) == lighter_term(b, a),
        darker_term(a, b) == darker_term(b, a),
        darker_term(a, b) <= lighter_term(a, b),
{
}

/// A mix lies between its two colours and starts and ends at them.
pub proof fn law_blend_lies_between(a: int, b: int, num: int, den: int)
    requires
        0 <= num <= den,
        0 < den,
    ensures
        a <= b ==> a <= mixed(a, b, num, den) <= b,
        b <= a ==> b <= mixed(a, b, num, den) <= a,
        mixed(a, b, 0, den) == a,
        mixed(a, b, den, den) == b,
{
    lemma_mixed_between(a, b, num, den);
    assert((2 * (den * a + (b - a) * 0) + den) / (2 * den) == a) by (nonlinear_arith)
        requires
            0 < den,
    ;
    assert((2 * (den * a + (b - a) * den) + den) / (2 * den) == b) by (nonlinear_arith)
        requires
            0 < den,
    ;
}

/// A blend is the whole number nearest to the share that it stands for.
pub proof fn law_blend_is_nearest(a: int, b: int, num: int, den: int)
    requires
        0 < den,
    ensures
        -den <= 2 * (den * mixed(a, b, num, den) - ((den - num) * a + num * b)) <= den,
{
    let m = mixed(a, b, num, den);
    let x = 2 * (den * a + (b - a) * num) + den;
    assert(2 * den * m <= x < 2 * den * m + 2 * den) by (nonlinear_arith)
        requires
            m == x / (2 * den),
            0 < den,
    ;
    assert((b - a) * num == num * b - num * a && (den - num) * a == den * a - num * a)
        by (nonlinear_arith);
    assert(2 * den * m == 2 * (den * m)) by (nonlinear_arith);
}

/// Brightness counts green most, then red, then blue, in fixed proportions; black
/// has none, white has all of it, and the components add up.
pub proof fn law_luminance_weighs_the_components(c: Seq<u8>, v: u8)
    requires
        c.len() == 3,
    ensures
        luminance(BLACK@) == 0,
        luminance(WHITE@) == LUMINANCE_ONE,
        luminance(seq![v, v, v]) == 10_000 * LINEAR@[v as int],
        luminance(seq![v, 0, 0]) == 2126 * LINEAR@[v as int],
        luminance(seq![0, v, 0]) == 7152 * LINEAR@[v as int],
        luminance(seq![0, 0, v]) == 722 * LINEAR@[v as int],
        luminance(c) == luminance(seq![c[0], 0, 0]) + luminance(seq![0, c[1], 0]) + luminance(
            seq![0, 0, c[2]],
        ),
{
    lemma_ends();
    assert(LINEAR@[0] == 0 && LINEAR@[255] == LINEAR_ONE);
}

/// A colour that does not stand out is moved towards white on a dark ground and
/// towards black on a light one, in sixteenths of the way, and no further than to
/// the first that stands out.
pub proof fn law_contrast_takes_the_shortest_way(
    fg: [u8; 3],
    bg: [u8; 3],
    num: u64,
    den: u64,
    out: [u8; 3],
    end: Seq<u8>,
    k: int,
)
    requires
        0 < den,
        call_ensures(ensure_contrast, (fg, bg, num, den), out),
        !reaches(fg@, bg@, num as int, den as int),
        luminance(bg@) <= 1_800_000_000_000_000_000 ==> end == seq![255u8, 255u8, 255u8],
        luminance(bg@) > 1_800_000_000_000_000_000 ==> end == seq![0u8, 0u8, 0u8],
        1 <= k <= 16,
    ensures
        exists|j: int| 1 <= j <= 16 && out@ == #[trigger] blended(fg@, end, j, 16),
        reaches(blended(fg@, end, k, 16), bg@, num as int, den as int) ==> exists|j: int|
            1 <= j <= k && out@ == #[trigger] blended(fg@, end, j, 16),
{
    assert(WHITE@ =~= seq![255u8, 255u8, 255u8]);
    assert(BLACK@ =~= seq![0u8, 0u8, 0u8]);
    assert(far_end(bg@) == end);
    let j = lemma_first_step(fg@, bg@, num as int, den as int, 1, k);
    assert(out@ == blended(fg@, end, j, 16));
}

proof fn lemma_first_step(fg: Seq<u8>, bg: Seq<u8>, num: int, den: int, from: int, k: int) -> (j: int)
    requires
        fg.len() == 3,
        1 <= from <= 16,
        1 <= k <= 16,
    ensures
        from <= j <= 16,
        first_step(fg, bg, num, den, from) == blended(fg, far_end(bg), j, 16),
        from <= k && reaches(blended(fg, far_end(bg), k, 16), bg, num, den) ==> j <= k,
    decreases 16 - from,
{
    let end = far_end(bg);
    if from >= 16 {
        assert forall|i: int| 0 <= i < 3 implies #[trigger] blended(fg, end, 16, 16)[i] == end[i] by {
            law_blend_lies_between(fg[i] as int, end[i] as int, 16, 16);
        }
        assert(end.len() == 3);
        assert(blended(fg, end, 16, 16) =~= end);
        16
    } else if reaches(blended(fg, end, from, 16), bg, num, den) {
        from
    } else {
        lemma_first_step(fg, bg, num, den, from + 1, k)
    }
}

/// The contrast of two colours does not depend on their order and is at least one;
/// black and white have twenty-one. A colour stands out by a measure exactly if
/// their contrast reaches it.
pub proof fn law_contrast_is_measured(
    a: [u8; 3],
    b: [u8; 3],
    there: (u64, u64),
    back: (u64, u64),
    num: u64,
    den: u64,
    enough: bool,
)
    requires
        0 < den,
        call_ensures(contrast_ratio, (a, b), there),
        call_ensures(contrast_ratio, (b, a), back),
        call_ensures(contrast_reaches, (a, b, num, den), enough),
    ensures
        there == back,
        there.0 >= there.1 > 0,
        enough <==> den * there.0 >= num * there.1,
        a@ == WHITE@ && b@ == BLACK@ ==> there.0 == 21 * there.1,
{
    lemma_ends();
}

} // verus!
