//! Saturation and lightness of colours, in single precision.
//!
//! A colour is taken apart into its hue, its saturation and its lightness; the last
//! two are held to their ranges, and the colour is put together again.

use vstd::prelude::*;

use crate::float::{rounded, two_to, Float, SINGLE};
#[allow(unused_imports)]
use crate::float::{
    bits, byte_of, difference, finer, is_number, lemma_bits_at_most, lemma_number,
    lemma_number_at_least, lemma_number_at_most, lemma_number_sign, lemma_product_ranges, lemma_quotient,
    lemma_quotient_ranges, lemma_small_integer, lemma_sum_ranges, lemma_two, lemma_two_adds,
    lemma_two_grows, lemma_two_values, less, magnitude, negative, number, product, quotient, ranges,
    single_one, sum, to_nearest, two, units, whole,
};
use crate::palette::{TAME_MAX_LIGHTNESS, TAME_MAX_SATURATION, TAME_MIN_LIGHTNESS};

verus! {

pub open spec fn greatest(c: Seq<u8>) -> int {
    let m = if c[0] >= c[1] {
        c[0] as int
    } else {
        c[1] as int
    };
    if m >= c[2] {
        m
    } else {
        c[2] as int
    }
}

pub open spec fn least(c: Seq<u8>) -> int {
    let m = if c[0] <= c[1] {
        c[0] as int
    } else {
        c[1] as int
    };
    if m <= c[2] {
        m
    } else {
        c[2] as int
    }
}

/// A channel as a part of 255.
pub open spec fn part(c: int) -> (int, int) {
    quotient(number(c, 0, 24), number(255, 0, 24), 24)
}

/// Half of a number.
pub open spec fn halved(a: (int, int)) -> (int, int) {
    if a.0 == 0 {
        a
    } else {
        (a.0, a.1 - 1)
    }
}

/// Twice a number.
pub open spec fn doubled(a: (int, int)) -> (int, int) {
    if a.0 == 0 {
        a
    } else {
        (a.0, a.1 + 1)
    }
}

pub open spec fn absolute(a: (int, int)) -> (int, int) {
    (magnitude(a.0), a.1)
}

/// `1 - |w - 1|`.
pub open spec fn tent(w: (int, int)) -> (int, int) {
    difference(single_one(), absolute(difference(w, single_one(), 24)), 24)
}

/// Sum and difference of the greatest and the least channel.
pub open spec fn both_ends(c: Seq<u8>) -> (int, int) {
    sum(part(greatest(c)), part(least(c)), 24)
}

pub open spec fn span(c: Seq<u8>) -> (int, int) {
    difference(part(greatest(c)), part(least(c)), 24)
}

/// The saturation: the span as a part of what the lightness leaves room for.
#[verifier::opaque]
pub open spec fn saturation(c: Seq<u8>) -> (int, int) {
    if greatest(c) == least(c) {
        (0, 0)
    } else {
        quotient(span(c), tent(both_ends(c)), 24)
    }
}

/// The lightness: the middle of the greatest and the least channel.
#[verifier::opaque]
pub open spec fn lightness(c: Seq<u8>) -> (int, int) {
    halved(both_ends(c))
}

/// The way of a colour between two of its channels, as a part of its span.
#[verifier::opaque]
pub open spec fn lean(c: Seq<u8>, i: int, j: int) -> (int, int) {
    quotient(difference(part(c[i] as int), part(c[j] as int), 24), span(c), 24)
}

/// The hue in sixths of the circle: red, green and blue stand at 0, 2 and 4.
#[verifier::opaque]
pub open spec fn sixths(c: Seq<u8>) -> (int, int) {
    if c[0] == greatest(c) {
        let y = lean(c, 1, 2);
        if y.0 < 0 {
            sum(y, number(6, 0, 24), 24)
        } else {
            y
        }
    } else if c[1] == greatest(c) {
        sum(lean(c, 2, 0), number(2, 0, 24), 24)
    } else {
        sum(lean(c, 0, 1), number(4, 0, 24), 24)
    }
}

/// The hue, as a part of the circle.
pub open spec fn hue(c: Seq<u8>) -> (int, int) {
    if greatest(c) == least(c) {
        (0, 0)
    } else {
        quotient(sixths(c), number(6, 0, 24), 24)
    }
}

/// What is left of a number that is not negative when twos are taken away.
pub open spec fn rest_of_twos(a: (int, int)) -> (int, int) {
    if a.1 >= 1 {
        (0, 0)
    } else {
        number(a.0 % two(1 - a.1), a.1, 24)
    }
}

/// The saturation, capped.
pub open spec fn capped(s: (int, int)) -> (int, int) {
    if less((TAME_MAX_SATURATION as int, -24), s) {
        (TAME_MAX_SATURATION as int, -24)
    } else {
        s
    }
}

/// The lightness, held to its range.
pub open spec fn held(l: (int, int)) -> (int, int) {
    if less(l, (TAME_MIN_LIGHTNESS as int, -25)) {
        (TAME_MIN_LIGHTNESS as int, -25)
    } else if less((TAME_MAX_LIGHTNESS as int, -24), l) {
        (TAME_MAX_LIGHTNESS as int, -24)
    } else {
        l
    }
}

/// The channels of a colour above its least one: the full chroma, the part of it
/// that the hue leaves, and nothing, in the order that the sixth of the hue gives.
#[verifier::opaque]
pub open spec fn above_least(h: (int, int), chroma: (int, int)) -> ((int, int), (int, int), (
    int,
    int,
)) {
    let h6 = product(h, number(6, 0, 24), 24);
    let x = product(chroma, tent(rest_of_twos(h6)), 24);
    let none = (0int, 0int);
    let sixth = whole(h6) % 6;
    if sixth == 0 {
        (chroma, x, none)
    } else if sixth == 1 {
        (x, chroma, none)
    } else if sixth == 2 {
        (none, chroma, x)
    } else if sixth == 3 {
        (none, x, chroma)
    } else if sixth == 4 {
        (x, none, chroma)
    } else {
        (chroma, none, x)
    }
}

/// A channel from its part above the least one.
#[verifier::opaque]
pub open spec fn channel(above: (int, int), least: (int, int)) -> int {
    byte_of(product(sum(above, least, 24), number(255, 0, 24), 24))
}

/// The chroma of a saturation and a lightness.
#[verifier::opaque]
pub open spec fn chroma_of(s: (int, int), l: (int, int)) -> (int, int) {
    product(tent(doubled(l)), s, 24)
}

/// The colour of a hue, a saturation and a lightness.
pub open spec fn toned(h: (int, int), s: (int, int), l: (int, int)) -> Seq<u8> {
    let chroma = chroma_of(s, l);
    let low = difference(l, halved(chroma), 24);
    let (r, g, b) = above_least(h, chroma);
    seq![channel(r, low) as u8, channel(g, low) as u8, channel(b, low) as u8]
}

/// A colour of the same hue whose saturation is capped and whose lightness is
/// held to its range.
pub open spec fn tamed(c: Seq<u8>) -> Seq<u8> {
    toned(hue(c), capped(saturation(c)), held(lightness(c)))
}

/// A number is at most `c` parts of 65536.
pub open spec fn at_most(x: (int, int), c: int) -> bool {
    x.0 != 0 ==> x.0 <= c * two(-16 - x.1)
}

/// A number is at least `c` parts of 65536.
pub open spec fn at_least(x: (int, int), c: int) -> bool {
    x.0 != 0 && x.0 >= c * two(-16 - x.1)
}

proof fn lemma_255()
    ensures
        number(255, 0, 24).1 == -16,
        number(255, 0, 24).0 == 255 * two(16),
        is_number(number(255, 0, 24), 24),
        number(255, 0, 24).0 > 0,
{
    reveal_with_fuel(bits, 9);
    lemma_two_values();
    lemma_small_integer(255, 24);
}

/// A channel as a part of 255 is between `257 c` and `257 c + 1` parts of 65536.
proof fn lemma_part(c: int)
    requires
        0 <= c <= 255,
    ensures
        ranges(part(c), 24, -33, -21),
        part(c).0 >= 0,
        c == 0 ==> part(c) == (0int, 0int),
        c > 0 ==> part(c).0 > 0 && at_least(part(c), 257 * c) && at_most(part(c), 257 * c + 1),
{
    lemma_two_values();
    lemma_255();
    let (a, b) = (number(c, 0, 24), number(255, 0, 24));
    if c > 0 {
        lemma_small_integer(c, 24);
        lemma_bits_at_most(c, 8);
        lemma_quotient_ranges(a, b, 24);
        lemma_quotient(a, b, 24);
        let q = part(c);
        let t = q.1 - a.1 + b.1;
        lemma_two_adds(-a.1, -t);
        lemma_two_adds(16, -16 - q.1);
        lemma_two_adds(16, -q.1);
        let (v, w, k) = (two(-a.1 - t), two(-16 - q.1), two(16));
        lemma_two(-16 - q.1);
        assert(-a.1 - t == -q.1 + 16);
        assert(a.0 * two(-t) == c * v) by (nonlinear_arith)
            requires
                a.0 == c * two(-a.1),
                v == two(-a.1) * two(-t),
        ;
        // v is 65536 * 65536 times w, b.0 is 255 * 65536.
        assert(v == k * (k * w));
        lemma_two_grows(5, -16 - q.1);
        assert(q.0 >= (257 * c) * w && q.0 <= (257 * c + 1) * w) by (nonlinear_arith)
            requires
                -b.0 <= 2 * (q.0 * b.0 - c * v) <= b.0,
                b.0 == 255 * k,
                v == k * (k * w),
                k == 65536,
                w >= 1,
                0 < c <= 255,
        ;
    }
}

/// `x` lies between `lo` and `hi` parts of 65536.
spec fn lies(x: (int, int), lo: int, hi: int) -> bool {
    &&& ranges(x, 24, -100, -18)
    &&& x.0 > 0
    &&& at_least(x, lo)
    &&& at_most(x, hi)
}

proof fn lemma_units_between(x: (int, int), lo: int, hi: int, e: int)
    requires
        lies(x, lo, hi),
        e <= x.1,
    ensures
        lo * two(-16 - e) <= units(x, e) <= hi * two(-16 - e),
        units(x, e) > 0,
{
    lemma_two_adds(-16 - x.1, x.1 - e);
    let (t, w) = (two(x.1 - e), two(-16 - x.1));
    assert(lo * (w * t) <= x.0 * t <= hi * (w * t) && x.0 * t > 0) by (nonlinear_arith)
        requires
            lo * w <= x.0 <= hi * w,
            t >= 1,
            x.0 > 0,
    ;
}

proof fn lemma_sum_lies(x: (int, int), y: (int, int), a: int, b: int, c: int, d: int)
    requires
        lies(x, a, b),
        lies(y, c, d),
    ensures
        sum(x, y, 24).0 > 0,
        at_least(sum(x, y, 24), a + c),
        at_most(sum(x, y, 24), b + d),
        ranges(sum(x, y, 24), 24, -124, -16),
{
    let e = finer(x, y);
    lemma_units_between(x, a, b, e);
    lemma_units_between(y, c, d, e);
    lemma_sum_ranges(x, y, 24);
    let n = units(x, e) + units(y, e);
    let w = two(-16 - e);
    assert((a + c) * w == a * w + c * w && (b + d) * w == b * w + d * w) by (nonlinear_arith);
    lemma_number_sign(n, e, 24);
    assert(sum(x, y, 24) == number(n, e, 24));
    lemma_number_at_least(n, e, 24, a + c, -16);
    lemma_number_at_most(n, e, 24, b + d, -16);
}

/// A difference is at most as great as that of the bounds, and of its sign where they
/// lie apart.
proof fn lemma_difference_lies(
    x: (int, int),
    y: (int, int),
    a: int,
    b: int,
    c: int,
    d: int,
    most: int,
)
    requires
        lies(x, a, b),
        lies(y, c, d),
        b - c <= most,
        d - a <= most,
    ensures
        at_most(absolute(difference(x, y, 24)), most),
        ranges(difference(x, y, 24), 24, -124, -16),
        a > d ==> difference(x, y, 24).0 > 0 && at_least(difference(x, y, 24), a - d),
{
    let z = negative(y);
    let e = finer(x, z);
    lemma_units_between(x, a, b, e);
    lemma_units_between(y, c, d, e);
    lemma_sum_ranges(x, z, 24);
    let (ux, uy) = (units(x, e), units(y, e));
    assert(units(z, e) == -uy) by (nonlinear_arith)
        requires
            units(z, e) == (-y.0) * two(y.1 - e),
            uy == y.0 * two(y.1 - e),
    ;
    let n = ux - uy;
    let w = two(-16 - e);
    lemma_two(-16 - e);
    assert(-(most * w) <= n <= most * w && (a > d ==> n >= (a - d) * w)) by (nonlinear_arith)
        requires
            n == ux - uy,
            a * w <= ux <= b * w,
            c * w <= uy <= d * w,
            b - c <= most,
            d - a <= most,
            w >= 1,
    ;
    assert(difference(x, y, 24) == number(n, e, 24));
    lemma_number_sign(n, e, 24);
    let m = magnitude(n);
    if n != 0 {
        lemma_number_sign(m, e, 24);
        assert(number(m, e, 24).1 == number(n, e, 24).1);
        lemma_number_at_most(m, e, 24, most, -16);
    }
    if a > d {
        assert(n > 0) by (nonlinear_arith)
            requires
                n >= (a - d) * w,
                a > d,
                w >= 1,
        ;
        lemma_number_at_least(n, e, 24, a - d, -16);
    }
}

proof fn lemma_one_lies()
    ensures
        lies(single_one(), 65536, 65536),
{
    lemma_two_values();
    lemma_two(5);
    lemma_two(6);
    lemma_two(7);
}

/// The tent over a number that is neither close to zero nor to two is positive.
proof fn lemma_tent(w: (int, int), lo: int, hi: int)
    requires
        lies(w, lo, hi),
        1 <= lo,
        hi <= 131071,
    ensures
        ranges(tent(w), 24, -300, -10),
        tent(w).0 > 0,
        ranges(difference(w, single_one(), 24), 24, -124, -16),
{
    lemma_two_values();
    lemma_one_lies();
    let one = single_one();
    let y = difference(w, one, 24);
    lemma_difference_lies(w, one, lo, hi, 65536, 65536, 65535);
    let z = absolute(y);
    lemma_sum_ranges(one, negative(z), 24);
    if z.0 == 0 {
        assert(tent(w) == one);
    } else {
        let v = negative(z);
        let e = finer(one, v);
        lemma_units_between(one, 65536, 65536, e);
        let (uo, uz) = (units(one, e), units(z, e));
        assert(units(v, e) == -uz) by (nonlinear_arith)
            requires
                units(v, e) == (-z.0) * two(z.1 - e),
                uz == z.0 * two(z.1 - e),
        ;
        lemma_two_adds(-16 - z.1, z.1 - e);
        lemma_two(-16 - e);
        let (t, w16) = (two(z.1 - e), two(-16 - z.1));
        assert(uz <= 65535 * (w16 * t)) by (nonlinear_arith)
            requires
                uz == z.0 * t,
                z.0 <= 65535 * w16,
                t >= 1,
        ;
        lemma_number_sign(uo - uz, e, 24);
        assert(tent(w) == number(uo - uz, e, 24));
    }
}

/// The tent over any number has its last place in range.
proof fn lemma_tent_ranges(w: (int, int), lo: int)
    requires
        ranges(w, 24, lo, 30),
        lo <= -25,
    ensures
        ranges(difference(w, single_one(), 24), 24, lo - 24, 32),
        ranges(tent(w), 24, lo - 48, 34),
{
    lemma_two_values();
    let one = single_one();
    lemma_sum_ranges(w, negative(one), 24);
    let y = difference(w, one, 24);
    lemma_sum_ranges(one, negative(absolute(y)), 24);
}

/// What a colour that is not gray is taken apart into.
proof fn lemma_apart(c: Seq<u8>)
    requires
        greatest(c) > least(c),
    ensures
        lies(both_ends(c), 257, 131000),
        tent(both_ends(c)).0 > 0,
        ranges(tent(both_ends(c)), 24, -300, -10),
        ranges(difference(both_ends(c), single_one(), 24), 24, -124, -16),
        span(c).0 > 0,
        ranges(span(c), 24, -124, -16),
        at_least(span(c), 257 * (greatest(c) - least(c)) - 1),
{
    let (hi, lo) = (greatest(c), least(c));
    lemma_part(hi);
    lemma_part(lo);
    let (x, y) = (part(hi), part(lo));
    let k = 257 * hi;
    if lo > 0 {
        lemma_sum_lies(x, y, k, k + 1, 257 * lo, 257 * lo + 1);
        lemma_difference_lies(x, y, k, k + 1, 257 * lo, 257 * lo + 1, 70000);
        let w = both_ends(c);
        lemma_two(-16 - w.1);
        let t = two(-16 - w.1);
        assert(257 * t <= (k + 257 * lo) * t && (k + 1 + (257 * lo + 1)) * t <= 131000 * t)
            by (nonlinear_arith)
            requires
                t >= 1,
                k + 257 * lo >= 257,
                k + 1 + (257 * lo + 1) <= 131000,
        ;
        lemma_sum_ranges(x, y, 24);
    } else {
        let t = two(-16 - x.1);
        lemma_two(-16 - x.1);
        assert(257 * t <= k * t && (k + 1) * t <= 131000 * t && (k - 1) * t <= k * t)
            by (nonlinear_arith)
            requires
                t >= 1,
                257 <= k <= 70000,
        ;
        assert(span(c) == x && both_ends(c) == x);
    }
    lemma_tent(both_ends(c), 257, 131000);
}

/// The difference of two channels, as parts of 255.
proof fn lemma_channel_difference(a: int, b: int, k: int)
    requires
        0 <= a <= 255,
        0 <= b <= 255,
        -k <= a - b <= k,
        1 <= k,
    ensures
        ({
            let d = difference(part(a), part(b), 24);
            &&& ranges(d, 24, -124, -16)
            &&& at_most(absolute(d), 257 * k + 1)
        }),
{
    lemma_part(a);
    lemma_part(b);
    let (x, y) = (part(a), part(b));
    if a > 0 && b > 0 {
        lemma_difference_lies(x, y, 257 * a, 257 * a + 1, 257 * b, 257 * b + 1, 257 * k + 1);
    } else {
        let z = if a > 0 {
            x
        } else {
            y
        };
        let m = if a > 0 {
            a
        } else {
            b
        };
        if m > 0 {
            let t = two(-16 - z.1);
            lemma_two(-16 - z.1);
            assert((257 * m + 1) * t <= (257 * k + 1) * t) by (nonlinear_arith)
                requires
                    m <= k,
                    t >= 1,
            ;
        }
    }
}

/// A quotient is at most two where the bounds of its terms say so.
proof fn lemma_at_most_twice(d: (int, int), s: (int, int), a: int, b: int)
    requires
        ranges(d, 24, -124, -16),
        ranges(s, 24, -124, -16),
        s.0 > 0,
        at_most(absolute(d), a),
        at_least(s, b),
        256 <= b,
        a <= 2 * b,
    ensures
        ranges(quotient(d, s, 24), 24, -200, -6),
        magnitude(quotient(d, s, 24).0) <= 2 * two(-quotient(d, s, 24).1),
{
    lemma_two_values();
    let w = two(-16 - s.1);
    // The divisor is at least 2^-8, which bounds its last place.
    assert(s.1 >= -32) by {
        if s.1 < -32 {
            lemma_two_grows(17, -16 - s.1);
            assert(s.0 >= 256 * 0x2_0000) by (nonlinear_arith)
                requires
                    s.0 >= b * w,
                    b >= 256,
                    w >= 0x2_0000,
            ;
        }
    }
    lemma_quotient_ranges(d, s, 24);
    let q = quotient(d, s, 24);
    if d.0 != 0 {
        let m = absolute(d);
        lemma_quotient(m, s, 24);
        lemma_quotient_ranges(m, s, 24);
        let t = q.1 - d.1 + s.1;
        lemma_two_adds(-16 - d.1, -t);
        lemma_two_adds(-16 - s.1, -q.1);
        let (u, v, x, y) = (two(-16 - d.1), two(-t), two(-q.1), two(-16 - d.1 - t));
        assert(-16 - s.1 - q.1 == -16 - d.1 - t);
        lemma_two(-16 - d.1 - t);
        assert(m.0 * v <= a * y) by (nonlinear_arith)
            requires
                m.0 <= a * u,
                y == u * v,
                v >= 1,
        ;
        assert(s.0 * x >= b * y) by (nonlinear_arith)
            requires
                s.0 >= b * w,
                y == w * x,
                x >= 1,
        ;
        assert(a * y <= 2 * (b * y)) by (nonlinear_arith)
            requires
                a <= 2 * b,
                y >= 1,
        ;
        let r = magnitude(q.0);
        assert(r <= 2 * x) by (nonlinear_arith)
            requires
                2 * (r * s.0 - m.0 * v) <= s.0,
                m.0 * v <= 2 * (s.0 * x),
                s.0 > 0,
        ;
    } else {
        lemma_two(0);
    }
}

/// A colour leans by at most two of its spans.
proof fn lemma_lean(c: Seq<u8>, i: int, j: int)
    requires
        greatest(c) > least(c),
        0 <= i < 3,
        0 <= j < 3,
    ensures
        ranges(difference(part(c[i] as int), part(c[j] as int), 24), 24, -124, -16),
        ranges(lean(c, i, j), 24, -200, -6),
        magnitude(lean(c, i, j).0) <= 2 * two(-lean(c, i, j).1),
{
    reveal(lean);
    lemma_apart(c);
    let k = greatest(c) - least(c);
    lemma_channel_difference(c[i] as int, c[j] as int, k);
    lemma_at_most_twice(
        difference(part(c[i] as int), part(c[j] as int), 24),
        span(c),
        257 * k + 1,
        257 * k - 1,
    );
}

/// A number of sixths is not negative.
proof fn lemma_not_negative(y: (int, int), k: int)
    requires
        ranges(y, 24, -200, -6),
        magnitude(y.0) <= 2 * two(-y.1),
        2 <= k <= 6,
    ensures
        sum(y, number(k, 0, 24), 24).0 >= 0,
        ranges(sum(y, number(k, 0, 24), 24), 24, -240, -4),
        ranges(number(k, 0, 24), 24, -24, -21),
        number(k, 0, 24).0 > 0,
{
    lemma_two_values();
    lemma_small_integer(k, 24);
    lemma_bits_at_most(k, 3);
    let f = number(k, 0, 24);
    lemma_sum_ranges(y, f, 24);
    if y.0 < 0 {
        let e = finer(y, f);
        lemma_two_adds(-y.1, y.1 - e);
        lemma_two_adds(-f.1, f.1 - e);
        let (ty, tf, te) = (two(y.1 - e), two(f.1 - e), two(-e));
        let n = units(y, e) + units(f, e);
        assert(n >= 0) by (nonlinear_arith)
            requires
                n == y.0 * ty + f.0 * tf,
                -y.0 <= 2 * two(-y.1),
                f.0 == k * two(-f.1),
                te == two(-y.1) * ty,
                te == two(-f.1) * tf,
                ty >= 1,
                tf >= 1,
                te >= 1,
                k >= 2,
        ;
        lemma_number_sign(n, e, 24);
    }
}

proof fn lemma_sixths(c: Seq<u8>)
    requires
        greatest(c) > least(c),
    ensures
        sixths(c).0 >= 0,
        ranges(sixths(c), 24, -240, -4),
{
    reveal(sixths);
    lemma_lean(c, 1, 2);
    lemma_lean(c, 2, 0);
    lemma_lean(c, 0, 1);
    lemma_not_negative(lean(c, 1, 2), 6);
    lemma_not_negative(lean(c, 2, 0), 2);
    lemma_not_negative(lean(c, 0, 1), 4);
}

fn part_of(c: u8) -> (r: Float)
    ensures
        r@ == part(c as int),
        ranges(r@, 24, -33, -21),
        r.m >= 0,
{
    proof {
        lemma_part(c as int);
        lemma_255();
    }
    Float::of(c as u64, SINGLE).divided_by(Float::of(255, SINGLE), SINGLE)
}

fn tent_of(w: Float, Ghost(lo): Ghost<int>) -> (r: Float)
    requires
        ranges(w@, 24, lo, 30),
        -500 <= lo <= -25,
    ensures
        r@ == tent(w@),
        ranges(r@, 24, lo - 48, 34),
{
    proof {
        lemma_two_values();
        lemma_tent_ranges(w@, lo);
    }
    let one = Float { m: 0x80_0000, e: -23 };
    let y = w.minus(one, SINGLE);
    let z = Float {
        m: if y.m < 0 {
            -y.m
        } else {
            y.m
        },
        e: y.e,
    };
    one.minus(z, SINGLE)
}

fn lean_of(c: [u8; 3], i: usize, j: usize, all: Float) -> (r: Float)
    requires
        greatest(c@) > least(c@),
        i < 3,
        j < 3,
        all@ == span(c@),
    ensures
        r@ == lean(c@, i as int, j as int),
        ranges(r@, 24, -200, -6),
        magnitude(r.m as int) <= 2 * two(-r.e as int),
{
    proof {
        reveal(lean);
        lemma_apart(c@);
        lemma_lean(c@, i as int, j as int);
    }
    part_of(c[i]).minus(part_of(c[j]), SINGLE).divided_by(all, SINGLE)
}

fn sixths_of(c: [u8; 3], all: Float) -> (r: Float)
    requires
        greatest(c@) > least(c@),
        all@ == span(c@),
    ensures
        r@ == sixths(c@),
        ranges(r@, 24, -240, -4),
        r.m >= 0,
{
    proof {
        reveal(sixths);
    }
    if c[0] >= c[1] && c[0] >= c[2] {
        let y = lean_of(c, 1, 2, all);
        proof {
            lemma_not_negative(y@, 6);
        }
        if y.m < 0 {
            y.plus(Float::of(6, SINGLE), SINGLE)
        } else {
            y
        }
    } else if c[1] >= c[0] && c[1] >= c[2] {
        let y = lean_of(c, 2, 0, all);
        proof {
            lemma_not_negative(y@, 2);
        }
        y.plus(Float::of(2, SINGLE), SINGLE)
    } else {
        let y = lean_of(c, 0, 1, all);
        proof {
            lemma_not_negative(y@, 4);
        }
        y.plus(Float::of(4, SINGLE), SINGLE)
    }
}

/// A colour taken apart: its hue, its saturation and its lightness.
fn take_apart(c: [u8; 3]) -> (r: (Float, Float, Float))
    ensures
        r.0@ == hue(c@),
        r.1@ == saturation(c@),
        r.2@ == lightness(c@),
        ranges(r.0@, 24, -300, -1),
        r.0.m >= 0,
        ranges(r.1@, 24, -200, 300),
        r.1.m >= 0,
        ranges(r.2@, 24, -140, -17),
        r.2.m >= 0,
{
    proof {
        reveal(saturation);
        reveal(lightness);
        lemma_part(greatest(c@));
        lemma_part(least(c@));
        lemma_sum_ranges(part(greatest(c@)), part(least(c@)), 24);
    }
    let m: u8 = if c[0] >= c[1] {
        c[0]
    } else {
        c[1]
    };
    let hi: u8 = if m >= c[2] {
        m
    } else {
        c[2]
    };
    let m: u8 = if c[0] <= c[1] {
        c[0]
    } else {
        c[1]
    };
    let lo: u8 = if m <= c[2] {
        m
    } else {
        c[2]
    };
    let (top, low) = (part_of(hi), part_of(lo));
    let ends = top.plus(low, SINGLE);
    let light = if ends.m == 0 {
        ends
    } else {
        Float { m: ends.m, e: ends.e - 1 }
    };
    if hi == lo {
        let none = Float { m: 0, e: 0 };
        return (none, none, light);
    }
    proof {
        lemma_apart(c@);
        lemma_quotient_ranges(span(c@), tent(both_ends(c@)), 24);
    }
    let all = top.minus(low, SINGLE);
    let x = sixths_of(c, all);
    proof {
        lemma_two_values();
        lemma_small_integer(6, 24);
        lemma_bits_at_most(6, 3);
        lemma_quotient_ranges(sixths(c@), number(6, 0, 24), 24);
    }
    let h = x.divided_by(Float::of(6, SINGLE), SINGLE);
    let s = all.divided_by(tent_of(ends, Ghost(-140)), SINGLE);
    (h, s, light)
}

fn rest_after_twos(a: Float) -> (r: Float)
    requires
        ranges(a@, 24, -400, 30),
        a.m >= 0,
    ensures
        r@ == rest_of_twos(a@),
        r.m != 0 ==> r.e >= a.e - 24,
        ranges(r@, 24, -500, 30),
{
    if a.e >= 1 {
        return Float { m: 0, e: 0 };
    }
    proof {
        lemma_two_values();
        lemma_two(1 - a.e);
        lemma_two_grows(24, 125);
        let (m, t) = (a.m as int, two(1 - a.e));
        assert(0 <= m % t <= m) by (nonlinear_arith)
            requires
                m >= 0,
                t >= 1,
        ;
        if m % t > 0 {
            lemma_two(0);
            lemma_number(m % t, a.e as int, 24, 0, 24);
        }
        if a.e < -100 {
            lemma_two_grows(101, 1 - a.e);
            lemma_two_grows(25, 101);
            lemma_two(24);
            assert(m % t == m) by (nonlinear_arith)
                requires
                    0 <= m < t,
            ;
        }
    }
    let left: i128 = if a.e < -100 {
        a.m as i128
    } else {
        (a.m as u128 % two_to((1 - a.e) as u32)) as i128
    };
    rounded(left, a.e, SINGLE)
}

fn whole_of(a: Float) -> (r: u64)
    requires
        ranges(a@, 24, -400, 10),
        a.m >= 0,
    ensures
        r == whole(a@),
{
    proof {
        lemma_two_values();
    }
    if a.e >= 0 {
        proof {
            lemma_two_grows(a.e as int, 12);
            lemma_two_adds(8, 4);
            let (m, t) = (a.m as int, two(a.e as int));
            assert(0 <= m * t <= 0x100_0000 * 4096) by (nonlinear_arith)
                requires
                    0 <= m <= 0x100_0000,
                    1 <= t <= 4096,
            ;
        }
        (a.m as u128 * two_to(a.e as u32)) as u64
    } else {
        a.whole_part()
    }
}

/// The channels above the least one.
fn raise(h: Float, chroma: Float) -> (r: (Float, Float, Float))
    requires
        ranges(h@, 24, -300, -1),
        h.m >= 0,
        ranges(chroma@, 24, -400, 400),
    ensures
        (r.0@, r.1@, r.2@) == above_least(h@, chroma@),
        ranges(r.0@, 24, -950, 500),
        ranges(r.1@, 24, -950, 500),
        ranges(r.2@, 24, -950, 500),
{
    proof {
        reveal(above_least);
        lemma_two_values();
        lemma_small_integer(6, 24);
        lemma_bits_at_most(6, 3);
        lemma_product_ranges(h@, number(6, 0, 24), 24);
    }
    let h6 = h.times(Float::of(6, SINGLE), SINGLE);
    let slope = tent_of(rest_after_twos(h6), Ghost(-330));
    proof {
        lemma_product_ranges(chroma@, slope@, 24);
    }
    let x = chroma.times(slope, SINGLE);
    let none = Float { m: 0, e: 0 };
    let sixth: u64 = whole_of(h6) % 6;
    if sixth == 0 {
        (chroma, x, none)
    } else if sixth == 1 {
        (x, chroma, none)
    } else if sixth == 2 {
        (none, chroma, x)
    } else if sixth == 3 {
        (none, x, chroma)
    } else if sixth == 4 {
        (x, none, chroma)
    } else {
        (chroma, none, x)
    }
}

fn channel_of(above: Float, low: Float) -> (r: u8)
    requires
        ranges(above@, 24, -950, 500),
        ranges(low@, 24, -950, 500),
    ensures
        r == channel(above@, low@),
{
    proof {
        reveal(channel);
        lemma_255();
        lemma_sum_ranges(above@, low@, 24);
        lemma_product_ranges(sum(above@, low@, 24), number(255, 0, 24), 24);
    }
    above.plus(low, SINGLE).times(Float::of(255, SINGLE), SINGLE).nearest_byte()
}

/// Puts a colour together.
fn put_together(h: Float, s: Float, l: Float) -> (r: [u8; 3])
    requires
        ranges(h@, 24, -300, -1),
        h.m >= 0,
        ranges(s@, 24, -200, 300),
        ranges(l@, 24, -140, -16),
    ensures
        r@ == toned(h@, s@, l@),
{
    let twice = if l.m == 0 {
        l
    } else {
        Float { m: l.m, e: l.e + 1 }
    };
    let room = tent_of(twice, Ghost(-140));
    proof {
        reveal(chroma_of);
        lemma_product_ranges(room@, s@, 24);
    }
    let chroma = room.times(s, SINGLE);
    let half = if chroma.m == 0 {
        chroma
    } else {
        Float { m: chroma.m, e: chroma.e - 1 }
    };
    proof {
        lemma_sum_ranges(l@, negative(half@), 24);
    }
    let low = l.minus(half, SINGLE);
    let (red, green, blue) = raise(h, chroma);
    let r = [channel_of(red, low), channel_of(green, low), channel_of(blue, low)];
    assert(r@ =~= toned(h@, s@, l@));
    r
}

/// Tones a dominant colour down without changing its hue.
pub fn tone_down(c: [u8; 3]) -> (r: [u8; 3])
    ensures
        r@ == tamed(c@),
{
    let (h, s, l) = take_apart(c);
    let cap = Float { m: TAME_MAX_SATURATION, e: -24 };
    let (dark, bright) = (
        Float { m: TAME_MIN_LIGHTNESS, e: -25 },
        Float { m: TAME_MAX_LIGHTNESS, e: -24 },
    );
    proof {
        lemma_two_values();
    }
    let s = if cap.below(s, SINGLE) {
        cap
    } else {
        s
    };
    let l = if l.below(dark, SINGLE) {
        dark
    } else if bright.below(l, SINGLE) {
        bright
    } else {
        l
    };
    put_together(h, s, l)
}

/// `x` times 255 rounds to `v` where it is close to it.
proof fn lemma_channel_is(x: (int, int), v: int)
    requires
        ranges(x, 24, -140, -17),
        x.0 > 0,
        0 <= v <= 255,
        255 * x.0 <= (16 * v + 7) * two(-4 - x.1),
        255 * x.0 >= (16 * v - 7) * two(-4 - x.1),
    ensures
        channel((0, 0), x) == v,
{
    reveal(channel);
    lemma_two_values();
    lemma_255();
    let b = number(255, 0, 24);
    let r = product(x, b, 24);
    lemma_product_ranges(x, b, 24);
    let n = x.0 * b.0;
    let e = x.1 + b.1;
    lemma_two_adds(-4 - x.1, 16);
    lemma_two_adds(-4 - e, 0);
    let (w, k) = (two(-4 - x.1), two(16));
    assert(-4 - e == -4 - x.1 + 16);
    assert(0 < n <= (16 * v + 7) * two(-4 - e) && n >= (16 * v - 7) * two(-4 - e))
        by (nonlinear_arith)
        requires
            n == x.0 * b.0,
            b.0 == 255 * k,
            255 * x.0 <= (16 * v + 7) * w,
            255 * x.0 >= (16 * v - 7) * w,
            two(-4 - e) == w * k,
            k >= 1,
            x.0 > 0,
    ;
    lemma_number_sign(n, e, 24);
    assert(r == number(n, e, 24));
    lemma_number_at_most(n, e, 24, 16 * v + 7, -4);
    lemma_number_at_least(n, e, 24, 16 * v - 7, -4);
    lemma_two_adds(4, -4 - r.1);
    let (t, u) = (two(-r.1), two(-4 - r.1));
    assert((2 * r.0 + t) / (2 * t) == v) by (nonlinear_arith)
        requires
            (16 * v - 7) * u <= r.0 <= (16 * v + 7) * u,
            t == 16 * u,
            u >= 1,
    ;
    assert(sum((0int, 0int), x, 24) == x);
}

/// The lightness of a gray is its part of 255.
proof fn lemma_gray_lightness(v: u8, c: Seq<u8>)
    requires
        c == seq![v, v, v],
        v > 0,
    ensures
        ({
            let l = lightness(c);
            &&& ranges(l, 24, -130, -19)
            &&& l.0 > 0
            &&& at_least(l, 257 * v)
            &&& at_most(l, 257 * v + 1)
        }),
{
    reveal(lightness);
    lemma_part(v as int);
    let p = part(v as int);
    lemma_sum_lies(p, p, 257 * v, 257 * v + 1, 257 * v, 257 * v + 1);
    lemma_sum_ranges(p, p, 24);
    let w = both_ends(c);
    let l = lightness(c);
    lemma_two(-16 - w.1);
    let (t, u) = (two(-16 - w.1), two(-16 - l.1));
    assert((257 * v) * u <= l.0 <= (257 * v + 1) * u) by (nonlinear_arith)
        requires
            (257 * v + 257 * v) * t <= l.0 <= (257 * v + 1 + (257 * v + 1)) * t,
            u == 2 * t,
    ;
}

/// A gray has no chroma, so its channels follow from its lightness alone.
proof fn lemma_gray(c: Seq<u8>)
    requires
        c.len() == 3,
        greatest(c) == least(c),
    ensures
        tamed(c) == ({
            let v = channel((0, 0), held(lightness(c))) as u8;
            seq![v, v, v]
        }),
{
    reveal(saturation);
    reveal(chroma_of);
    reveal(above_least);
    lemma_two_values();
    let none = (0int, 0int);
    let cap = (TAME_MAX_SATURATION as int, -24int);
    assert(capped(none) == none) by {
        lemma_two(24);
        lemma_two(0);
        assert(finer(cap, none) == -24);
        assert(units(none, -24) == 0 * two(24));
        assert(units(cap, -24) == TAME_MAX_SATURATION * two(0));
    }
    reveal(lightness);
    lemma_part(greatest(c));
    lemma_sum_ranges(part(greatest(c)), part(least(c)), 24);
    let l = held(lightness(c));
    assert(l.0 == 0 ==> l == none);
    let room = tent(doubled(l));
    assert(room.0 * 0 == 0);
    assert(chroma_of(none, l) == none);
    assert(difference(l, none, 24) == l);
    let h6 = product(none, number(6, 0, 24), 24);
    assert(0 * number(6, 0, 24).0 == 0);
    assert(h6 == none);
    assert(whole(none) == 0) by {
        assert(0 * two(0) == 0);
    }
    let x = product(none, tent(rest_of_twos(h6)), 24);
    assert(0 * tent(rest_of_twos(h6)).0 == 0);
    assert(x == none);
}

/// A gray stays as it is unless it is almost black or almost white: those become
/// the darkest and the brightest gray that is allowed.
pub proof fn law_grays_move_only_at_the_ends(v: u8, c: Seq<u8>)
    requires
        c == seq![v, v, v],
    ensures
        72 <= v <= 198 ==> tamed(c) == c,
        v < 72 ==> tamed(c) == seq![71u8, 71u8, 71u8],
        v > 198 ==> tamed(c) == seq![199u8, 199u8, 199u8],
{
    lemma_two_values();
    lemma_gray(c);
    let l = lightness(c);
    let (dark, bright) = (
        (TAME_MIN_LIGHTNESS as int, -25int),
        (TAME_MAX_LIGHTNESS as int, -24int),
    );
    if v == 0 {
        reveal(lightness);
        lemma_part(0);
        assert(l == (0int, 0int));
        lemma_two(25);
        lemma_two(0);
        assert(units(l, -25) == 0 * two(25));
        assert(units(dark, -25) == TAME_MIN_LIGHTNESS * two(0));
        assert(less(l, dark));
    } else {
        lemma_gray_lightness(v, c);
        lemma_against(l, 257 * v, 257 * v + 1, dark);
        lemma_against(l, 257 * v, 257 * v + 1, bright);
    }
    lemma_two_21();
    if held(l) == dark {
        lemma_channel_is(dark, 71);
    } else if held(l) == bright {
        lemma_channel_is(bright, 199);
    } else {
        lemma_two_adds(12, -16 - l.1);
        let (t, u) = (two(-16 - l.1), two(-4 - l.1));
        lemma_two(-16 - l.1);
        assert(255 * l.0 <= (16 * v + 7) * u && 255 * l.0 >= (16 * v - 7) * u) by (nonlinear_arith)
            requires
                (257 * v) * t <= l.0 <= (257 * v + 1) * t,
                u == 4096 * t,
                t >= 1,
                0 <= v <= 255,
        ;
        lemma_channel_is(l, v as int);
    }
}

proof fn lemma_two_21()
    ensures
        two(21) == 0x20_0000,
        two(20) == 0x10_0000,
        two(12) == 4096,
        two(9) == 512,
{
    lemma_two_values();
    lemma_two(8);
    lemma_two_adds(8, 4);
    lemma_two_adds(16, 4);
    lemma_two(20);
}

/// Compares a lightness with one of the ends of its range.
proof fn lemma_against(l: (int, int), lo: int, hi: int, end: (int, int))
    requires
        ranges(l, 24, -130, -17),
        l.0 > 0,
        at_least(l, lo),
        at_most(l, hi),
        0 <= lo <= hi,
        end == (TAME_MIN_LIGHTNESS as int, -25int) || end == (TAME_MAX_LIGHTNESS as int, -24int),
    ensures
        end.1 == -25 && hi <= 18350 ==> less(l, end),
        end.1 == -25 && lo >= 18351 ==> !less(l, end),
        end.1 == -24 && hi <= 51118 ==> !less(end, l),
        end.1 == -24 && lo >= 51119 ==> less(end, l),
{
    lemma_two_values();
    lemma_two_21();
    let e = finer(l, end);
    lemma_two_adds(-16 - l.1, l.1 - e);
    lemma_two_adds(-16 - end.1, end.1 - e);
    let (tl, te, w) = (two(l.1 - e), two(end.1 - e), two(-16 - e));
    let (ul, ue) = (units(l, e), units(end, e));
    assert(lo * w <= ul <= hi * w) by (nonlinear_arith)
        requires
            ul == l.0 * tl,
            lo * two(-16 - l.1) <= l.0 <= hi * two(-16 - l.1),
            w == two(-16 - l.1) * tl,
            tl >= 1,
    ;
    assert(lo * w <= ul <= hi * w);
    if end.1 == -25 {
        assert(18350 * w < ue < 18351 * w) by (nonlinear_arith)
            requires
                ue == 9_395_241 * te,
                w == 512 * te,
                te >= 1,
        ;
    } else {
        assert(51118 * w < ue < 51119 * w) by (nonlinear_arith)
            requires
                ue == 13_086_228 * te,
                w == 256 * te,
                te >= 1,
        ;
    }
    assert((hi <= 18350 ==> hi * w <= 18350 * w) && (lo >= 18351 ==> lo * w >= 18351 * w) && (hi
        <= 51118 ==> hi * w <= 51118 * w) && (lo >= 51119 ==> lo * w >= 51119 * w))
        by (nonlinear_arith)
        requires
            w >= 1,
    ;
    assert(finer(end, l) == e);
}

/// Too much colour is cut to one measure: two colours of one hue and one lightness
/// that both have more than seventy-two hundredths of it are toned down to the
/// same colour.
pub proof fn law_strong_colours_are_cut(a: [u8; 3], b: [u8; 3], x: [u8; 3], y: [u8; 3])
    requires
        call_ensures(tone_down, (a,), x),
        call_ensures(tone_down, (b,), y),
        hue(a@) == hue(b@),
        lightness(a@) == lightness(b@),
        less((12_079_596, -24), saturation(a@)),
        less((12_079_596, -24), saturation(b@)),
    ensures
        x@ == y@,
{
}

/// Dark colours are raised to one lightness and bright ones lowered to one: two
/// colours of one hue and one saturation that both lie beyond the same end are
/// toned down to the same colour.
pub proof fn law_extreme_colours_are_held(a: [u8; 3], b: [u8; 3], x: [u8; 3], y: [u8; 3])
    requires
        call_ensures(tone_down, (a,), x),
        call_ensures(tone_down, (b,), y),
        hue(a@) == hue(b@),
        saturation(a@) == saturation(b@),
        ({
            ||| less(lightness(a@), (9_395_241, -25)) && less(lightness(b@), (9_395_241, -25))
            ||| less((13_086_228, -24), lightness(a@)) && less((13_086_228, -24), lightness(b@))
                && !less(lightness(a@), (9_395_241, -25)) && !less(
                lightness(b@),
                (9_395_241, -25),
            )
        }),
    ensures
        x@ == y@,
{
}

} // verus!
