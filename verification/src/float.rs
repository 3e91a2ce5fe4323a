//! Binary floating-point arithmetic: every result is the nearest number of 24
//! significant bits (single precision) or of 53 (double precision), and halfway
//! between two numbers the one with an even last bit.
//!
//! A number is `m * 2^e`, written as the pair `(m, e)`. Exponents have no limit
//! here: nothing that is computed with them overflows, and what is too small for
//! an exponent of its format is too small to be seen in a result.

use vstd::arithmetic::power2::pow2;
#[allow(unused_imports)]
use vstd::arithmetic::power2::{
    lemma2_to64, lemma2_to64_rest, lemma_pow2_adds, lemma_pow2_pos, lemma_pow2_strictly_increases,
    lemma_pow2_unfold,
};
use vstd::prelude::*;

verus! {

/// Significant bits of a number in single precision.
pub const SINGLE: u32 = 24;

/// Significant bits of a number in double precision.
pub const DOUBLE: u32 = 53;

/// Two to the power of `k`.
pub open spec fn two(k: int) -> int {
    pow2(k as nat) as int
}

/// Number of binary digits.
pub open spec fn bits(n: int) -> int
    decreases n,
{
    if n <= 0 {
        0
    } else {
        1 + bits(n / 2)
    }
}

/// The integer nearest to `n / d`, the even one of two.
pub open spec fn nearest_even(n: int, d: int) -> int {
    let (q, r) = (n / d, n % d);
    if 2 * r < d || 2 * r == d && q % 2 == 0 {
        q
    } else {
        q + 1
    }
}

/// `n / d` as a fraction of `2^s`.
pub open spec fn over(n: int, d: int, s: int) -> (int, int) {
    if s >= 0 {
        (n, d * two(s))
    } else {
        (n * two(-s), d)
    }
}

/// The place of the last of `p` binary digits of `n / d`, counted from its first
/// digit.
pub open spec fn last_place(n: int, d: int, p: int) -> int {
    let s = bits(n) - bits(d) - p;
    let (a, b) = over(n, d, s);
    if a >= b * two(p) {
        s + 1
    } else {
        s
    }
}

/// The number of `p` significant bits nearest to `n / d`.
pub open spec fn nearest(n: int, d: int, p: int) -> (int, int) {
    if n == 0 {
        (0, 0)
    } else {
        let s = last_place(n, d, p);
        (nearest_even(over(n, d, s).0, over(n, d, s).1), s)
    }
}

pub open spec fn magnitude(n: int) -> int {
    if n < 0 {
        -n
    } else {
        n
    }
}

/// `x` with the sign of `n`, and `e` places further up.
pub open spec fn placed_as(n: int, x: (int, int), e: int) -> (int, int) {
    if n == 0 {
        (0, 0)
    } else if n < 0 {
        (-x.0, x.1 + e)
    } else {
        (x.0, x.1 + e)
    }
}

/// The number nearest to `n * 2^e`.
pub open spec fn number(n: int, e: int, p: int) -> (int, int) {
    placed_as(n, nearest(magnitude(n), 1, p), e)
}

pub open spec fn product(a: (int, int), b: (int, int), p: int) -> (int, int) {
    number(a.0 * b.0, a.1 + b.1, p)
}

pub open spec fn quotient(a: (int, int), b: (int, int), p: int) -> (int, int) {
    placed_as(a.0, nearest(magnitude(a.0), b.0, p), a.1 - b.1)
}

/// `a` in units of `2^e`, which is not above its own unit.
pub open spec fn units(a: (int, int), e: int) -> int {
    a.0 * two(a.1 - e)
}

/// The finer of two units.
pub open spec fn finer(a: (int, int), b: (int, int)) -> int {
    if a.1 <= b.1 {
        a.1
    } else {
        b.1
    }
}

pub open spec fn sum(a: (int, int), b: (int, int), p: int) -> (int, int) {
    if a.0 == 0 {
        b
    } else if b.0 == 0 {
        a
    } else {
        let e = finer(a, b);
        number(units(a, e) + units(b, e), e, p)
    }
}

pub open spec fn negative(a: (int, int)) -> (int, int) {
    (-a.0, a.1)
}

pub open spec fn difference(a: (int, int), b: (int, int), p: int) -> (int, int) {
    sum(a, negative(b), p)
}

pub open spec fn less(a: (int, int), b: (int, int)) -> bool {
    units(a, finer(a, b)) < units(b, finer(a, b))
}

/// The integer nearest to a number that is not negative, the greater of two.
pub open spec fn to_nearest(a: (int, int)) -> int {
    if a.1 >= 0 {
        units(a, 0)
    } else {
        (2 * a.0 + two(-a.1)) / (2 * two(-a.1))
    }
}

/// The integer nearest to a number, held to a byte.
pub open spec fn byte_of(a: (int, int)) -> int {
    if a.0 < 0 {
        0
    } else if to_nearest(a) > 255 {
        255
    } else {
        to_nearest(a)
    }
}

/// The whole part of a number that is not negative.
pub open spec fn whole(a: (int, int)) -> int {
    if a.1 >= 0 {
        units(a, 0)
    } else {
        a.0 / two(-a.1)
    }
}

/// A number.
#[derive(Debug, Clone, Copy, PartialEq, Eq)]
pub struct Float {
    pub m: i64,
    pub e: i32,
}

impl View for Float {
    type V = (int, int);

    open spec fn view(&self) -> (int, int) {
        (self.m as int, self.e as int)
    }
}

/// `x` has `p` significant bits, or it is zero.
pub open spec fn is_number(x: (int, int), p: int) -> bool {
    x == (0int, 0int) || two(p - 1) <= magnitude(x.0) <= two(p)
}

/// `x` is a number of `p` bits whose last place is between the given ones, or
/// zero.
pub open spec fn ranges(x: (int, int), p: int, lo: int, hi: int) -> bool {
    &&& is_number(x, p)
    &&& x.0 != 0 ==> lo <= x.1 <= hi
}

pub proof fn lemma_two(k: int)
    requires
        k >= 0,
    ensures
        two(k) >= 1,
        two(k + 1) == 2 * two(k),
        two(0) == 1,
{
    lemma_pow2_pos(k as nat);
    lemma_pow2_unfold((k + 1) as nat);
    lemma2_to64();
}

pub proof fn lemma_two_adds(j: int, k: int)
    requires
        j >= 0,
        k >= 0,
    ensures
        two(j + k) == two(j) * two(k),
        two(j) >= 1,
        two(k) >= 1,
{
    lemma_pow2_adds(j as nat, k as nat);
    lemma_pow2_pos(j as nat);
    lemma_pow2_pos(k as nat);
}

pub proof fn lemma_two_grows(j: int, k: int)
    requires
        0 <= j <= k,
    ensures
        1 <= two(j) <= two(k),
{
    lemma_pow2_pos(j as nat);
    if j < k {
        lemma_pow2_strictly_increases(j as nat, k as nat);
    }
}

pub proof fn lemma_two_values()
    ensures
        two(0) == 1,
        two(8) == 256,
        two(15) == 0x8000,
        two(16) == 0x1_0000,
        two(17) == 0x2_0000,
        two(23) == 0x80_0000,
        two(24) == 0x100_0000,
        two(52) == 0x10_0000_0000_0000,
        two(5) == 32,
        two(32) == 0x1_0000_0000,
        two(43) == 0x800_0000_0000,
        two(44) == 0x1000_0000_0000,
        two(46) == 0x4000_0000_0000,
        two(2) == 4,
        two(3) == 8,
        two(4) == 16,
        two(50) == 0x4_0000_0000_0000,
        two(51) == 0x8_0000_0000_0000,
        two(53) == 0x20_0000_0000_0000,
        two(54) == 0x40_0000_0000_0000,
        two(55) == 0x80_0000_0000_0000,
        two(64) == 0x1_0000_0000_0000_0000,
        two(127) == 0x8000_0000_0000_0000_0000_0000_0000_0000,
{
    lemma2_to64();
    lemma2_to64_rest();
    lemma_pow2_adds(64, 63);
}

proof fn lemma_bits(n: int)
    requires
        n > 0,
    ensures
        bits(n) >= 1,
        two(bits(n) - 1) <= n < two(bits(n)),
    decreases n,
{
    if n >= 2 {
        lemma_bits(n / 2);
        lemma_two(bits(n) - 1);
        lemma_two(bits(n) - 2);
    } else {
        assert(bits(0) == 0);
        lemma_two(0);
    }
}

proof fn lemma_sixteen_bits(n: int)
    requires
        n >= 0x1_0000,
    ensures
        bits(n) == 16 + bits(n / 0x1_0000),
        bits(n / 0x1_0000) >= 1,
{
    reveal_with_fuel(bits, 17);
    lemma_bits(n / 0x1_0000);
}

fn count_bits(n: u128) -> (r: u32)
    requires
        0 < n < 0x8000_0000_0000_0000_0000_0000_0000_0000,
    ensures
        r == bits(n as int),
        1 <= r <= 127,
        two(r - 1) <= n < two(r as int),
{
    let mut left: u128 = n;
    let mut r: u32 = 0;
    proof {
        lemma_bits(n as int);
        lemma_two_values();
        if bits(n as int) > 127 {
            lemma_two_grows(127, bits(n as int) - 1);
        }
    }
    while left >= 0x1_0000
        invariant
            r + bits(left as int) == bits(n as int) <= 127,
            bits(left as int) >= 0,
        decreases left,
    {
        proof {
            lemma_sixteen_bits(left as int);
        }
        left = left / 0x1_0000;
        r = r + 16;
    }
    while left > 0
        invariant
            r + bits(left as int) == bits(n as int) <= 127,
            bits(left as int) >= 0,
        decreases left,
    {
        proof {
            if left / 2 > 0 {
                lemma_bits((left / 2) as int);
            }
        }
        left = left / 2;
        r = r + 1;
    }
    r
}

pub fn two_to(k: u32) -> (r: u128)
    requires
        k <= 127,
    ensures
        r == two(k as int),
{
    proof {
        lemma_two_values();
    }
    if k < 64 {
        small_two_to(k) as u128
    } else {
        proof {
            lemma_two_adds(64, k - 64);
            lemma_two_grows(k as int, 127);
        }
        0x1_0000_0000_0000_0000u128 * small_two_to(k - 64) as u128
    }
}

fn small_two_to(k: u32) -> (r: u64)
    requires
        k < 64,
    ensures
        r == two(k as int),
{
    proof {
        vstd::bits::lemma_u64_pow2_no_overflow(k as nat);
        vstd::bits::lemma_u64_shl_is_mul(1, k as u64);
    }
    1u64 << k as u64
}

/// Counted from the first digits of `n` and `d`, the place is right or one too low.
proof fn lemma_first_guess(n: int, d: int, p: int)
    requires
        n > 0,
        d > 0,
        p >= 1,
    ensures
        ({
            let (a, b) = over(n, d, bits(n) - bits(d) - p);
            &&& b > 0
            &&& b * two(p - 1) <= a < b * two(p + 1)
        }),
{
    let (bn, bd) = (bits(n), bits(d));
    let s = bn - bd - p;
    let (a, b) = over(n, d, s);
    lemma_bits(n);
    lemma_bits(d);
    lemma_two(p - 1);
    lemma_two(p);
    if s >= 0 {
        lemma_two_adds(s, p - 1);
        lemma_two_adds(s, p + 1);
        lemma_two_adds(bd, s + p - 1);
        lemma_two_adds(bd - 1, s + p + 1);
        lemma_two(s);
        assert(b * two(p - 1) == d * two(s + p - 1)) by (nonlinear_arith)
            requires
                b == d * two(s),
                two(s + p - 1) == two(s) * two(p - 1),
        ;
        assert(b * two(p + 1) == d * two(s + p + 1)) by (nonlinear_arith)
            requires
                b == d * two(s),
                two(s + p + 1) == two(s) * two(p + 1),
        ;
        assert(d * two(s + p - 1) <= two(bd) * two(s + p - 1)) by (nonlinear_arith)
            requires
                d <= two(bd),
                two(s + p - 1) >= 1,
        ;
        assert(d * two(s + p + 1) >= two(bd - 1) * two(s + p + 1)) by (nonlinear_arith)
            requires
                d >= two(bd - 1),
                two(s + p + 1) >= 1,
        ;
        assert(b > 0) by (nonlinear_arith)
            requires
                b == d * two(s),
                d > 0,
                two(s) >= 1,
        ;
    } else {
        lemma_two_adds(bn - 1, -s);
        lemma_two_adds(bn, -s);
        lemma_two_adds(bd, p - 1);
        lemma_two_adds(bd - 1, p + 1);
        assert(n * two(-s) >= two(bn - 1) * two(-s)) by (nonlinear_arith)
            requires
                n >= two(bn - 1),
                two(-s) >= 1,
        ;
        assert(n * two(-s) < two(bn) * two(-s)) by (nonlinear_arith)
            requires
                n < two(bn),
                two(-s) >= 1,
        ;
        assert(d * two(p - 1) <= two(bd) * two(p - 1)) by (nonlinear_arith)
            requires
                d <= two(bd),
                two(p - 1) >= 1,
        ;
        assert(d * two(p + 1) >= two(bd - 1) * two(p + 1)) by (nonlinear_arith)
            requires
                d >= two(bd - 1),
                two(p + 1) >= 1,
        ;
    }
}

/// The digits of `n / d` down to the last place make a number of `p` digits.
proof fn lemma_last_place(n: int, d: int, p: int)
    requires
        n > 0,
        d > 0,
        p >= 1,
    ensures
        ({
            let s = last_place(n, d, p);
            let (a, b) = over(n, d, s);
            &&& b > 0
            &&& b * two(p - 1) <= a < b * two(p)
            &&& bits(n) - bits(d) - p <= s <= bits(n) - bits(d) - p + 1
        }),
{
    let s = bits(n) - bits(d) - p;
    let (a, b) = over(n, d, s);
    lemma_first_guess(n, d, p);
    lemma_two(p - 1);
    lemma_two(p);
    if a >= b * two(p) {
        let (c, f) = over(n, d, s + 1);
        let (t, u, v) = (two(p - 1), two(p), two(p + 1));
        if s >= 0 {
            lemma_two(s);
            assert(f == 2 * b) by (nonlinear_arith)
                requires
                    b == d * two(s),
                    f == d * two(s + 1),
                    two(s + 1) == 2 * two(s),
            ;
        } else {
            lemma_two(-s - 1);
            if s == -1 {
                assert(f == d && n * two(0) == n) by (nonlinear_arith)
                    requires
                        f == d * two(0),
                        two(0) == 1,
                ;
            }
            assert(a == 2 * c) by (nonlinear_arith)
                requires
                    a == n * two(-s),
                    c == n * two(-s - 1),
                    two(-s) == 2 * two(-s - 1),
            ;
        }
        assert(f * t <= c < f * u) by (nonlinear_arith)
            requires
                b * u <= a < b * v,
                u == 2 * t,
                v == 2 * u,
                (f == 2 * b && c == a) || (f == b && a == 2 * c),
        ;
    }
}

/// The nearest integer is at most half a unit away, and does not leave what the
/// fraction lies between.
proof fn lemma_nearest_even(a: int, b: int, lo: int, hi: int)
    requires
        b > 0,
        b * lo <= a <= b * hi,
    ensures
        lo <= nearest_even(a, b) <= hi,
        -b <= 2 * (nearest_even(a, b) * b - a) <= b,
{
    let (q, r) = (a / b, a % b);
    assert(a == b * q + r && 0 <= r < b) by (nonlinear_arith)
        requires
            b > 0,
            q == a / b,
            r == a % b,
    ;
    assert(lo <= q) by (nonlinear_arith)
        requires
            b * lo <= b * q + r,
            r < b,
            b > 0,
    ;
    assert(r > 0 ==> q + 1 <= hi) by (nonlinear_arith)
        requires
            b * q + r <= b * hi,
            b > 0,
    ;
    assert(q <= hi) by (nonlinear_arith)
        requires
            b * q + r <= b * hi,
            b > 0,
            r >= 0,
    ;
    let m = nearest_even(a, b);
    assert(m * b - a == if m == q { -r } else { b - r }) by (nonlinear_arith)
        requires
            a == b * q + r,
            m == q || m == q + 1,
    ;
}

fn round_even(a: u128, b: u128) -> (r: u128)
    requires
        0 < b < 0x8000_0000_0000_0000_0000_0000_0000_0000,
        a < 0x8000_0000_0000_0000_0000_0000_0000_0000,
    ensures
        r == nearest_even(a as int, b as int),
{
    let q: u128 = a / b;
    let rest: u128 = a % b;
    proof {
        assert(q <= a) by (nonlinear_arith)
            requires
                b > 0,
                q == a / b,
        ;
    }
    if 2 * rest < b || 2 * rest == b && q % 2 == 0 {
        q
    } else {
        q + 1
    }
}

/// What is known of the number nearest to `n / d`.
proof fn lemma_nearest(n: int, d: int, p: int)
    requires
        n > 0,
        d > 0,
        p >= 1,
    ensures
        ({
            let r = nearest(n, d, p);
            let (a, b) = over(n, d, r.1);
            &&& two(p - 1) <= r.0 <= two(p)
            &&& bits(n) - bits(d) - p <= r.1 <= bits(n) - bits(d) - p + 1
            &&& b > 0
            &&& b * two(p - 1) <= a < b * two(p)
            &&& -b <= 2 * (r.0 * b - a) <= b
        }),
{
    lemma_last_place(n, d, p);
    let (a, b) = over(n, d, last_place(n, d, p));
    lemma_nearest_even(a, b, two(p - 1), two(p));
}

proof fn lemma_place_fits(n: int, d: int, p: int, s: int)
    requires
        1 <= p <= 53,
        0 < n < two(126),
        0 < d <= two(53),
        bits(n) - bits(d) - p <= s <= bits(n) - bits(d) - p + 1,
    ensures
        -127 <= s <= 127,
        over(n, d, s).0 < two(127),
        over(n, d, s).1 < two(127),
        s == bits(n) - bits(d) - p ==> over(n, d, s).1 * two(p) < two(127),
{
    let g = bits(n) - bits(d) - p;
    let (a, b) = over(n, d, g);
    lemma_bits(n);
    lemma_bits(d);
    lemma_two(126);
    lemma_two(53);
    lemma_two(p - 1);
    lemma_first_guess(n, d, p);
    if bits(n) > 126 {
        lemma_two_grows(126, bits(n) - 1);
    }
    if bits(d) > 54 {
        lemma_two_grows(54, bits(d) - 1);
    }
    lemma_two_grows(54, 126);
    lemma_two_grows(107, 126);
    assert(two(54) == 2 * two(53));
    if g >= 0 {
        assert(b <= a && b * two(p) <= 2 * a) by (nonlinear_arith)
            requires
                b * two(p - 1) <= a,
                two(p) == 2 * two(p - 1),
                two(p - 1) >= 1,
                b > 0,
        ;
        lemma_two(g);
        assert(d * two(g + 1) == 2 * b) by (nonlinear_arith)
            requires
                b == d * two(g),
                two(g + 1) == 2 * two(g),
        ;
    } else {
        lemma_two_adds(bits(n), -g);
        assert(n * two(-g) < two(bits(n)) * two(-g)) by (nonlinear_arith)
            requires
                n < two(bits(n)),
                two(-g) >= 1,
        ;
        lemma_two_grows(bits(d) + p, 107);
        lemma_two_adds(53, 53);
        lemma_two_grows(106, 126);
        lemma_two_grows(p, 53);
        assert(d * two(p) <= two(53) * two(53)) by (nonlinear_arith)
            requires
                0 < d <= two(53),
                0 < two(p) <= two(53),
        ;
        lemma_two(0);
        if g < -1 {
            lemma_two(-g - 1);
            assert(n * two(-g - 1) <= n * two(-g)) by (nonlinear_arith)
                requires
                    n > 0,
                    two(-g) == 2 * two(-g - 1),
                    two(-g - 1) >= 1,
            ;
        } else {
            assert(d * two(0) == d) by (nonlinear_arith)
                requires
                    two(0) == 1,
            ;
        }
    }
}

fn over_place(n: u128, d: u128, s: i32) -> (r: (u128, u128))
    requires
        -127 <= s <= 127,
        over(n as int, d as int, s as int).0 < two(127),
        over(n as int, d as int, s as int).1 < two(127),
        0 < d,
        0 < n,
    ensures
        (r.0 as int, r.1 as int) == over(n as int, d as int, s as int),
{
    proof {
        lemma_two_values();
    }
    if s >= 0 {
        let t: u128 = two_to(s as u32);
        (n, d * t)
    } else {
        let t: u128 = two_to((-s) as u32);
        (n * t, d)
    }
}

fn round_to(n: u128, d: u128, p: u32) -> (r: (u64, i32))
    requires
        1 <= p <= 53,
        0 < n < two(126),
        0 < d <= two(53),
    ensures
        (r.0 as int, r.1 as int) == nearest(n as int, d as int, p as int),
        two(p - 1) <= r.0 <= two(p as int),
        bits(n as int) - bits(d as int) - p <= r.1 <= bits(n as int) - bits(d as int) - p + 1,
{
    proof {
        lemma_two_values();
        lemma_two(126);
    }
    let bn: u32 = count_bits(n);
    let bd: u32 = count_bits(d);
    let mut s: i32 = bn as i32 - bd as i32 - p as i32;
    proof {
        lemma_nearest(n as int, d as int, p as int);
        lemma_first_guess(n as int, d as int, p as int);
        lemma_place_fits(n as int, d as int, p as int, s as int);
        lemma_two_grows(p as int, 53);
        lemma_two_grows(p - 1, p as int);
    }
    let (mut a, mut b): (u128, u128) = over_place(n, d, s);
    if a >= b * two_to(p) {
        s = s + 1;
        proof {
            lemma_place_fits(n as int, d as int, p as int, s as int);
        }
        let next = over_place(n, d, s);
        a = next.0;
        b = next.1;
    }
    (round_even(a, b) as u64, s)
}

proof fn lemma_bits_between(n: int, lo: int, hi: int)
    requires
        0 <= lo,
        0 <= hi,
        two(lo) <= n <= two(hi),
    ensures
        lo + 1 <= bits(n) <= hi + 1,
{
    lemma_two(lo);
    lemma_two(hi);
    lemma_bits(n);
    if bits(n) <= lo {
        lemma_two_grows(bits(n), lo);
    }
    if bits(n) > hi + 1 {
        lemma_two_grows(hi + 1, bits(n) - 1);
    }
}

/// What is known of a number nearest to `n * 2^e`.
pub proof fn lemma_number(n: int, e: int, p: int, lo: int, hi: int)
    requires
        1 <= p,
        0 <= lo,
        0 <= hi,
        two(lo) <= magnitude(n) <= two(hi),
    ensures
        ranges(number(n, e, p), p, e + lo - p, e + hi + 1 - p),
        number(n, e, p).0 < 0 <==> n < 0,
        number(n, e, p).0 > 0 <==> n > 0,
{
    let k = magnitude(n);
    lemma_two(lo);
    lemma_bits_between(k, lo, hi);
    lemma_nearest(k, 1, p);
    lemma_two(p - 1);
    assert(bits(0) == 0);
    assert(bits(1) == 1 + bits(0));
}

proof fn lemma_significand_product(a: int, b: int, p: int)
    requires
        1 <= p,
        two(p - 1) <= magnitude(a) <= two(p),
        two(p - 1) <= magnitude(b) <= two(p),
    ensures
        two(2 * p - 2) <= magnitude(a * b) <= two(2 * p),
        a * b < 0 <==> (a < 0 <==> b > 0),
{
    lemma_two_adds(p - 1, p - 1);
    lemma_two_adds(p, p);
    let (x, y, t, u) = (magnitude(a), magnitude(b), two(p - 1), two(p));
    assert(t * t <= x * y <= u * u) by (nonlinear_arith)
        requires
            1 <= t <= x <= u,
            t <= y <= u,
    ;
    assert(a * b == if (a < 0) == (b < 0) { x * y } else { -(x * y) }) by (nonlinear_arith)
        requires
            x == (if a < 0 { -a } else { a }),
            y == (if b < 0 { -b } else { b }),
    ;
    assert(x * y > 0) by (nonlinear_arith)
        requires
            x >= 1,
            y >= 1,
    ;
}

/// A product of two numbers has its last place where the sum of theirs puts it.
pub proof fn lemma_product_ranges(a: (int, int), b: (int, int), p: int)
    requires
        1 <= p,
        is_number(a, p),
        is_number(b, p),
    ensures
        is_number(product(a, b, p), p),
        a.0 == 0 || b.0 == 0 ==> product(a, b, p) == (0int, 0int),
        a.0 != 0 && b.0 != 0 ==> ranges(
            product(a, b, p),
            p,
            a.1 + b.1 + p - 2,
            a.1 + b.1 + p + 1,
        ),
        a.0 >= 0 && b.0 >= 0 ==> product(a, b, p).0 >= 0,
        a.0 != 0 && b.0 != 0 ==> product(a, b, p).0 != 0,
{
    lemma_two(p - 1);
    if a.0 == 0 || b.0 == 0 {
        assert(a.0 * b.0 == 0) by (nonlinear_arith)
            requires
                a.0 == 0 || b.0 == 0,
        ;
    } else {
        lemma_significand_product(a.0, b.0, p);
        lemma_two(2 * p - 2);
        lemma_number(a.0 * b.0, a.1 + b.1, p, 2 * p - 2, 2 * p);
    }
}

/// A quotient of two numbers has its last place where the difference of theirs
/// puts it.
pub proof fn lemma_quotient_ranges(a: (int, int), b: (int, int), p: int)
    requires
        1 <= p,
        is_number(a, p),
        is_number(b, p),
        b.0 > 0,
    ensures
        is_number(quotient(a, b, p), p),
        a.0 == 0 ==> quotient(a, b, p) == (0int, 0int),
        a.0 != 0 ==> ranges(quotient(a, b, p), p, a.1 - b.1 - p - 1, a.1 - b.1 - p + 2),
        a.0 >= 0 ==> quotient(a, b, p).0 >= 0,
        a.0 != 0 ==> quotient(a, b, p).0 != 0,
{
    lemma_two(p - 1);
    if a.0 != 0 {
        lemma_bits_between(magnitude(a.0), p - 1, p);
        lemma_bits_between(b.0, p - 1, p);
        lemma_nearest(magnitude(a.0), b.0, p);
    }
}

/// A sum of two numbers: at most two places above the greater of them, and no more
/// places below the lesser than a number has.
pub proof fn lemma_sum_ranges(a: (int, int), b: (int, int), p: int)
    requires
        1 <= p,
        is_number(a, p),
        is_number(b, p),
    ensures
        is_number(sum(a, b, p), p),
        a.0 != 0 && b.0 != 0 && sum(a, b, p).0 != 0 ==> {
            let top = if a.1 <= b.1 {
                b.1
            } else {
                a.1
            };
            &&& ranges(sum(a, b, p), p, finer(a, b) - p, top + 2)
            &&& (a.0 > 0 <==> b.0 > 0) ==> sum(a, b, p).1 >= top - 1
        },
        a.0 >= 0 && b.0 >= 0 ==> sum(a, b, p).0 >= 0,
        a.0 != 0 && b.0 != 0 ==> {
            let e = finer(a, b);
            &&& magnitude(units(a, e)) <= two(p + a.1 - e)
            &&& magnitude(units(b, e)) <= two(p + b.1 - e)
            &&& magnitude(units(a, e) + units(b, e)) <= two(p + 1 + a.1 - e + b.1 - e)
        },
{
    lemma_two(p - 1);
    if a.0 != 0 && b.0 != 0 {
        let e = finer(a, b);
        let (x, y) = (a.1 - e, b.1 - e);
        let d = x + y;
        lemma_unit_bounds(a, p, e);
        lemma_unit_bounds(b, p, e);
        lemma_two_grows(p, p + d);
        lemma_two_grows(p - 1, p - 1 + d);
        lemma_two(p + d);
        let n = units(a, e) + units(b, e);
        assert(magnitude(n) <= two(p + 1 + d));
        if n != 0 {
            lemma_two(0);
            lemma_number(n, e, p, 0, p + 1 + d);
            if a.0 > 0 <==> b.0 > 0 {
                lemma_number(n, e, p, p - 1 + d, p + 1 + d);
            }
        }
    }
}

proof fn lemma_unit_bounds(a: (int, int), p: int, e: int)
    requires
        1 <= p,
        is_number(a, p),
        a.0 != 0,
        e <= a.1,
    ensures
        two(p - 1 + a.1 - e) <= magnitude(units(a, e)) <= two(p + a.1 - e),
        units(a, e) > 0 <==> a.0 > 0,
        units(a, e) < 0 <==> a.0 < 0,
{
    let t = two(a.1 - e);
    lemma_two_adds(p - 1, a.1 - e);
    lemma_two_adds(p, a.1 - e);
    let (m, u) = (magnitude(a.0), units(a, e));
    assert(magnitude(u) == m * t && (u > 0 <==> a.0 > 0) && (u < 0 <==> a.0 < 0))
        by (nonlinear_arith)
        requires
            u == a.0 * t,
            m == (if a.0 < 0 { -a.0 } else { a.0 }),
            magnitude(u) == (if u < 0 { -u } else { u }),
            t >= 1,
            a.0 != 0,
    ;
    let (lo, hi) = (two(p - 1), two(p));
    assert(lo * t <= m * t <= hi * t) by (nonlinear_arith)
        requires
            lo <= m <= hi,
            t >= 1,
    ;
}

/// The place of a number with `p + s` digits.
proof fn lemma_place_is(n: int, p: int, s: int)
    requires
        1 <= p,
        1 <= s,
        two(p - 1 + s) <= n < two(p + s),
    ensures
        last_place(n, 1, p) == s,
{
    lemma_two(p - 1 + s);
    lemma_bits(n);
    if bits(n) < p + s {
        lemma_two_grows(bits(n), p - 1 + s);
    }
    if bits(n) > p + s {
        lemma_two_grows(p + s, bits(n) - 1);
    }
    assert(bits(0) == 0);
    assert(bits(1) == 1 + bits(0));
    lemma_two_adds(s - 1, p);
    assert(1 * two(s - 1) == two(s - 1));
}

/// What is far below the last place of a number does not move it.
proof fn lemma_far_sum(b: int, r: int, g: int, p: int)
    requires
        1 <= p,
        two(p - 1) <= b <= two(p),
        r != 0,
        magnitude(r) <= two(p),
        g >= p + 3,
    ensures
        nearest(b * two(g) + r, 1, p) == (if b == two(p) && r > 0 {
            (two(p - 1), g + 1)
        } else if b == two(p - 1) && r < 0 {
            (two(p), g - 1)
        } else {
            (b, g)
        }),
{
    let n = b * two(g) + r;
    lemma_two(p - 1);
    lemma_two(p);
    lemma_two(p + 1);
    lemma_two_grows(p + 2, g - 1);
    lemma_two(g - 1);
    lemma_two(g);
    lemma_two_adds(p - 1, g);
    lemma_two_adds(p, g);
    lemma_two_adds(p - 1, g - 1);
    lemma_two_adds(p, g - 1);
    let (t, h) = (two(g), two(g - 1));
    let (lo, hi) = (two(p - 1), two(p));
    assert(b < hi ==> b * t <= hi * t - t) by (nonlinear_arith)
        requires
            t >= 1,
    ;
    assert(b > lo ==> b * t >= lo * t + t) by (nonlinear_arith)
        requires
            t >= 1,
    ;
    let (m, s): (int, int) = if b == hi && r > 0 {
        (lo, g + 1)
    } else if b == lo && r < 0 {
        (hi, g - 1)
    } else {
        (b, g)
    };
    let u = two(s);
    lemma_two_adds(p - 1, s);
    lemma_two_adds(p, s);
    assert(m * u == b * t) by (nonlinear_arith)
        requires
            hi == 2 * lo,
            (m == lo && b == hi && u == 2 * t) || (m == hi && b == lo && t == 2 * u) || (m == b
                && u == t),
    ;
    lemma_two(p + g);
    lemma_two(p + g - 2);
    lemma_two(p + g - 1);
    assert(lo * t >= t && lo * h >= h) by (nonlinear_arith)
        requires
            lo >= 1,
            t >= 1,
            h >= 1,
    ;
    assert(magnitude(r) <= hi && 4 * hi <= h && t == 2 * h);
    assert(two(p - 1 + s) <= n < two(p + s)) by {
        if b == hi && r > 0 {
            assert(two(p - 1 + s) == hi * t);
        } else if b == lo && r < 0 {
            assert(two(p + s) == lo * t);
            assert(two(p - 1 + s) == lo * h);
            assert(lo * t == 2 * (lo * h)) by (nonlinear_arith)
                requires
                    t == 2 * h,
            ;
        } else {
            assert(two(p - 1 + s) == lo * t && two(p + s) == hi * t);
            assert(hi * t == 2 * (lo * t)) by (nonlinear_arith)
                requires
                    hi == 2 * lo,
            ;
        }
    }
    lemma_place_is(n, p, s);
    assert(1 * u == u);
    assert(nearest_even(n, u) == m) by {
        if r > 0 {
            assert(n / u == m && n % u == r) by (nonlinear_arith)
                requires
                    n == m * u + r,
                    0 <= r < u,
            ;
        } else {
            assert(n / u == m - 1 && n % u == u + r) by (nonlinear_arith)
                requires
                    n == m * u + r,
                    -u <= r < 0,
            ;
        }
    }
}

impl Float {
    /// The number nearest to an integer.
    pub fn of(n: u64, p: u32) -> (r: Float)
        requires
            1 <= p <= 53,
        ensures
            r@ == number(n as int, 0, p as int),
            is_number(r@, p as int),
            r.m >= 0,
            n == 0 <==> r.m == 0,
            -53 <= r.e <= 64,
            0 < n <= 256 ==> -p <= r.e <= 9 - p,
    {
        proof {
            lemma_two_values();
            lemma_two_grows(64, 126);
            lemma_two_grows(p as int, 53);
            lemma_two(p - 1);
            if n > 0 {
                lemma_number(n as int, 0, p as int, 0, 64);
                if n <= 256 {
                    lemma_number(n as int, 0, p as int, 0, 8);
                }
            }
        }
        if n == 0 {
            return Float { m: 0, e: 0 };
        }
        let (m, e) = round_to(n as u128, 1, p);
        Float { m: m as i64, e }
    }

    pub fn times(self, other: Float, p: u32) -> (r: Float)
        requires
            1 <= p <= 53,
            ranges(self@, p as int, -1000, 1000),
            ranges(other@, p as int, -1000, 1000),
        ensures
            r@ == product(self@, other@, p as int),
    {
        proof {
            lemma_two_values();
            lemma_two_grows(p as int, 53);
            lemma_product_ranges(self@, other@, p as int);
        }
        if self.m == 0 || other.m == 0 {
            return Float { m: 0, e: 0 };
        }
        proof {
            lemma_significand_product(self.m as int, other.m as int, p as int);
            lemma_two(2 * p - 2);
            lemma_two_grows(2 * p, 106);
            lemma_two_grows(106, 125);
            lemma_two(125);
            lemma_two(126);
        }
        let product: i128 = self.m as i128 * other.m as i128;
        rounded(product, self.e + other.e, p)
    }

    /// The quotient by a positive number.
    pub fn divided_by(self, other: Float, p: u32) -> (r: Float)
        requires
            1 <= p <= 53,
            ranges(self@, p as int, -1000, 1000),
            ranges(other@, p as int, -1000, 1000),
            other.m > 0,
        ensures
            r@ == quotient(self@, other@, p as int),
    {
        proof {
            lemma_two_values();
            lemma_two_grows(p as int, 53);
            lemma_two_grows(53, 126);
            lemma_two_grows(54, 126);
            lemma_quotient_ranges(self@, other@, p as int);
        }
        if self.m == 0 {
            return Float { m: 0, e: 0 };
        }
        let negative = self.m < 0;
        let top: u128 = if negative {
            (-self.m) as u128
        } else {
            self.m as u128
        };
        let (m, e) = round_to(top, other.m as u128, p);
        let m: i64 = if negative {
            -(m as i64)
        } else {
            m as i64
        };
        Float { m, e: e + self.e - other.e }
    }

    /// The sum of a number and one far below its last place.
    fn next_to(self, other: Float, p: u32) -> (r: Float)
        requires
            1 <= p <= 53,
            ranges(self@, p as int, -1000, 1000),
            ranges(other@, p as int, -1000, 1000),
            self.m != 0,
            other.m != 0,
            self.e > other.e + 70,
        ensures
            r@ == sum(self@, other@, p as int),
            r@ == sum(other@, self@, p as int),
    {
        proof {
            lemma_two_values();
            lemma_two_grows(p as int, 53);
            lemma_two(p - 1);
            lemma_two(0);
            let g = self.e - other.e;
            let t = two(g);
            lemma_two_grows(54, g);
            let (a, b) = (self.m as int, other.m as int);
            assert(b * two(0) == b);
            if a > 0 {
                lemma_far_sum(a, b, g, p as int);
            } else {
                lemma_far_sum(-a, -b, g, p as int);
                assert((-a) * t == -(a * t)) by (nonlinear_arith);
            }
            assert(magnitude(a) * t > magnitude(b)) by (nonlinear_arith)
                requires
                    magnitude(a) >= 1,
                    t > two(53),
                    magnitude(b) <= two(53),
            ;
            assert(a > 0 ==> a * t == magnitude(a) * t);
            assert(a < 0 ==> a * t == -(magnitude(a) * t)) by (nonlinear_arith)
                requires
                    a < 0 ==> magnitude(a) == -a,
            ;
        }
        let top: i64 = two_to(p) as i64;
        let half: i64 = two_to(p - 1) as i64;
        if self.m == top && other.m > 0 {
            Float { m: half, e: self.e + 1 }
        } else if self.m == half && other.m < 0 {
            Float { m: top, e: self.e - 1 }
        } else if self.m == -top && other.m < 0 {
            Float { m: -half, e: self.e + 1 }
        } else if self.m == -half && other.m > 0 {
            Float { m: -top, e: self.e - 1 }
        } else {
            self
        }
    }

    pub fn plus(self, other: Float, p: u32) -> (r: Float)
        requires
            1 <= p <= 53,
            ranges(self@, p as int, -1000, 1000),
            ranges(other@, p as int, -1000, 1000),
        ensures
            r@ == sum(self@, other@, p as int),
    {
        if self.m == 0 {
            return other;
        }
        if other.m == 0 {
            return self;
        }
        if self.e > other.e + 70 {
            return self.next_to(other, p);
        }
        if other.e > self.e + 70 {
            return other.next_to(self, p);
        }
        proof {
            lemma_two_values();
            lemma_two(124);
            lemma_two(125);
            lemma_two(126);
            lemma_sum_ranges(self@, other@, p as int);
        }
        let e: i32 = if self.e <= other.e {
            self.e
        } else {
            other.e
        };
        let x: i128 = in_units(self, e, p);
        let y: i128 = in_units(other, e, p);
        rounded(x + y, e, p)
    }

    pub fn minus(self, other: Float, p: u32) -> (r: Float)
        requires
            1 <= p <= 53,
            ranges(self@, p as int, -1000, 1000),
            ranges(other@, p as int, -1000, 1000),
        ensures
            r@ == difference(self@, other@, p as int),
    {
        proof {
            lemma_two_values();
            lemma_two_grows(p as int, 53);
        }
        self.plus(Float { m: -other.m, e: other.e }, p)
    }
}

fn in_units(a: Float, e: i32, p: u32) -> (r: i128)
    requires
        1 <= p <= 53,
        ranges(a@, p as int, -1000, 1000),
        a.m != 0,
        -1000 <= e <= a.e,
        a.e - e + p <= 124,
    ensures
        r == units(a@, e as int),
        -two(124) <= r <= two(124),
{
    proof {
        lemma_unit_bounds(a@, p as int, e as int);
        lemma_two_grows(p + a.e - e, 124);
        lemma_two_values();
        lemma_two(124);
        lemma_two(125);
        lemma_two(126);
        lemma_two_grows(a.e - e, 124);
    }
    let t: u128 = two_to((a.e - e) as u32);
    a.m as i128 * t as i128
}

/// The number nearest to `n * 2^e`.
pub fn rounded(n: i128, e: i32, p: u32) -> (r: Float)
    requires
        1 <= p <= 53,
        -two(125) <= n <= two(125),
        -10_000 <= e <= 10_000,
    ensures
        r@ == number(n as int, e as int, p as int),
{
    if n == 0 {
        return Float { m: 0, e: 0 };
    }
    proof {
        lemma_two_values();
        lemma_two(125);
        lemma_two(126);
        lemma_two(0);
        lemma_two_grows(p as int, 53);
        lemma_number(n as int, e as int, p as int, 0, 125);
    }
    let negative = n < 0;
    let top: u128 = if negative {
        (-n) as u128
    } else {
        n as u128
    };
    let (m, s) = round_to(top, 1, p);
    let m: i64 = if negative {
        -(m as i64)
    } else {
        m as i64
    };
    Float { m, e: s + e }
}

impl Float {
    /// Compares two numbers that are not negative.
    pub fn below(self, other: Float, p: u32) -> (r: bool)
        requires
            1 <= p <= 53,
            ranges(self@, p as int, -1000, 1000),
            ranges(other@, p as int, -1000, 1000),
            self.m >= 0,
            other.m >= 0,
        ensures
            r == less(self@, other@),
    {
        let ghost (a, b, e) = (self@, other@, finer(self@, other@));
        proof {
            lemma_two_values();
            lemma_two_grows(p as int, 53);
            if a.0 != 0 {
                lemma_unit_bounds(a, p as int, e);
            }
            if b.0 != 0 {
                lemma_unit_bounds(b, p as int, e);
            }
            assert(0 * two(a.1 - e) == 0 && 0 * two(b.1 - e) == 0);
        }
        if self.m == 0 {
            return other.m > 0;
        }
        if other.m == 0 {
            return false;
        }
        if self.e >= other.e + 2 {
            proof {
                lemma_two_grows(p as int, p - 1 + a.1 - e);
            }
            return false;
        }
        if other.e >= self.e + 2 {
            proof {
                lemma_two_grows(p + 1, p - 1 + b.1 - e);
                lemma_two(p as int);
            }
            return true;
        }
        proof {
            lemma_two(0);
            let (x, y) = (self.m as int, other.m as int);
            assert(x * 1 == x && y * 1 == y && x * 2 == 2 * x && y * 2 == 2 * y);
        }
        if self.e == other.e {
            self.m < other.m
        } else if self.e > other.e {
            2 * self.m < other.m
        } else {
            self.m < 2 * other.m
        }
    }

    /// The nearest integer, held between one and `max`.
    pub fn nearest_within(self, max: u64) -> (r: u64)
        requires
            ranges(self@, DOUBLE as int, -1000, 1000),
            self.m >= 0,
            1 <= max,
        ensures
            r == (if to_nearest(self@) < 1 {
                1
            } else if to_nearest(self@) > max {
                max as int
            } else {
                to_nearest(self@)
            }),
    {
        proof {
            lemma_two_values();
            if self.e >= 12 && self.m > 0 {
                lemma_two_grows(12, self.e as int);
                lemma_two_adds(52, 12);
                let (m, t) = (self.m as int, two(self.e as int));
                assert(m * t >= two(52) * two(12)) by (nonlinear_arith)
                    requires
                        m >= two(52),
                        t >= two(12),
                        two(12) >= 1,
                        two(52) >= 1,
                ;
            }
            assert(0 * two(self.e as int) == 0);
        }
        if self.e >= 12 {
            if self.m == 0 {
                return 1;
            }
            return max;
        }
        let q: u128 = if self.e >= 0 {
            proof {
                lemma_two_grows(self.e as int, 12);
                lemma_two_adds(53, 12);
                let (m, t) = (self.m as int, two(self.e as int));
                assert(0 <= m * t <= two(53) * two(12)) by (nonlinear_arith)
                    requires
                        0 <= m <= two(53),
                        1 <= t <= two(12),
                ;
                lemma_two_grows(65, 127);
            }
            self.m as u128 * two_to(self.e as u32)
        } else {
            self.nearest_integer()
        };
        if q < 1 {
            1
        } else if q > max as u128 {
            max
        } else {
            q as u64
        }
    }

    /// The number nearest to an integer of either sign.
    pub fn of_signed(n: i32, p: u32) -> (r: Float)
        requires
            1 <= p <= 53,
        ensures
            r@ == number(n as int, 0, p as int),
            is_number(r@, p as int),
            r.m == 0 <==> n == 0,
            -53 <= r.e <= 64,
            n != 0 && -256 <= n <= 256 ==> -p <= r.e <= 9 - p,
    {
        if n >= 0 {
            Float::of(n as u64, p)
        } else {
            let r = Float::of((-(n as i64)) as u64, p);
            proof {
                lemma_two_values();
                lemma_two_grows(p as int, 53);
            }
            Float { m: -r.m, e: r.e }
        }
    }

    /// The nearest integer, held to a byte.
    pub fn nearest_byte(self) -> (r: u8)
        requires
            ranges(self@, DOUBLE as int, -1000, 1000) || ranges(self@, SINGLE as int, -1000, 1000),
        ensures
            r == byte_of(self@),
    {
        proof {
            lemma_two_values();
            if self.e >= 0 {
                lemma_two(self.e as int);
                let (m, t) = (self.m as int, two(self.e as int));
                assert(m * t >= m || m < 0) by (nonlinear_arith)
                    requires
                        t >= 1,
                ;
                assert(0 * t == 0);
            }
        }
        if self.m <= 0 {
            proof {
                if self.m == 0 {
                    assert(self@ == (0int, 0int));
                    lemma_two(0);
                }
            }
            0
        } else if self.e >= 0 {
            255
        } else {
            let q: u128 = self.nearest_integer();
            if q > 255 {
                255
            } else {
                q as u8
            }
        }
    }

    /// The nearest integer to a number whose last place is behind the point.
    pub fn nearest_integer(self) -> (r: u128)
        requires
            self.e < 0,
            0 <= self.m <= two(53),
            -1000 <= self.e,
        ensures
            r == to_nearest(self@),
            r <= two(53),
    {
        proof {
            lemma_two_values();
            lemma_two(-self.e as int);
            if self.e < -100 {
                lemma_two_grows(55, -self.e as int);
                lemma_two(54);
                let (m, t) = (self.m as int, two(-self.e as int));
                assert((2 * m + t) / (2 * t) == 0) by (nonlinear_arith)
                    requires
                        0 <= 2 * m < t,
                ;
            }
        }
        if self.e < -100 {
            return 0;
        }
        let t: u128 = two_to((-self.e) as u32);
        proof {
            lemma_two_grows(-self.e as int, 100);
            lemma_two_grows(100, 125);
            lemma_two(125);
            lemma_two(126);
            let m = self.m as int;
            lemma_two(-self.e - 1);
            assert((2 * m + t) / (2 * t as int) <= m) by (nonlinear_arith)
                requires
                    m >= 0,
                    t >= 2,
            ;
        }
        (2 * self.m as u128 + t) / (2 * t)
    }

    /// The whole part of a number whose last place is behind the point.
    pub fn whole_part(self) -> (r: u64)
        requires
            self.e < 0,
            0 <= self.m <= two(53),
            -1000 <= self.e,
        ensures
            r == whole(self@),
            r <= self.m,
    {
        proof {
            lemma_two_values();
            lemma_two(-self.e as int);
            if self.e < -100 {
                lemma_two_grows(54, -self.e as int);
                let (m, t) = (self.m as int, two(-self.e as int));
                assert(m / t == 0) by (nonlinear_arith)
                    requires
                        0 <= m < t,
                ;
            }
        }
        if self.e < -100 {
            return 0;
        }
        let t: u128 = two_to((-self.e) as u32);
        proof {
            let m = self.m as int;
            assert(0 <= m / (t as int) <= m) by (nonlinear_arith)
                requires
                    m >= 0,
                    t >= 1,
            ;
        }
        (self.m as u128 / t) as u64
    }
}

pub proof fn lemma_less_is_strict(a: (int, int), b: (int, int))
    requires
        less(a, b),
    ensures
        !less(b, a),
{
}

pub proof fn lemma_bits_at_most(n: int, k: int)
    requires
        0 < n < two(k),
        0 <= k,
    ensures
        1 <= bits(n) <= k,
{
    lemma_bits(n);
    if bits(n) > k {
        lemma_two_grows(k, bits(n) - 1);
    }
}

/// An integer that has no more digits than a number is one.
pub proof fn lemma_small_integer(n: int, p: int)
    requires
        1 <= p,
        0 < n < two(p),
    ensures
        ({
            let r = number(n, 0, p);
            &&& is_number(r, p)
            &&& r.1 == bits(n) - p <= 0
            &&& r.0 == n * two(-r.1)
            &&& r.0 > 0
        }),
{
    let s = bits(n) - 1 - p;
    lemma_bits(n);
    if bits(n) > p {
        lemma_two_grows(p, bits(n) - 1);
    }
    assert(bits(0) == 0);
    assert(bits(1) == 1 + bits(0));
    lemma_two_adds(bits(n) - 1, -s);
    let (t, u) = (two(-s), two(bits(n) - 1));
    assert(n * t >= u * t) by (nonlinear_arith)
        requires
            n >= u,
            t >= 1,
    ;
    assert(1 * two(p) == two(p));
    assert(last_place(n, 1, p) == s + 1);
    lemma_nearest(n, 1, p);
    lemma_two(0);
    lemma_two(p - 1);
    assert(n * two(0) == n && 1 * two(0) == 1);
    let a = n * two(-(s + 1));
    assert(over(n, 1, s + 1) == (a, 1int));
    assert(a / 1 == a && a % 1 == 0);
    assert(nearest_even(a, 1) == a);
}

/// How far a quotient is from the exact one.
pub proof fn lemma_quotient(a: (int, int), b: (int, int), p: int)
    requires
        4 <= p,
        is_number(a, p),
        is_number(b, p),
        a.0 > 0,
        b.0 > 0,
    ensures
        ({
            let q = quotient(a, b, p);
            let t = q.1 - a.1 + b.1;
            &&& -p - 1 <= t <= -p + 2
            &&& b.0 * two(p - 1) <= a.0 * two(-t)
            &&& -b.0 <= 2 * (q.0 * b.0 - a.0 * two(-t)) <= b.0
            &&& q.0 > 0
        }),
{
    lemma_quotient_ranges(a, b, p);
    lemma_nearest(a.0, b.0, p);
    lemma_two(p - 1);
}

/// How far a product is from the exact one.
pub proof fn lemma_product(a: (int, int), b: (int, int), p: int)
    requires
        2 <= p,
        is_number(a, p),
        is_number(b, p),
        a.0 > 0,
        b.0 > 0,
    ensures
        ({
            let r = product(a, b, p);
            let s = r.1 - a.1 - b.1;
            &&& p - 2 <= s <= p + 1
            &&& -two(s) <= 2 * (r.0 * two(s) - a.0 * b.0) <= two(s)
            &&& r.0 > 0
        }),
{
    lemma_product_ranges(a, b, p);
    lemma_two(p - 1);
    lemma_significand_product(a.0, b.0, p);
    lemma_two(2 * p - 2);
    lemma_nearest(a.0 * b.0, 1, p);
    let s = product(a, b, p).1 - a.1 - b.1;
    assert(1 * two(s) == two(s));
}

/// A number is zero or has the sign of what it is nearest to.
pub proof fn lemma_number_sign(n: int, e: int, p: int)
    requires
        1 <= p,
    ensures
        n > 0 <==> number(n, e, p).0 > 0,
        n < 0 <==> number(n, e, p).0 < 0,
{
    if n != 0 {
        lemma_nearest(magnitude(n), 1, p);
        lemma_two(p - 1);
    }
}

/// A number below `2^(f + p)` has its last place at `f` or below.
pub proof fn lemma_place_at_most(n: int, e: int, p: int, f: int)
    requires
        1 <= p,
        0 < n,
        e <= f,
        n < two(p) * two(f - e),
    ensures
        number(n, e, p).1 <= f,
{
    lemma_nearest(n, 1, p);
    let s = number(n, e, p).1 - e;
    if s >= 0 {
        lemma_two_adds(s, p - 1);
        lemma_two_adds(p, f - e);
        assert(1 * two(s) == two(s));
        if s + p - 1 >= p + f - e {
            lemma_two_grows(p + f - e, s + p - 1);
        }
    }
}

/// A number nearest to `n * 2^e` does not pass a multiple of its last place.
pub proof fn lemma_number_at_most(n: int, e: int, p: int, c: int, f: int)
    requires
        1 <= p,
        0 < n,
        e <= f,
        n <= c * two(f - e),
        number(n, e, p).1 <= f,
    ensures
        number(n, e, p).0 <= c * two(f - number(n, e, p).1),
{
    lemma_bound(n, e, p, c, f);
}

/// A number nearest to `n * 2^e` does not fall below a multiple of its last place.
pub proof fn lemma_number_at_least(n: int, e: int, p: int, c: int, f: int)
    requires
        1 <= p,
        0 < n,
        e <= f,
        n >= c * two(f - e),
        number(n, e, p).1 <= f,
    ensures
        number(n, e, p).0 >= c * two(f - number(n, e, p).1),
{
    lemma_bound(n, e, p, c, f);
}

proof fn lemma_bound(n: int, e: int, p: int, c: int, f: int)
    requires
        1 <= p,
        0 < n,
        e <= f,
        number(n, e, p).1 <= f,
    ensures
        ({
            let r = number(n, e, p);
            &&& n <= c * two(f - e) ==> r.0 <= c * two(f - r.1)
            &&& n >= c * two(f - e) ==> r.0 >= c * two(f - r.1)
        }),
{
    let r = number(n, e, p);
    lemma_nearest(n, 1, p);
    let s = r.1 - e;
    let (a, b) = over(n, 1, s);
    let k = c * two(f - r.1);
    if s >= 0 {
        lemma_two_adds(s, f - r.1);
        assert(b == two(s));
        assert(b * k == c * two(f - e)) by (nonlinear_arith)
            requires
                b == two(s),
                k == c * two(f - r.1),
                two(f - e) == two(s) * two(f - r.1),
        ;
    } else {
        lemma_two_adds(-s, f - e);
        assert(k == c * two(f - e) * two(-s)) by (nonlinear_arith)
            requires
                k == c * two(f - r.1),
                two(f - r.1) == two(-s) * two(f - e),
        ;
        let (u, t) = (c * two(f - e), two(-s));
        assert((n <= u ==> n * t <= u * t) && (n >= u ==> n * t >= u * t)) by (nonlinear_arith)
            requires
                t >= 1,
        ;
    }
    if n <= c * two(f - e) {
        assert(b * (a / b) <= a) by (nonlinear_arith)
            requires
                b > 0,
        ;
        lemma_nearest_even(a, b, a / b, k);
    }
    if n >= c * two(f - e) {
        assert(a <= b * (a / b + 1)) by (nonlinear_arith)
            requires
                b > 0,
        ;
        lemma_nearest_even(a, b, k, a / b + 1);
    }
}

/// How far a number is from `n * 2^e`, in units of `2^-k`.
pub proof fn lemma_number_near(n: int, e: int, p: int, k: int)
    requires
        1 <= p,
        e + k >= 0,
        number(n, e, p).1 + k >= 1,
    ensures
        ({
            let r = number(n, e, p);
            &&& n != 0 ==> -two(r.1 + k - 1) <= r.0 * two(r.1 + k) - n * two(e + k) <= two(
                r.1 + k - 1,
            )
        }),
{
    if n != 0 {
        let m = magnitude(n);
        let r = number(n, e, p);
        lemma_nearest(m, 1, p);
        let s = r.1 - e;
        lemma_two(r.1 + k - 1);
        let (x, t, u) = (magnitude(r.0), two(r.1 + k), two(e + k));
        lemma_two(p - 1);
        let v = nearest(m, 1, p).0;
        assert(x == v);
        if s >= 0 {
            lemma_two_adds(s, e + k);
            assert(1 * two(s) == two(s));
            assert(-t <= 2 * (v * t - m * u) <= t) by (nonlinear_arith)
                requires
                    -two(s) <= 2 * (v * two(s) - m) <= two(s),
                    t == two(s) * u,
                    u >= 1,
            ;
        } else {
            lemma_two_adds(-s, r.1 + k);
            assert(v * t == m * u) by (nonlinear_arith)
                requires
                    v == m * two(-s),
                    u == two(-s) * t,
            ;
        }
        assert(n < 0 ==> n * u == -(m * u) && r.0 * t == -(v * t)) by (nonlinear_arith)
            requires
                n < 0 ==> n == -m && r.0 == -v,
        ;
    }
}

/// One, in single precision.
pub open spec fn single_one() -> (int, int) {
    (0x80_0000, -23)
}

/// The single-precision number with the bit pattern `b`, which is neither negative
/// nor infinite.
pub open spec fn single_of(b: u32) -> (int, int) {
    if b < 0x80_0000 {
        number(b as int, -149, 24)
    } else {
        (0x80_0000 + b % 0x80_0000, b / 0x80_0000 - 150)
    }
}

/// The single-precision number with the bit pattern `b`, held between zero and one;
/// none if the pattern stands for no number.
pub open spec fn share_of_bits(b: u32) -> Option<(int, int)> {
    if 0x7f80_0000 < b < 0x8000_0000 || 0xff80_0000 < b {
        None
    } else if b >= 0x8000_0000 {
        Some((0, 0))
    } else if b >= 0x3f80_0000 {
        Some(single_one())
    } else {
        Some(single_of(b))
    }
}

pub proof fn lemma_single(b: u32)
    requires
        b < 0x7f80_0000,
    ensures
        ranges(single_of(b), 24, -173, 104),
        single_of(b).0 >= 0,
        b < 0x3f80_0000 ==> ranges(single_of(b), 24, -173, -24),
{
    lemma_two_values();
    if b < 0x80_0000 {
        if b > 0 {
            lemma_two(0);
            lemma_number(b as int, -149, 24, 0, 23);
            lemma_number_sign(b as int, -149, 24);
        }
    }
}

impl Float {
    /// The single-precision number with the given bit pattern.
    pub fn single(b: u32) -> (r: Float)
        requires
            b < 0x7f80_0000,
        ensures
            r@ == single_of(b),
            ranges(r@, 24, -173, 104),
            r.m >= 0,
            b < 0x3f80_0000 ==> ranges(r@, 24, -173, -24),
    {
        proof {
            lemma_two_values();
            lemma_two_grows(24, 125);
            lemma_single(b);
        }
        if b < 0x80_0000 {
            rounded(b as i128, -149, SINGLE)
        } else {
            Float { m: (0x80_0000 + b % 0x80_0000) as i64, e: (b / 0x80_0000) as i32 - 150 }
        }
    }

    /// The same, held between zero and one.
    pub fn single_share(b: u32) -> (r: Option<Float>)
        ensures
            match r {
                Some(t) => share_of_bits(b) == Some(t@) && ranges(t@, 24, -173, -23) && t.m >= 0,
                None => share_of_bits(b) is None,
            },
    {
        proof {
            lemma_two_values();
        }
        if b > 0x7f80_0000 && b < 0x8000_0000 || b > 0xff80_0000 {
            None
        } else if b >= 0x8000_0000 {
            Some(Float { m: 0, e: 0 })
        } else if b >= 0x3f80_0000 {
            Some(Float { m: 0x80_0000, e: -23 })
        } else {
            Some(Float::single(b))
        }
    }
}

} // verus!
