//! Fixed-point numbers with six decimal places and saturating arithmetic.
//!
//! Every length, speed, angle and time span of the simulation is an `i64`
//! that counts millionths: [`ONE`] stands for one pixel, one second or one
//! degree. No operation wraps around. A result that does not fit in an `i64`
//! is clipped to the nearest bound, and a quotient that is not a whole number
//! of millionths is rounded down.

use vstd::prelude::*;
use vstd::arithmetic::div_mod::lemma_fundamental_div_mod;
use vstd::arithmetic::div_mod::lemma_fundamental_div_mod_converse_div;
use vstd::arithmetic::div_mod::lemma_mod_bound;

verus! {

/// The fixed-point representation of `1.0`.
pub const ONE: i64 = 1_000_000;

/// A random draw is reduced to one of this many equally spaced fractions of
/// the unit interval: `0`, `1 / DRAW_STEPS`, ..., `(DRAW_STEPS - 1) / DRAW_STEPS`.
pub const DRAW_STEPS: i64 = 0x20_0000_0000_0000;

/// The nearest value to `n` that an `i64` can hold.
pub open spec fn clip(n: int) -> int {
    if n < i64::MIN {
        i64::MIN as int
    } else if n > i64::MAX {
        i64::MAX as int
    } else {
        n
    }
}

/// `a + b`, clipped.
pub open spec fn sum(a: int, b: int) -> int {
    clip(a + b)
}

/// `a - b`, clipped.
pub open spec fn difference(a: int, b: int) -> int {
    clip(a - b)
}

/// `a * num / den` rounded down, clipped.
pub open spec fn scaled(a: int, num: int, den: int) -> int {
    clip((a * num) / den)
}

/// The product of two fixed-point numbers: `a * b / ONE` rounded down, clipped.
pub open spec fn product(a: int, b: int) -> int {
    scaled(a, b, ONE as int)
}

/// Half of `a`, rounded down.
pub open spec fn half(a: int) -> int {
    a / 2
}

/// The fixed-point representation of the whole number `n`.
pub open spec fn whole(n: int) -> int {
    n * ONE
}

/// The numerator over [`DRAW_STEPS`] that a 64-bit random draw stands for:
/// its 53 most significant bits.
pub open spec fn draw_numerator(draw: int) -> int {
    draw / 2048
}

/// The part of `span` that lies below the fraction a random draw stands for,
/// rounded down.
pub open spec fn share(draw: int, span: int) -> int {
    scaled(span, draw_numerator(draw), DRAW_STEPS as int)
}

/// Clips a wide integer into an `i64`.
pub fn saturate(n: i128) -> (r: i64)
    ensures
        r == clip(n as int),
{
    if n < i64::MIN as i128 {
        i64::MIN
    } else if n > i64::MAX as i128 {
        i64::MAX
    } else {
        n as i64
    }
}

/// Saturating addition.
pub fn plus(a: i64, b: i64) -> (r: i64)
    ensures
        r == sum(a as int, b as int),
{
    saturate(a as i128 + b as i128)
}

/// Saturating subtraction.
pub fn minus(a: i64, b: i64) -> (r: i64)
    ensures
        r == difference(a as int, b as int),
{
    saturate(a as i128 - b as i128)
}

/// The product of two `i64` values stays well inside the range of `i128`.
proof fn lemma_wide_product(a: int, b: int)
    by (nonlinear_arith)
    requires
        -0x8000_0000_0000_0000 <= a <= 0x8000_0000_0000_0000,
        -0x8000_0000_0000_0000 <= b <= 0x8000_0000_0000_0000,
    ensures
        -0x4000_0000_0000_0000_0000_0000_0000_0000 <= a * b
            <= 0x4000_0000_0000_0000_0000_0000_0000_0000,
{
}

/// Division of a wide integer by a positive divisor, rounded down.
fn floor_div(n: i128, d: i128) -> (q: i128)
    requires
        d > 0,
        n > i128::MIN,
    ensures
        q == n as int / d as int,
{
    if n >= 0 {
        n / d
    } else {
        let m: i128 = -(n + 1);
        let t: i128 = m / d;
        proof {
            let r = m as int % d as int;
            lemma_fundamental_div_mod(m as int, d as int);
            lemma_mod_bound(m as int, d as int);
            assert(d * t == t * d) by (nonlinear_arith);
            assert((-t - 1) * d == -(t * d) - d) by (nonlinear_arith);
            assert(n as int == (-t - 1) * d + (d - r - 1));
            lemma_fundamental_div_mod_converse_div(n as int, d as int, -t - 1, d - r - 1);
        }
        -t - 1
    }
}

/// Multiplies `a` by the ratio `num / den`, rounds down and saturates.
pub fn scale(a: i64, num: i64, den: i64) -> (r: i64)
    requires
        den > 0,
    ensures
        r == scaled(a as int, num as int, den as int),
{
    proof {
        lemma_wide_product(a as int, num as int);
    }
    let wide: i128 = (a as i128) * (num as i128);
    saturate(floor_div(wide, den as i128))
}

/// Saturating fixed-point multiplication.
pub fn times(a: i64, b: i64) -> (r: i64)
    ensures
        r == product(a as int, b as int),
{
    scale(a, b, ONE)
}

/// Halves a fixed-point number, rounding down.
pub fn halve(a: i64) -> (r: i64)
    ensures
        r == half(a as int),
{
    saturate(floor_div(a as i128, 2))
}

/// Converts a whole number, such as a size in pixels, to fixed point.
pub fn from_whole(n: u32) -> (r: i64)
    ensures
        r == whole(n as int),
{
    (n as i64) * ONE
}

/// Scales `span` by the fraction in `[0, 1)` that the random draw stands for.
pub fn portion(draw: u64, span: i64) -> (r: i64)
    ensures
        r == share(draw as int, span as int),
{
    let numerator: u64 = draw >> 11;
    assert(draw >> 11 == draw / 2048 && (draw >> 11) < 0x20_0000_0000_0000) by (bit_vector);
    scale(span, numerator as i64, DRAW_STEPS)
}

/// A share of a span lies between zero and the span, the span itself left out.
pub proof fn lemma_share_within_span(draw: int, span: int)
    requires
        0 <= draw <= u64::MAX,
        i64::MIN <= span <= i64::MAX,
    ensures
        span > 0 ==> 0 <= share(draw, span) < span,
        span <= 0 ==> span <= share(draw, span) <= 0,
{
    let k = draw_numerator(draw);
    let d = DRAW_STEPS as int;
    assert(0 <= k < d);
    let q = (span * k) / d;
    lemma_fundamental_div_mod(span * k, d);
    lemma_mod_bound(span * k, d);
    assert(d * q <= span * k < d * q + d);
    if span > 0 {
        assert(0 <= span * k && span * k < span * d) by (nonlinear_arith)
            requires
                span > 0,
                0 <= k < d,
        ;
        assert(0 <= q < span) by (nonlinear_arith)
            requires
                d > 0,
                d * q <= span * k < d * q + d,
                0 <= span * k,
                span * k < span * d,
        ;
    } else {
        assert(span * d <= span * k && span * k <= 0) by (nonlinear_arith)
            requires
                span <= 0,
                0 <= k < d,
        ;
        assert(span <= q <= 0) by (nonlinear_arith)
            requires
                d > 0,
                d * q <= span * k < d * q + d,
                span * k <= 0,
                span * d <= span * k,
        ;
    }
}

/// Over whole numbers of units the fixed-point product is exact.
pub proof fn lemma_product_of_whole(a: int, n: int)
    ensures
        product(a, whole(n)) == clip(a * n),
{
    assert(a * (n * ONE) == (a * n) * ONE) by (nonlinear_arith);
    lemma_fundamental_div_mod_converse_div((a * n) * ONE, ONE as int, a * n, 0);
}

} // verus!
