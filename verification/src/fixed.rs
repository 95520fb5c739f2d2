//! Fixed-point scalars and the rounding primitives of the crate.
//!
//! A world coordinate is an `i64` holding the real value multiplied by
//! [`SCALE`]. Division and square root round toward zero / down, and each
//! executable function states its rounding exactly.

use vstd::prelude::*;

verus! {

/// Fixed-point scale: a world unit is stored as this many ticks.
pub const SCALE: i64 = 1024;

/// Largest magnitude accepted for a wall or observer coordinate
/// (in fixed-point ticks). Keeps every intermediate product of the
/// geometry within `i128`.
pub const COORD_LIMIT: i64 = 0x100_0000;

/// Quotient of `a / b` rounded toward zero (the rounding of Rust's `/`),
/// for a positive divisor.
pub open spec fn tdiv(a: int, b: int) -> int {
    if a >= 0 {
        a / b
    } else {
        -((-a) / b)
    }
}

/// `r` is the integer square root of `n` rounded down.
pub open spec fn is_sqrt(n: int, r: int) -> bool {
    0 <= r && r * r <= n && n < (r + 1) * (r + 1)
}

/// The integer square root as a spec value: the witness of [`is_sqrt`]
/// (unique by [`lemma_sqrt_unique`]).
pub open spec fn sqrt_of(n: int) -> int {
    choose|r: int| is_sqrt(n, r)
}

/// Any witness of [`is_sqrt`] is [`sqrt_of`] of its input.
pub proof fn lemma_sqrt_of(n: int, r: int)
    requires
        is_sqrt(n, r),
    ensures
        sqrt_of(n) == r,
{
    assert(is_sqrt(n, sqrt_of(n)));
    lemma_sqrt_unique(n, sqrt_of(n), r);
}

/// `|x * y| <= bx * by` whenever `|x| <= bx` and `|y| <= by`.
pub proof fn lemma_mul_abs_bound(x: int, y: int, bx: int, by: int)
    by (nonlinear_arith)
    requires
        -bx <= x <= bx,
        -by <= y <= by,
    ensures
        -(bx * by) <= x * y <= bx * by,
{
}

/// Squares are monotone on nonnegative values.
pub proof fn lemma_sq_le(a: int, b: int)
    by (nonlinear_arith)
    requires
        0 <= a <= b,
    ensures
        a * a <= b * b,
{
}

/// Multiplying both sides of an inequality by a nonnegative value.
pub proof fn lemma_mul_le_nonneg(a: int, b: int, c: int)
    by (nonlinear_arith)
    requires
        a <= b,
        0 <= c,
    ensures
        a * c <= b * c,
{
}

/// A product of positive values is positive.
pub proof fn lemma_mul_pos(a: int, b: int)
    by (nonlinear_arith)
    requires
        0 < a,
        0 < b,
    ensures
        0 < a * b,
{
}

/// A square is never negative.
pub proof fn lemma_sq_nonneg(a: int)
    by (nonlinear_arith)
    ensures
        0 <= a * a,
{
}

/// Ordering of fractions compared on cross products is transitive:
/// `n1/d1 < n2/d2` and `n2/d2 <= n3/d3` give `n1/d1 < n3/d3`.
pub proof fn lemma_frac_lt_le_trans(n1: int, d1: int, n2: int, d2: int, n3: int, d3: int)
    by (nonlinear_arith)
    requires
        d1 > 0,
        d2 > 0,
        d3 > 0,
        n1 * d2 < n2 * d1,
        n2 * d3 <= n3 * d2,
    ensures
        n1 * d3 < n3 * d1,
{
}

/// An integer square root stays below any bound whose square tops its input.
pub proof fn lemma_sqrt_below(n: int, r: int, b: int)
    by (nonlinear_arith)
    requires
        is_sqrt(n, r),
        n < b * b,
        0 <= b,
    ensures
        r < b,
{
}

/// The integer square root of a given value is unique.
pub proof fn lemma_sqrt_unique(n: int, a: int, b: int)
    by (nonlinear_arith)
    requires
        is_sqrt(n, a),
        is_sqrt(n, b),
    ensures
        a == b,
{
}

/// Truncating division on wide intermediates, with the exact quotient
/// stated through [`tdiv`].
pub fn div_trunc(a: i128, b: i128) -> (q: i128)
    requires
        b > 0,
        a != i128::MIN,
    ensures
        q == tdiv(a as int, b as int),
{
    a / b
}

/// The magnitude of a truncating quotient is bounded by any multiple of
/// the divisor that bounds the dividend.
pub proof fn lemma_tdiv_abs_bound(a: int, b: int, m: int)
    by (nonlinear_arith)
    requires
        b > 0,
        m >= 0,
        -(b * m) <= a <= b * m,
    ensures
        -m <= tdiv(a, b) <= m,
{
}

/// Integer square root, rounded down.
pub fn isqrt(n: u64) -> (r: u64)
    ensures
        is_sqrt(n as int, r as int),
{
    let mut lo: u64 = 0;
    let mut hi: u64 = 0x1_0000_0000;
    while lo + 1 < hi
        invariant
            lo < hi <= 0x1_0000_0000,
            lo * lo <= n,
            n < hi * hi,
        decreases hi - lo,
    {
        let mid: u64 = lo + (hi - lo) / 2;
        proof {
            assert(mid * mid < 0x1_0000_0000_0000_0000) by (nonlinear_arith)
                requires mid < 0x1_0000_0000u64;
        }
        if mid * mid <= n {
            lo = mid;
        } else {
            hi = mid;
        }
    }
    lo
}

} // verus!
