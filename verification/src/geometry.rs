//! Geometry kernel: the exact segment/segment intersection filter and the
//! fixed-point distance between two points.
//!
//! The intersection test works on two segments `(a,b)-(c,d)` and
//! `(p,q)-(r,s)`. It is a pure filter: it reports whether the two open
//! segments cross strictly inside both, and never yields coordinates.
//! All comparisons of the parametric coordinates are done on exact
//! integer numerators, so the test has no rounding at all.

use vstd::prelude::*;

use crate::fixed::COORD_LIMIT;
use crate::fixed::is_sqrt;
use crate::fixed::isqrt;
use crate::fixed::lemma_mul_abs_bound;

verus! {

/// A scalar small enough to enter the intersection filter.
pub open spec fn in_coord_range(x: int) -> bool {
    -(COORD_LIMIT as int) <= x <= COORD_LIMIT as int
}

/// A scalar small enough to enter the distance computation; hit points
/// may lie a little outside the wall range, so this bound is looser.
pub open spec fn in_dist_range(x: int) -> bool {
    -0x1000_0000 <= x <= 0x1000_0000
}

/// The fraction `num / den` lies strictly between 0 and 1
/// (`den` may carry either sign; a zero `den` never qualifies).
pub open spec fn in_open_unit(num: int, den: int) -> bool {
    if den > 0 {
        0 < num && num < den
    } else {
        den < num && num < 0
    }
}

/// Determinant of the two segment direction vectors. Zero exactly when
/// the segments are parallel or one is degenerate.
pub open spec fn seg_det(a: int, b: int, c: int, d: int, p: int, q: int, r: int, s: int) -> int {
    (c - a) * (s - q) - (r - p) * (d - b)
}

/// Numerator of the parametric coordinate along the first segment.
pub open spec fn lambda_num(a: int, b: int, c: int, d: int, p: int, q: int, r: int, s: int) -> int {
    (s - q) * (r - a) + (p - r) * (s - b)
}

/// Numerator of the parametric coordinate along the second segment.
pub open spec fn gamma_num(a: int, b: int, c: int, d: int, p: int, q: int, r: int, s: int) -> int {
    (b - d) * (r - a) + (c - a) * (s - b)
}

/// The two open segments `(a,b)-(c,d)` and `(p,q)-(r,s)` cross strictly
/// inside both: the determinant is nonzero and both parametric
/// coordinates lie in the open interval (0,1). Endpoint touching and
/// parallel or collinear overlap do not count.
pub open spec fn spec_intersects(
    a: int, b: int, c: int, d: int, p: int, q: int, r: int, s: int,
) -> bool {
    let det = seg_det(a, b, c, d, p, q, r, s);
    det != 0
        && in_open_unit(lambda_num(a, b, c, d, p, q, r, s), det)
        && in_open_unit(gamma_num(a, b, c, d, p, q, r, s), det)
}

/// Squared Euclidean distance between two points.
pub open spec fn spec_dist_sq(x1: int, y1: int, x2: int, y2: int) -> int {
    (x1 - x2) * (x1 - x2) + (y1 - y2) * (y1 - y2)
}

/// Does `num / den` lie strictly inside the unit interval?
fn frac_in_open_unit(num: i128, den: i128) -> (res: bool)
    ensures
        res == in_open_unit(num as int, den as int),
{
    if den > 0 {
        0 < num && num < den
    } else {
        den < num && num < 0
    }
}

/// Strict-interior crossing test for the segments `(a,b)-(c,d)` and
/// `(p,q)-(r,s)`, decided with exact integer arithmetic.
pub fn intersects(a: i64, b: i64, c: i64, d: i64, p: i64, q: i64, r: i64, s: i64) -> (res: bool)
    requires
        in_dist_range(a as int),
        in_dist_range(b as int),
        in_dist_range(c as int),
        in_dist_range(d as int),
        in_dist_range(p as int),
        in_dist_range(q as int),
        in_dist_range(r as int),
        in_dist_range(s as int),
    ensures
        res == spec_intersects(
            a as int, b as int, c as int, d as int,
            p as int, q as int, r as int, s as int,
        ),
{
    proof {
        lemma_mul_abs_bound(c - a, s as int - q, 0x2000_0000, 0x2000_0000);
        lemma_mul_abs_bound(r - p, d as int - b, 0x2000_0000, 0x2000_0000);
        lemma_mul_abs_bound(s - q, r as int - a, 0x2000_0000, 0x2000_0000);
        lemma_mul_abs_bound(p - r, s as int - b, 0x2000_0000, 0x2000_0000);
        lemma_mul_abs_bound(b - d, r as int - a, 0x2000_0000, 0x2000_0000);
        lemma_mul_abs_bound(c - a, s as int - b, 0x2000_0000, 0x2000_0000);
    }
    let det: i128 = (c as i128 - a as i128) * (s as i128 - q as i128)
        - (r as i128 - p as i128) * (d as i128 - b as i128);
    if det == 0 {
        return false;
    }
    let lnum: i128 = (s as i128 - q as i128) * (r as i128 - a as i128)
        + (p as i128 - r as i128) * (s as i128 - b as i128);
    let gnum: i128 = (b as i128 - d as i128) * (r as i128 - a as i128)
        + (c as i128 - a as i128) * (s as i128 - b as i128);
    frac_in_open_unit(lnum, det) && frac_in_open_unit(gnum, det)
}

/// Parallel segments never cross: whenever the two direction vectors
/// have a zero cross product — in particular for any two horizontal or
/// any two vertical segments — the intersection test is false, whatever
/// the endpoints are and however the segments overlap.
pub proof fn lemma_parallel_never_intersects(
    a: int, b: int, c: int, d: int, p: int, q: int, r: int, s: int,
)
    requires
        (c - a) * (s - q) == (r - p) * (d - b),
    ensures
        !spec_intersects(a, b, c, d, p, q, r, s),
{
}

/// Euclidean distance between two fixed-point points, rounded down.
pub fn dist(x1: i64, y1: i64, x2: i64, y2: i64) -> (d: i64)
    requires
        in_dist_range(x1 as int),
        in_dist_range(y1 as int),
        in_dist_range(x2 as int),
        in_dist_range(y2 as int),
    ensures
        is_sqrt(spec_dist_sq(x1 as int, y1 as int, x2 as int, y2 as int), d as int),
        0 <= d,
{
    proof {
        lemma_mul_abs_bound(x1 - x2, x1 as int - x2, 0x2000_0000, 0x2000_0000);
        lemma_mul_abs_bound(y1 - y2, y1 as int - y2, 0x2000_0000, 0x2000_0000);
    }
    let dx: i128 = x1 as i128 - x2 as i128;
    let dy: i128 = y1 as i128 - y2 as i128;
    proof {
        assert(dx * dx >= 0) by (nonlinear_arith);
        assert(dy * dy >= 0) by (nonlinear_arith);
    }
    let sq: i128 = dx * dx + dy * dy;
    let r: u64 = isqrt(sq as u64);
    proof {
        crate::fixed::lemma_sqrt_below(sq as int, r as int, 0x1_0000_0000);
    }
    r as i64
}

} // verus!
