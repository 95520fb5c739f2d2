//! Ray caster: nearest-hit query of a ray against an ordered wall set.
//!
//! A ray starts at the observer and carries its clip range folded into a
//! far endpoint, built from a fixed-point direction vector. For every
//! wall the caster runs the geometry kernel's filter, then solves the
//! line/line system on exact integer numerators; a wall whose system is
//! degenerate (zero denominator) is skipped and the scan goes on — the
//! scan is never abandoned on a degenerate wall. Among the valid
//! crossings the wall with the least parametric position along the ray —
//! the nearest crossing — wins; earlier walls win ties. The reported
//! distance is the rounded Euclidean distance from the origin to the
//! rounded crossing point.

use vstd::prelude::*;

use crate::fixed::COORD_LIMIT;
use crate::fixed::SCALE;
use crate::fixed::div_trunc;
use crate::fixed::is_sqrt;
use crate::fixed::lemma_mul_abs_bound;
use crate::fixed::lemma_tdiv_abs_bound;
use crate::fixed::tdiv;
use crate::geometry::dist;
use crate::geometry::in_coord_range;
use crate::geometry::in_open_unit;
use crate::geometry::intersects;
use crate::geometry::spec_dist_sq;
use crate::geometry::spec_intersects;

verus! {

/// A wall: one ordered, immutable line segment of the world.
#[derive(Clone, Copy, PartialEq, Eq, Structural, Debug)]
pub struct Wall {
    pub x1: i64,
    pub y1: i64,
    pub x2: i64,
    pub y2: i64,
}

/// Every coordinate of the wall is small enough for the exact solver.
pub open spec fn wall_in_range(w: Wall) -> bool {
    in_coord_range(w.x1 as int) && in_coord_range(w.y1 as int)
        && in_coord_range(w.x2 as int) && in_coord_range(w.y2 as int)
}

/// Every wall of the set is within coordinate range.
pub open spec fn wall_set_ok(walls: Seq<Wall>) -> bool {
    forall|i: int| 0 <= i < walls.len() ==> wall_in_range(#[trigger] walls[i])
}

/// Shared denominator of the wall/ray line system.
pub open spec fn den_of(w: Wall, x3: int, y3: int, x4: int, y4: int) -> int {
    (w.x1 - w.x2) * (y3 - y4) - (w.y1 - w.y2) * (x3 - x4)
}

/// Numerator of `t`, the parametric position along the wall.
pub open spec fn t_num_of(w: Wall, x3: int, y3: int, x4: int, y4: int) -> int {
    (w.x1 - x3) * (y3 - y4) - (w.y1 - y3) * (x3 - x4)
}

/// Numerator of `u`, the parametric position along the ray.
pub open spec fn u_num_of(w: Wall, x3: int, y3: int, x4: int, y4: int) -> int {
    -((w.x1 - w.x2) * (w.y1 - y3) - (w.y1 - w.y2) * (w.x1 - x3))
}

/// Denominator normalized to be nonnegative.
pub open spec fn nden(w: Wall, x3: int, y3: int, x4: int, y4: int) -> int {
    if den_of(w, x3, y3, x4, y4) >= 0 {
        den_of(w, x3, y3, x4, y4)
    } else {
        -den_of(w, x3, y3, x4, y4)
    }
}

/// `t` numerator carried over to the normalized denominator.
pub open spec fn nt(w: Wall, x3: int, y3: int, x4: int, y4: int) -> int {
    if den_of(w, x3, y3, x4, y4) >= 0 {
        t_num_of(w, x3, y3, x4, y4)
    } else {
        -t_num_of(w, x3, y3, x4, y4)
    }
}

/// `u` numerator carried over to the normalized denominator.
pub open spec fn nu(w: Wall, x3: int, y3: int, x4: int, y4: int) -> int {
    if den_of(w, x3, y3, x4, y4) >= 0 {
        u_num_of(w, x3, y3, x4, y4)
    } else {
        -u_num_of(w, x3, y3, x4, y4)
    }
}

/// The ray from `(x3,y3)` to `(x4,y4)` crosses the wall strictly inside
/// the wall (`t` in (0,1)) and strictly between the origin and the far
/// endpoint (`u` in (0,1)), with a well-posed line system.
pub open spec fn spec_hits(w: Wall, x3: int, y3: int, x4: int, y4: int) -> bool {
    spec_intersects(w.x1 as int, w.y1 as int, w.x2 as int, w.y2 as int, x3, y3, x4, y4)
        && in_open_unit(t_num_of(w, x3, y3, x4, y4), den_of(w, x3, y3, x4, y4))
        && in_open_unit(u_num_of(w, x3, y3, x4, y4), den_of(w, x3, y3, x4, y4))
}

/// The crossing on `w1` lies strictly nearer along the ray than the
/// crossing on `w2`: `u(w1) < u(w2)` compared on exact cross products.
pub open spec fn u_lt(w1: Wall, w2: Wall, x3: int, y3: int, x4: int, y4: int) -> bool {
    nu(w1, x3, y3, x4, y4) * nden(w2, x3, y3, x4, y4)
        < nu(w2, x3, y3, x4, y4) * nden(w1, x3, y3, x4, y4)
}

/// Index of the nearest crossed wall among the first `n` walls, scanning
/// forward and keeping the earlier wall on an exact tie. `None` when no
/// wall among them is crossed.
pub open spec fn best_upto(walls: Seq<Wall>, x3: int, y3: int, x4: int, y4: int, n: int) -> Option<
    int,
>
    decreases n,
{
    if n <= 0 {
        None
    } else {
        let i = n - 1;
        match best_upto(walls, x3, y3, x4, y4, i) {
            None => if spec_hits(walls[i], x3, y3, x4, y4) {
                Some(i)
            } else {
                None
            },
            Some(j) => if spec_hits(walls[i], x3, y3, x4, y4) && u_lt(
                walls[i],
                walls[j],
                x3,
                y3,
                x4,
                y4,
            ) {
                Some(i)
            } else {
                Some(j)
            },
        }
    }
}

/// X of the far endpoint of a ray: origin plus the clip range times the
/// direction cosine, rounded toward zero.
pub open spec fn ray_end_x(x: int, cos_v: int, clip: int) -> int {
    x + tdiv(clip * cos_v, SCALE as int)
}

/// Y of the far endpoint. The sine is subtracted: the world follows the
/// screen's y-down convention.
pub open spec fn ray_end_y(y: int, sin_v: int, clip: int) -> int {
    y - tdiv(clip * sin_v, SCALE as int)
}

/// X of the crossing point on `w`, rounded toward zero.
pub open spec fn hit_px(w: Wall, x3: int, y3: int, x4: int, y4: int) -> int {
    w.x1 + tdiv(nt(w, x3, y3, x4, y4) * (w.x2 - w.x1), nden(w, x3, y3, x4, y4))
}

/// Y of the crossing point on `w`, rounded toward zero.
pub open spec fn hit_py(w: Wall, x3: int, y3: int, x4: int, y4: int) -> int {
    w.y1 + tdiv(nt(w, x3, y3, x4, y4) * (w.y2 - w.y1), nden(w, x3, y3, x4, y4))
}

/// Squared distance from the ray origin to the rounded crossing point.
pub open spec fn hit_dist_sq(w: Wall, x3: int, y3: int, x4: int, y4: int) -> int {
    spec_dist_sq(x3, y3, hit_px(w, x3, y3, x4, y4), hit_py(w, x3, y3, x4, y4))
}

/// Full statement of what `cast` returns: `None` exactly when no wall is
/// validly crossed; otherwise the index of the nearest crossed wall
/// (earliest on ties) together with the rounded distance to its crossing
/// point.
pub open spec fn cast_post(
    walls: Seq<Wall>,
    x: int,
    y: int,
    cos_v: int,
    sin_v: int,
    clip: int,
    hit: Option<(i64, usize)>,
) -> bool {
    let x4 = ray_end_x(x, cos_v, clip);
    let y4 = ray_end_y(y, sin_v, clip);
    match hit {
        None => best_upto(walls, x, y, x4, y4, walls.len() as int) is None,
        Some(h) => {
            &&& best_upto(walls, x, y, x4, y4, walls.len() as int) == Some(h.1 as int)
            &&& h.1 < walls.len()
            &&& is_sqrt(hit_dist_sq(walls[h.1 as int], x, y, x4, y4), h.0 as int)
            &&& h.0 >= 0
        },
    }
}

/// Direction components are fixed-point values of a unit vector; they
/// never leave `[-SCALE, SCALE]`.
pub open spec fn dir_in_range(v: int) -> bool {
    -(SCALE as int) <= v <= SCALE as int
}

/// Nearest-hit query of one ray against the wall set.
///
/// `(cos_v, sin_v)` is the direction of the ray as a fixed-point unit
/// vector; the far endpoint is built here, with the sine negated for the
/// y-down convention. Returns `None` when no wall is crossed within the
/// clip range, else the rounded distance to the nearest crossing and the
/// index of its wall.
pub fn cast(x: i64, y: i64, cos_v: i64, sin_v: i64, clip: i64, walls: &Vec<Wall>) -> (hit: Option<
    (i64, usize),
>)
    requires
        in_coord_range(x as int),
        in_coord_range(y as int),
        dir_in_range(cos_v as int),
        dir_in_range(sin_v as int),
        0 <= clip <= COORD_LIMIT,
        wall_set_ok(walls@),
    ensures
        cast_post(walls@, x as int, y as int, cos_v as int, sin_v as int, clip as int, hit),
        hit matches Some(h) ==> 0 <= h.0 <= 0x4000_0000,
{
    proof {
        lemma_mul_abs_bound(clip as int, cos_v as int, 0x100_0000, 1024);
        lemma_mul_abs_bound(clip as int, sin_v as int, 0x100_0000, 1024);
        lemma_tdiv_abs_bound(clip as int * cos_v as int, 1024, 0x100_0000);
        lemma_tdiv_abs_bound(clip as int * sin_v as int, 1024, 0x100_0000);
    }
    let ex: i128 = clip as i128 * cos_v as i128;
    let ey: i128 = clip as i128 * sin_v as i128;
    let x4: i64 = x + div_trunc(ex, SCALE as i128) as i64;
    let y4: i64 = y - div_trunc(ey, SCALE as i128) as i64;

    let mut have: bool = false;
    let mut bnum: i128 = 0;
    let mut bden: i128 = 1;
    let mut bt: i128 = 0;
    let mut bidx: usize = 0;
    let mut i: usize = 0;
    while i < walls.len()
        invariant
            0 <= i <= walls.len(),
            wall_set_ok(walls@),
            in_coord_range(x as int),
            in_coord_range(y as int),
            -0x200_0000 <= x4 <= 0x200_0000,
            -0x200_0000 <= y4 <= 0x200_0000,
            x4 as int == ray_end_x(x as int, cos_v as int, clip as int),
            y4 as int == ray_end_y(y as int, sin_v as int, clip as int),
            0 < bden <= 0x10_0000_0000_0000,
            !have ==> bnum == 0 && bden == 1,
            !have ==> best_upto(walls@, x as int, y as int, x4 as int, y4 as int, i as int)
                is None,
            have ==> bidx < i,
            have ==> spec_hits(walls@[bidx as int], x as int, y as int, x4 as int, y4 as int),
            have ==> bnum == nu(walls@[bidx as int], x as int, y as int, x4 as int, y4 as int),
            have ==> bden == nden(walls@[bidx as int], x as int, y as int, x4 as int, y4 as int),
            have ==> bt == nt(walls@[bidx as int], x as int, y as int, x4 as int, y4 as int),
            have ==> 0 < bnum < bden && 0 < bt < bden,
            have ==> best_upto(walls@, x as int, y as int, x4 as int, y4 as int, i as int)
                == Some(bidx as int),
        decreases walls.len() - i,
    {
        let w: Wall = walls[i];
        proof {
            assert(wall_in_range(walls@[i as int]));
            lemma_mul_abs_bound(w.x1 - w.x2, y as int - y4, 0x200_0000, 0x400_0000);
            lemma_mul_abs_bound(w.y1 - w.y2, x as int - x4, 0x200_0000, 0x400_0000);
            lemma_mul_abs_bound(w.x1 - x as int, y as int - y4, 0x400_0000, 0x400_0000);
            lemma_mul_abs_bound(w.y1 - y as int, x as int - x4, 0x400_0000, 0x400_0000);
            lemma_mul_abs_bound(w.x1 - w.x2, w.y1 - y as int, 0x200_0000, 0x400_0000);
            lemma_mul_abs_bound(w.y1 - w.y2, w.x1 - x as int, 0x200_0000, 0x400_0000);
        }
        if intersects(w.x1, w.y1, w.x2, w.y2, x, y, x4, y4) {
            let den: i128 = (w.x1 as i128 - w.x2 as i128) * (y as i128 - y4 as i128)
                - (w.y1 as i128 - w.y2 as i128) * (x as i128 - x4 as i128);
            let tn: i128 = (w.x1 as i128 - x as i128) * (y as i128 - y4 as i128)
                - (w.y1 as i128 - y as i128) * (x as i128 - x4 as i128);
            let un: i128 = -((w.x1 as i128 - w.x2 as i128) * (w.y1 as i128 - y as i128)
                - (w.y1 as i128 - w.y2 as i128) * (w.x1 as i128 - x as i128));
            let dnn: i128 = if den >= 0 { den } else { -den };
            let tnn: i128 = if den >= 0 { tn } else { -tn };
            let unn: i128 = if den >= 0 { un } else { -un };
            if 0 < tnn && tnn < dnn && 0 < unn && unn < dnn {
                proof {
                    lemma_mul_abs_bound(unn as int, bden as int, 0x10_0000_0000_0000, 0x10_0000_0000_0000);
                    lemma_mul_abs_bound(bnum as int, dnn as int, 0x10_0000_0000_0000, 0x10_0000_0000_0000);
                    assert(den as int == den_of(walls@[i as int], x as int, y as int, x4 as int, y4 as int));
                    assert(tn as int == t_num_of(walls@[i as int], x as int, y as int, x4 as int, y4 as int));
                    assert(un as int == u_num_of(walls@[i as int], x as int, y as int, x4 as int, y4 as int));
                    assert(dnn as int == nden(walls@[i as int], x as int, y as int, x4 as int, y4 as int));
                    assert(tnn as int == nt(walls@[i as int], x as int, y as int, x4 as int, y4 as int));
                    assert(unn as int == nu(walls@[i as int], x as int, y as int, x4 as int, y4 as int));
                    assert(spec_hits(walls@[i as int], x as int, y as int, x4 as int, y4 as int));
                }
                let nearer: bool = unn * bden < bnum * dnn;
                if !have || nearer {
                    proof {
                        assert(best_upto(
                            walls@, x as int, y as int, x4 as int, y4 as int, i as int + 1,
                        ) == Some(i as int));
                    }
                    have = true;
                    bnum = unn;
                    bden = dnn;
                    bt = tnn;
                    bidx = i;
                } else {
                    proof {
                        assert(best_upto(
                            walls@, x as int, y as int, x4 as int, y4 as int, i as int + 1,
                        ) == Some(bidx as int));
                    }
                }
            } else {
                proof {
                    assert(!spec_hits(walls@[i as int], x as int, y as int, x4 as int, y4 as int));
                    assert(best_upto(walls@, x as int, y as int, x4 as int, y4 as int, i as int + 1)
                        == best_upto(walls@, x as int, y as int, x4 as int, y4 as int, i as int));
                }
            }
        } else {
            proof {
                assert(!spec_hits(walls@[i as int], x as int, y as int, x4 as int, y4 as int));
                assert(best_upto(walls@, x as int, y as int, x4 as int, y4 as int, i as int + 1)
                    == best_upto(walls@, x as int, y as int, x4 as int, y4 as int, i as int));
            }
        }
        i = i + 1;
    }
    if !have {
        return None;
    }
    let w: Wall = walls[bidx];
    proof {
        assert(wall_in_range(walls@[bidx as int]));
        lemma_mul_abs_bound(bt as int, w.x2 - w.x1, bden as int, 0x200_0000);
        lemma_mul_abs_bound(bt as int, w.y2 - w.y1, bden as int, 0x200_0000);
        lemma_tdiv_abs_bound(bt as int * (w.x2 - w.x1), bden as int, 0x200_0000);
        lemma_tdiv_abs_bound(bt as int * (w.y2 - w.y1), bden as int, 0x200_0000);
    }
    let px: i64 = w.x1 + div_trunc(bt * (w.x2 as i128 - w.x1 as i128), bden) as i64;
    let py: i64 = w.y1 + div_trunc(bt * (w.y2 as i128 - w.y1 as i128), bden) as i64;
    let d: i64 = dist(x, y, px, py);
    proof {
        lemma_mul_abs_bound(x - px, x as int - px, 0x400_0000, 0x400_0000);
        lemma_mul_abs_bound(y - py, y as int - py, 0x400_0000, 0x400_0000);
        crate::fixed::lemma_sqrt_below(
            spec_dist_sq(x as int, y as int, px as int, py as int), d as int, 0x4000_0000,
        );
    }
    Some((d, bidx))
}

/// X numerator of the exact (unrounded) crossing point relative to the
/// ray origin: the exact crossing has `x = x3 + exact_num_x / nden`.
pub open spec fn exact_num_x(w: Wall, x3: int, y3: int, x4: int, y4: int) -> int {
    nden(w, x3, y3, x4, y4) * (w.x1 - x3) + nt(w, x3, y3, x4, y4) * (w.x2 - w.x1)
}

/// Y numerator of the exact crossing point relative to the ray origin.
pub open spec fn exact_num_y(w: Wall, x3: int, y3: int, x4: int, y4: int) -> int {
    nden(w, x3, y3, x4, y4) * (w.y1 - y3) + nt(w, x3, y3, x4, y4) * (w.y2 - w.y1)
}

/// Numerator of the exact squared distance from the ray origin to the
/// crossing on `w`; the exact squared distance is this over `nden^2`.
pub open spec fn exact_dist_sq_num(w: Wall, x3: int, y3: int, x4: int, y4: int) -> int {
    exact_num_x(w, x3, y3, x4, y4) * exact_num_x(w, x3, y3, x4, y4)
        + exact_num_y(w, x3, y3, x4, y4) * exact_num_y(w, x3, y3, x4, y4)
}

/// Both factors of a product may be flipped together.
proof fn lemma_flip_both(p: int, q: int, r: int, s: int)
    by (nonlinear_arith)
    ensures
        (p - q) * (r - s) == (q - p) * (s - r),
{
}

/// Flipping the first factor negates the product.
proof fn lemma_flip_first(p: int, q: int, r: int, s: int)
    by (nonlinear_arith)
    ensures
        (p - q) * (r - s) == -((q - p) * (r - s)),
{
}

/// Flipping the second factor negates the product.
proof fn lemma_flip_second(p: int, q: int, r: int, s: int)
    by (nonlinear_arith)
    ensures
        (p - q) * (r - s) == -((p - q) * (s - r)),
{
}

/// A negated first factor negates the product.
proof fn lemma_neg_mul(a: int, b: int)
    by (nonlinear_arith)
    ensures
        (-a) * b == -(a * b),
{
}

/// One coordinate of Cramer's rule over the difference vectors: `(a,b)`
/// origin to wall start, `(e,f)` along the wall, `(g,h)` along the ray.
#[verifier::rlimit(100)]
proof fn lemma_cramer_coord(a: int, b: int, e: int, f: int, g: int, h: int)
    by (nonlinear_arith)
    ensures
        (e * h - f * g) * a + (b * g - a * h) * e == (e * b - f * a) * g,
{
}

/// Cramer's rule over the difference vectors: the solved crossing offset
/// from the origin is `u` times the ray vector.
proof fn lemma_cramer_core(
    a: int, b: int, e: int, f: int, g: int, h: int, den: int, t: int, u: int,
)
    requires
        den == e * h - f * g,
        t == b * g - a * h,
        u == e * b - f * a,
    ensures
        den * a + t * e == u * g,
        den * b + t * f == u * h,
{
    lemma_cramer_coord(a, b, e, f, g, h);
    // The y coordinate is the x coordinate of the mirrored system:
    // swapping the two axes negates every determinant.
    lemma_cramer_coord(b, a, f, e, h, g);
    lemma_neg_mul(f * g - e * h, b);
    lemma_neg_mul(a * h - b * g, f);
    lemma_neg_mul(f * a - e * b, h);
    assert(den * b == -((f * g - e * h) * b));
    assert(t * f == -((a * h - b * g) * f));
    assert(u * h == -((f * a - e * b) * h));
}

/// A product squared is the product of the squares.
proof fn lemma_sq_split(p: int, q: int)
    by (nonlinear_arith)
    ensures
        (p * q) * (p * q) == (p * p) * (q * q),
{
}

/// Factoring a common scale out of a scaled sum.
proof fn lemma_factor_scale(a: int, g: int, h: int, d: int)
    by (nonlinear_arith)
    ensures
        (a * g + a * h) * d == (a * d) * (g + h),
{
}

/// Regrouping of the squared crossing offset: scaling the numerator pair
/// `(n*g, n*h)` by `d*d` equals scaling the ray length by `(n*d)^2`.
proof fn lemma_sq_rearrange(n: int, d: int, g: int, h: int)
    ensures
        ((n * g) * (n * g) + (n * h) * (n * h)) * (d * d) == ((n * d) * (n * d)) * (g * g + h
            * h),
{
    lemma_sq_split(n, g);
    lemma_sq_split(n, h);
    lemma_sq_split(n, d);
    lemma_factor_scale(n * n, g * g, h * h, d * d);
}

/// A crossed wall has a positive normalized denominator and both
/// normalized parametric numerators strictly inside `(0, nden)`.
proof fn lemma_hits_normalized(w: Wall, x3: int, y3: int, x4: int, y4: int)
    requires
        spec_hits(w, x3, y3, x4, y4),
    ensures
        0 < nden(w, x3, y3, x4, y4),
        0 < nu(w, x3, y3, x4, y4) < nden(w, x3, y3, x4, y4),
        0 < nt(w, x3, y3, x4, y4) < nden(w, x3, y3, x4, y4),
{
}

/// The exact crossing offset is `u` times the ray vector, in normalized
/// numerators.
proof fn lemma_exact_on_ray(w: Wall, x3: int, y3: int, x4: int, y4: int)
    ensures
        exact_num_x(w, x3, y3, x4, y4) == nu(w, x3, y3, x4, y4) * (x4 - x3),
        exact_num_y(w, x3, y3, x4, y4) == nu(w, x3, y3, x4, y4) * (y4 - y3),
{
    let a = w.x1 - x3;
    let b = w.y1 - y3;
    let e = w.x2 - w.x1;
    let f = w.y2 - w.y1;
    let g = x4 - x3;
    let h = y4 - y3;
    let den = den_of(w, x3, y3, x4, y4);
    let t = t_num_of(w, x3, y3, x4, y4);
    let u = u_num_of(w, x3, y3, x4, y4);
    lemma_flip_both(w.x1 as int, w.x2 as int, y3, y4);
    lemma_flip_both(w.y1 as int, w.y2 as int, x3, x4);
    assert(den == e * h - f * g);
    lemma_flip_second(w.x1 as int, x3, y3, y4);
    lemma_flip_second(w.y1 as int, y3, x3, x4);
    assert(t == b * g - a * h);
    lemma_flip_first(w.x1 as int, w.x2 as int, w.y1 as int, y3);
    lemma_flip_first(w.y1 as int, w.y2 as int, w.x1 as int, x3);
    assert(u == e * b - f * a);
    lemma_cramer_core(a, b, e, f, g, h, den, t, u);
    if den >= 0 {
        assert(exact_num_x(w, x3, y3, x4, y4) == nu(w, x3, y3, x4, y4) * (x4 - x3));
        assert(exact_num_y(w, x3, y3, x4, y4) == nu(w, x3, y3, x4, y4) * (y4 - y3));
    } else {
        lemma_neg_mul(den, a);
        lemma_neg_mul(t, e);
        lemma_neg_mul(u, g);
        lemma_neg_mul(den, b);
        lemma_neg_mul(t, f);
        lemma_neg_mul(u, h);
        assert(exact_num_x(w, x3, y3, x4, y4) == nu(w, x3, y3, x4, y4) * (x4 - x3));
        assert(exact_num_y(w, x3, y3, x4, y4) == nu(w, x3, y3, x4, y4) * (y4 - y3));
    }
}

/// What the forward scan selects: `None` only over a stretch with no
/// crossed wall; a selected wall is crossed and no crossed wall in the
/// stretch lies strictly nearer along the ray.
pub proof fn lemma_best_upto_props(walls: Seq<Wall>, x3: int, y3: int, x4: int, y4: int, n: int)
    requires
        0 <= n <= walls.len(),
    ensures
        match best_upto(walls, x3, y3, x4, y4, n) {
            None => forall|i: int| 0 <= i < n ==> !spec_hits(#[trigger] walls[i], x3, y3, x4, y4),
            Some(j) => 0 <= j < n && spec_hits(walls[j], x3, y3, x4, y4) && forall|i: int|
                0 <= i < n && spec_hits(#[trigger] walls[i], x3, y3, x4, y4) ==> !u_lt(
                    walls[i], walls[j], x3, y3, x4, y4,
                ),
        },
    decreases n,
{
    if n > 0 {
        lemma_best_upto_props(walls, x3, y3, x4, y4, n - 1);
        let c = n - 1;
        let prev = best_upto(walls, x3, y3, x4, y4, c);
        if spec_hits(walls[c], x3, y3, x4, y4) {
            lemma_hits_normalized(walls[c], x3, y3, x4, y4);
            match prev {
                None => {
                }
                Some(j) => {
                    lemma_hits_normalized(walls[j], x3, y3, x4, y4);
                    if u_lt(walls[c], walls[j], x3, y3, x4, y4) {
                        assert forall|i: int|
                            0 <= i < n && spec_hits(#[trigger] walls[i], x3, y3, x4, y4)
                                implies !u_lt(walls[i], walls[c], x3, y3, x4, y4) by {
                            if i < c {
                                lemma_hits_normalized(walls[i], x3, y3, x4, y4);
                                crate::fixed::lemma_frac_lt_le_trans(
                                    nu(walls[c], x3, y3, x4, y4),
                                    nden(walls[c], x3, y3, x4, y4),
                                    nu(walls[j], x3, y3, x4, y4),
                                    nden(walls[j], x3, y3, x4, y4),
                                    nu(walls[i], x3, y3, x4, y4),
                                    nden(walls[i], x3, y3, x4, y4),
                                );
                            }
                        }
                    }
                }
            }
        }
    }
}

/// THE NEAREST WALL WINS: whichever wall the scan selects, its exact
/// crossing lies no farther from the ray origin than the exact crossing
/// of any other crossed wall. Squared distances are compared as exact
/// fractions, cross-multiplied by the squared denominators.
pub proof fn lemma_best_is_nearest(
    walls: Seq<Wall>, x3: int, y3: int, x4: int, y4: int, j: int, i: int,
)
    requires
        best_upto(walls, x3, y3, x4, y4, walls.len() as int) == Some(j),
        0 <= i < walls.len(),
        spec_hits(walls[i], x3, y3, x4, y4),
    ensures
        0 <= j < walls.len(),
        spec_hits(walls[j], x3, y3, x4, y4),
        exact_dist_sq_num(walls[j], x3, y3, x4, y4)
            * (nden(walls[i], x3, y3, x4, y4) * nden(walls[i], x3, y3, x4, y4))
            <= exact_dist_sq_num(walls[i], x3, y3, x4, y4)
                * (nden(walls[j], x3, y3, x4, y4) * nden(walls[j], x3, y3, x4, y4)),
{
    lemma_best_upto_props(walls, x3, y3, x4, y4, walls.len() as int);
    let wj = walls[j];
    let wi = walls[i];
    lemma_hits_normalized(wj, x3, y3, x4, y4);
    lemma_hits_normalized(wi, x3, y3, x4, y4);
    lemma_exact_on_ray(wj, x3, y3, x4, y4);
    lemma_exact_on_ray(wi, x3, y3, x4, y4);
    let nj = nu(wj, x3, y3, x4, y4);
    let dj = nden(wj, x3, y3, x4, y4);
    let ni = nu(wi, x3, y3, x4, y4);
    let di = nden(wi, x3, y3, x4, y4);
    let g = x4 - x3;
    let h = y4 - y3;
    // !u_lt(wi, wj) says the selected crossing is at most as far along
    // the ray: nj * di <= ni * dj.
    assert(nj * di <= ni * dj);
    crate::fixed::lemma_mul_pos(nj, di);
    crate::fixed::lemma_sq_le(nj * di, ni * dj);
    crate::fixed::lemma_sq_nonneg(g);
    crate::fixed::lemma_sq_nonneg(h);
    crate::fixed::lemma_mul_le_nonneg(
        (nj * di) * (nj * di), (ni * dj) * (ni * dj), g * g + h * h,
    );
    lemma_sq_rearrange(nj, di, g, h);
    lemma_sq_rearrange(ni, dj, g, h);
    assert(exact_dist_sq_num(wj, x3, y3, x4, y4) == (nj * g) * (nj * g) + (nj * h) * (nj * h));
    assert(exact_dist_sq_num(wi, x3, y3, x4, y4) == (ni * g) * (ni * g) + (ni * h) * (ni * h));
}

/// THE CONTRACT OF `cast` IS DETERMINISTIC: two results both meeting it
/// for the same ray and wall set are equal. Casting an unmodified wall
/// set twice therefore yields identical results.
pub proof fn lemma_cast_deterministic(
    walls: Seq<Wall>, x: int, y: int, cos_v: int, sin_v: int, clip: int,
    h1: Option<(i64, usize)>, h2: Option<(i64, usize)>,
)
    requires
        cast_post(walls, x, y, cos_v, sin_v, clip, h1),
        cast_post(walls, x, y, cos_v, sin_v, clip, h2),
    ensures
        h1 == h2,
{
    let x4 = ray_end_x(x, cos_v, clip);
    let y4 = ray_end_y(y, sin_v, clip);
    match (h1, h2) {
        (Some(a), Some(b)) => {
            assert(a.1 == b.1);
            crate::fixed::lemma_sqrt_unique(
                hit_dist_sq(walls[a.1 as int], x, y, x4, y4), a.0 as int, b.0 as int,
            );
            assert(a.0 == b.0);
            assert(a == b);
        }
        _ => {
        }
    }
}

} // verus!
