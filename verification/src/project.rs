//! Column projector: from a ray's hit to a drawn screen column.
//!
//! The raw hit distance is corrected for the fisheye effect by dividing
//! by the cosine of the column's angular offset from the view center,
//! then turned into a projected half-height by an inverse relation
//! `k * SCALE / corrected`. A miss, or a degenerate zero distance, is
//! rendered as a zero-height column in the background tone — never a
//! division by zero.

use vstd::prelude::*;

use crate::caster::Wall;
use crate::caster::best_upto;
use crate::caster::cast;
use crate::caster::dir_in_range;
use crate::caster::hit_dist_sq;
use crate::caster::ray_end_x;
use crate::caster::ray_end_y;
use crate::caster::wall_set_ok;
use crate::fixed::COORD_LIMIT;
use crate::fixed::SCALE;
use crate::fixed::div_trunc;
use crate::fixed::lemma_mul_abs_bound;
use crate::fixed::lemma_mul_le_nonneg;
use crate::fixed::lemma_sqrt_of;
use crate::fixed::lemma_tdiv_abs_bound;
use crate::fixed::sqrt_of;
use crate::fixed::tdiv;
use crate::geometry::in_coord_range;

verus! {

/// Shade drawn for a column whose ray hit nothing.
pub const BACKGROUND_SHADE: i64 = 0;

/// One rendered screen column: the projected half-height of the wall
/// slice (in fixed-point pixels above and below the horizon) and its
/// grayscale shade.
#[derive(Clone, Copy, PartialEq, Eq, Structural, Debug)]
pub struct ColumnRender {
    pub half_height: i64,
    pub shade: i64,
}

/// Fisheye-corrected distance: the raw distance divided by the cosine
/// of the column's angular offset, in fixed point.
pub open spec fn spec_fisheye(d: int, cos_off: int) -> int {
    tdiv(d * (SCALE as int), cos_off)
}

/// Projected half-height: inverse relation `k / corrected`, in fixed
/// point, and zero for a degenerate zero distance.
pub open spec fn spec_half_height(k: int, corrected: int) -> int {
    if corrected == 0 {
        0
    } else {
        tdiv(k * (SCALE as int), corrected)
    }
}

/// Fisheye correction of a raw hit distance.
///
/// At the view center the angular offset is zero, its cosine is one
/// (`cos_off == SCALE`), and the correction is an exact identity.
pub fn correct_fisheye(d: i64, cos_off: i64) -> (c: i64)
    requires
        0 <= d <= 0x4000_0000,
        0 < cos_off <= SCALE,
    ensures
        c == spec_fisheye(d as int, cos_off as int),
        0 <= c,
        cos_off == SCALE ==> c == d,
{
    proof {
        lemma_mul_abs_bound(d as int, SCALE as int, 0x4000_0000, 1024);
        lemma_mul_le_nonneg(0, d as int, SCALE as int);
        lemma_mul_le_nonneg(1, cos_off as int, 0x100_0000_0000);
        lemma_tdiv_abs_bound(d as int * (SCALE as int), cos_off as int, 0x100_0000_0000);
        vstd::arithmetic::div_mod::lemma_div_pos_is_pos(
            d as int * (SCALE as int), cos_off as int,
        );
        if cos_off == SCALE {
            vstd::arithmetic::div_mod::lemma_div_by_multiple(d as int, SCALE as int);
        }
    }
    let wide: i128 = d as i128 * SCALE as i128;
    div_trunc(wide, cos_off as i128) as i64
}

/// Projected half-height of a column from its corrected distance.
///
/// A zero corrected distance is guarded explicitly and renders as a
/// zero-height column.
pub fn half_height(k: i64, corrected: i64) -> (hh: i64)
    requires
        0 <= k <= 0x100_0000,
        0 <= corrected,
    ensures
        hh == spec_half_height(k as int, corrected as int),
        0 <= hh,
{
    if corrected == 0 {
        return 0;
    }
    proof {
        lemma_mul_abs_bound(k as int, SCALE as int, 0x100_0000, 1024);
        lemma_mul_le_nonneg(0, k as int, SCALE as int);
        lemma_mul_le_nonneg(1, corrected as int, 0x4_0000_0000);
        lemma_tdiv_abs_bound(k as int * (SCALE as int), corrected as int, 0x4_0000_0000);
        vstd::arithmetic::div_mod::lemma_div_pos_is_pos(
            k as int * (SCALE as int), corrected as int,
        );
    }
    div_trunc(k as i128 * SCALE as i128, corrected as i128) as i64
}

/// Turns a cast result into a drawn column: background and zero height
/// on a miss, else the fisheye-corrected projected height and the hit
/// wall's shade from the lighting table.
pub fn shade_column(hit: Option<(i64, usize)>, lights: &Vec<i64>, cos_off: i64, k: i64) -> (col:
    ColumnRender)
    requires
        0 < cos_off <= SCALE,
        0 <= k <= 0x100_0000,
        hit matches Some(h) ==> h.1 < lights@.len() && 0 <= h.0 <= 0x4000_0000,
    ensures
        hit is None ==> col == (ColumnRender { half_height: 0, shade: BACKGROUND_SHADE }),
        hit matches Some(h) ==> col.shade == lights@[h.1 as int] && col.half_height
            == spec_half_height(k as int, spec_fisheye(h.0 as int, cos_off as int))
            && 0 <= col.half_height,
{
    match hit {
        None => ColumnRender { half_height: 0, shade: BACKGROUND_SHADE },
        Some((d, idx)) => {
            let c: i64 = correct_fisheye(d, cos_off);
            let hh: i64 = half_height(k, c);
            ColumnRender { half_height: hh, shade: lights[idx] }
        },
    }
}

/// The whole per-column pipeline: cast the column's ray, correct the
/// fisheye, project the height, look the shade up. A miss renders as a
/// zero-height background column — never an error.
pub fn render_column(
    x: i64, y: i64, cos_v: i64, sin_v: i64, cos_off: i64, clip: i64,
    walls: &Vec<Wall>, lights: &Vec<i64>, k: i64,
) -> (col: ColumnRender)
    requires
        in_coord_range(x as int),
        in_coord_range(y as int),
        dir_in_range(cos_v as int),
        dir_in_range(sin_v as int),
        0 <= clip <= COORD_LIMIT,
        wall_set_ok(walls@),
        lights@.len() == walls@.len(),
        0 < cos_off <= SCALE,
        0 <= k <= 0x100_0000,
    ensures
        ({
            let x4 = ray_end_x(x as int, cos_v as int, clip as int);
            let y4 = ray_end_y(y as int, sin_v as int, clip as int);
            match best_upto(walls@, x as int, y as int, x4, y4, walls@.len() as int) {
                None => col == (ColumnRender { half_height: 0, shade: BACKGROUND_SHADE }),
                Some(j) => col.shade == lights@[j] && col.half_height == spec_half_height(
                    k as int,
                    spec_fisheye(
                        sqrt_of(hit_dist_sq(walls@[j], x as int, y as int, x4, y4)),
                        cos_off as int,
                    ),
                ),
            }
        }),
{
    let hit: Option<(i64, usize)> = cast(x, y, cos_v, sin_v, clip, walls);
    proof {
        match hit {
            Option::Some(h) => {
                lemma_sqrt_of(
                    hit_dist_sq(
                        walls@[h.1 as int],
                        x as int,
                        y as int,
                        ray_end_x(x as int, cos_v as int, clip as int),
                        ray_end_y(y as int, sin_v as int, clip as int),
                    ),
                    h.0 as int,
                );
            },
            Option::None => {
            },
        }
    }
    shade_column(hit, lights, cos_off, k)
}

} // verus!
