//! Lighting model: one intensity per wall, from the wall's orientation.
//!
//! The orientation angle of a wall (`atan2` of its direction, in
//! fixed-point degrees, in `(-180, 180]`) is folded by absolute value
//! into `[0, 180]` and normalized by 360, giving a grayscale intensity
//! in `[0, 1/2]` — in fixed point, `[0, SCALE/2]`. The table is built
//! once from the static wall set and never depends on the observer.

use vstd::prelude::*;

use crate::fixed::SCALE;

verus! {

/// Half a degree-turn in fixed-point ticks: the angle fold's bound.
pub const HALF_TURN: i64 = 180 * SCALE;

/// Intensity of a wall whose orientation angle is `theta`
/// (fixed-point degrees): `|theta| / 360`, rounded down.
pub open spec fn spec_intensity(theta: int) -> int {
    (if theta >= 0 { theta } else { -theta }) / 360
}

/// Intensity of one wall from its orientation angle.
///
/// The intensity is a pure function of the angle, hence of the static
/// wall geometry alone, and always lies in `[0, SCALE/2]`.
pub fn light_intensity(theta: i64) -> (r: i64)
    requires
        -HALF_TURN < theta <= HALF_TURN,
    ensures
        r == spec_intensity(theta as int),
        0 <= r <= SCALE / 2,
{
    let mag: i64 = if theta >= 0 { theta } else { -theta };
    mag / 360
}

/// The whole lighting table: one intensity per wall orientation angle,
/// each pinned to [`spec_intensity`] and bounded by `[0, SCALE/2]`.
pub fn build_lighting(thetas: &Vec<i64>) -> (lights: Vec<i64>)
    requires
        forall|i: int| 0 <= i < thetas@.len() ==> -HALF_TURN < #[trigger] thetas@[i] <= HALF_TURN,
    ensures
        lights@.len() == thetas@.len(),
        forall|i: int| 0 <= i < thetas@.len() ==> #[trigger] lights@[i] == spec_intensity(
            thetas@[i] as int,
        ),
        forall|i: int| 0 <= i < thetas@.len() ==> 0 <= #[trigger] lights@[i] <= SCALE / 2,
{
    let mut lights: Vec<i64> = Vec::new();
    let mut i: usize = 0;
    while i < thetas.len()
        invariant
            0 <= i <= thetas@.len(),
            lights@.len() == i,
            forall|k: int| 0 <= k < thetas@.len() ==> -HALF_TURN < #[trigger] thetas@[k]
                <= HALF_TURN,
            forall|k: int| 0 <= k < i ==> #[trigger] lights@[k] == spec_intensity(
                thetas@[k] as int,
            ),
            forall|k: int| 0 <= k < i ==> 0 <= #[trigger] lights@[k] <= SCALE / 2,
        decreases thetas@.len() - i,
    {
        let r: i64 = light_intensity(thetas[i]);
        lights.push(r);
        i = i + 1;
    }
    lights
}

} // verus!
