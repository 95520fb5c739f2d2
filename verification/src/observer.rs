//! Observer state: position and heading, stepped once per simulation
//! tick by movement and rotation commands gated by the collision probe.
//!
//! The probe casts a short ray ahead of a proposed movement; whether its
//! verdict actually gates the movement is an explicit policy switch
//! (`enforce`), so a caller may choose probe-enforced movement or the
//! always-allow behavior. Headings are fixed-point degrees normalized
//! into `[0, 360)`; direction vectors arrive as fixed-point cosine and
//! negated-later sine pairs, as everywhere in this crate.

use vstd::prelude::*;

use crate::caster::Wall;
use crate::caster::best_upto;
use crate::caster::cast;
use crate::caster::dir_in_range;
use crate::caster::ray_end_x;
use crate::caster::ray_end_y;
use crate::caster::wall_set_ok;
use crate::fixed::COORD_LIMIT;
use crate::fixed::SCALE;
use crate::fixed::div_trunc;
use crate::fixed::lemma_mul_abs_bound;
use crate::fixed::lemma_tdiv_abs_bound;
use crate::fixed::tdiv;
use crate::geometry::in_coord_range;

verus! {

/// Range of the short collision probe ray, in fixed-point ticks
/// (ten world units).
pub const PROBE_CLIP: i64 = 10 * SCALE;

/// A full turn in fixed-point degrees.
pub const FULL_TURN: i64 = 360 * SCALE;

/// Largest movement step accepted per tick, in fixed-point ticks.
pub const STEP_LIMIT: i64 = 0x10_0000;

/// The single moving viewpoint: position and heading (fixed-point
/// degrees in `[0, FULL_TURN)`).
#[derive(Clone, Copy, PartialEq, Eq, Structural, Debug)]
pub struct Observer {
    pub x: i64,
    pub y: i64,
    pub angle: i64,
}

/// Keys read once per tick; `true` means pressed.
#[derive(Clone, Copy, PartialEq, Eq, Structural, Debug)]
pub struct InputState {
    pub forward: bool,
    pub strafe_right: bool,
    pub backward: bool,
    pub strafe_left: bool,
    pub turn_left: bool,
    pub turn_right: bool,
}

/// Fixed-point trigonometry of one movement command: the probe ray's
/// direction and the actual movement direction. The two may differ — a
/// probe can aim off the movement heading, say half a field of view
/// aside.
#[derive(Clone, Copy, PartialEq, Eq, Structural, Debug)]
pub struct MoveTrig {
    pub probe_cos: i64,
    pub probe_sin: i64,
    pub move_cos: i64,
    pub move_sin: i64,
}

/// The trigonometry of a movement command is within fixed-point range.
pub open spec fn trig_in_range(t: MoveTrig) -> bool {
    dir_in_range(t.probe_cos as int) && dir_in_range(t.probe_sin as int)
        && dir_in_range(t.move_cos as int) && dir_in_range(t.move_sin as int)
}

/// Position after one unchecked step along `(cos_v, sin_v)`: the sine
/// moves the observer toward smaller y (screen convention).
pub open spec fn spec_stepped(x: int, y: int, cos_v: int, sin_v: int, step: int) -> (int, int) {
    (x + tdiv(step * cos_v, SCALE as int), y - tdiv(step * sin_v, SCALE as int))
}

/// The collision probe allows a movement: either the policy does not
/// enforce probing, or the short probe ray hits no wall.
pub open spec fn spec_probe_clear(
    x: int, y: int, cos_v: int, sin_v: int, walls: Seq<Wall>, enforce: bool,
) -> bool {
    !enforce || best_upto(
        walls,
        x,
        y,
        ray_end_x(x, cos_v, PROBE_CLIP as int),
        ray_end_y(y, sin_v, PROBE_CLIP as int),
        walls.len() as int,
    ) is None
}

/// Position after one probed movement command: stepped if the probe
/// clears it, unchanged otherwise.
pub open spec fn spec_step_if_clear(
    x: int, y: int, t: MoveTrig, step: int, walls: Seq<Wall>, enforce: bool,
) -> (int, int) {
    if spec_probe_clear(x, y, t.probe_cos as int, t.probe_sin as int, walls, enforce) {
        spec_stepped(x, y, t.move_cos as int, t.move_sin as int, step)
    } else {
        (x, y)
    }
}

/// One unchecked movement step.
pub fn apply_step(x: i64, y: i64, cos_v: i64, sin_v: i64, step: i64) -> (p: (i64, i64))
    requires
        -(COORD_LIMIT as int) + step <= x <= COORD_LIMIT - step,
        -(COORD_LIMIT as int) + step <= y <= COORD_LIMIT - step,
        dir_in_range(cos_v as int),
        dir_in_range(sin_v as int),
        0 <= step <= STEP_LIMIT,
    ensures
        (p.0 as int, p.1 as int) == spec_stepped(x as int, y as int, cos_v as int, sin_v as int, step as int),
        x - step <= p.0 <= x + step,
        y - step <= p.1 <= y + step,
        in_coord_range(p.0 as int),
        in_coord_range(p.1 as int),
{
    proof {
        lemma_mul_abs_bound(step as int, cos_v as int, 0x10_0000, 1024);
        lemma_mul_abs_bound(step as int, sin_v as int, 0x10_0000, 1024);
        lemma_tdiv_abs_bound(step as int * cos_v as int, 1024, 0x10_0000);
        lemma_tdiv_abs_bound(step as int * sin_v as int, 1024, 0x10_0000);
        lemma_mul_abs_bound(step as int, cos_v as int, step as int, 1024);
        lemma_mul_abs_bound(step as int, sin_v as int, step as int, 1024);
        lemma_tdiv_abs_bound(step as int * cos_v as int, 1024, step as int);
        lemma_tdiv_abs_bound(step as int * sin_v as int, 1024, step as int);
    }
    let dx: i64 = div_trunc(step as i128 * cos_v as i128, SCALE as i128) as i64;
    let dy: i64 = div_trunc(step as i128 * sin_v as i128, SCALE as i128) as i64;
    (x + dx, y - dy)
}

/// The collision probe: casts a short ray along a proposed heading and
/// reports whether movement is allowed under the chosen policy —
/// probe-enforced (`enforce`), or always-allow.
pub fn ray_walk(
    x: i64, y: i64, cos_v: i64, sin_v: i64, walls: &Vec<Wall>, enforce: bool,
) -> (ok: bool)
    requires
        in_coord_range(x as int),
        in_coord_range(y as int),
        dir_in_range(cos_v as int),
        dir_in_range(sin_v as int),
        wall_set_ok(walls@),
    ensures
        ok == spec_probe_clear(x as int, y as int, cos_v as int, sin_v as int, walls@, enforce),
{
    if !enforce {
        return true;
    }
    let probe: Option<(i64, usize)> = cast(x, y, cos_v, sin_v, PROBE_CLIP, walls);
    match probe {
        None => true,
        Some(_) => false,
    }
}

/// One probed movement command: probe ahead, then step only if allowed.
pub fn step_if_clear(
    x: i64, y: i64, t: MoveTrig, step: i64, walls: &Vec<Wall>, enforce: bool,
) -> (p: (i64, i64))
    requires
        -(COORD_LIMIT as int) + step <= x <= COORD_LIMIT - step,
        -(COORD_LIMIT as int) + step <= y <= COORD_LIMIT - step,
        trig_in_range(t),
        0 <= step <= STEP_LIMIT,
        wall_set_ok(walls@),
    ensures
        (p.0 as int, p.1 as int) == spec_step_if_clear(
            x as int, y as int, t, step as int, walls@, enforce,
        ),
        x - step <= p.0 <= x + step,
        y - step <= p.1 <= y + step,
{
    if ray_walk(x, y, t.probe_cos, t.probe_sin, walls, enforce) {
        apply_step(x, y, t.move_cos, t.move_sin, step)
    } else {
        (x, y)
    }
}

/// A heading plus a delta, normalized back into `[0, FULL_TURN)`.
pub fn turn(angle: i64, delta: i64) -> (r: i64)
    requires
        0 <= angle < FULL_TURN,
        -FULL_TURN <= delta <= FULL_TURN,
    ensures
        r == (angle + delta) % (FULL_TURN as int),
        0 <= r < FULL_TURN,
{
    let s: i64 = angle + delta;
    if s < 0 {
        s + FULL_TURN
    } else if s >= FULL_TURN {
        s - FULL_TURN
    } else {
        s
    }
}

/// Heading after one tick's turn commands: left adds, right subtracts,
/// each normalized in turn.
pub open spec fn spec_turned(angle: int, input: InputState, turn_step: int) -> int {
    let a1 = if input.turn_left {
        (angle + turn_step) % (FULL_TURN as int)
    } else {
        angle
    };
    if input.turn_right {
        (a1 - turn_step) % (FULL_TURN as int)
    } else {
        a1
    }
}

/// Position after one tick's movement commands, applied in the fixed
/// order forward, strafe-right, backward, strafe-left, each gated by
/// its own probe.
pub open spec fn spec_tick_pos(
    x: int, y: int, input: InputState, forward: MoveTrig, right: MoveTrig, backward: MoveTrig,
    left: MoveTrig, step: int, walls: Seq<Wall>, enforce: bool,
) -> (int, int) {
    let p1 = if input.forward {
        spec_step_if_clear(x, y, forward, step, walls, enforce)
    } else {
        (x, y)
    };
    let p2 = if input.strafe_right {
        spec_step_if_clear(p1.0, p1.1, right, step, walls, enforce)
    } else {
        p1
    };
    let p3 = if input.backward {
        spec_step_if_clear(p2.0, p2.1, backward, step, walls, enforce)
    } else {
        p2
    };
    if input.strafe_left {
        spec_step_if_clear(p3.0, p3.1, left, step, walls, enforce)
    } else {
        p3
    }
}

/// One simulation tick of the observer: the four movement commands in
/// their fixed order, each gated by its own collision probe, then the
/// turn commands, the heading normalized into `[0, FULL_TURN)`.
pub fn tick(
    obs: Observer, input: InputState, forward: MoveTrig, right: MoveTrig, backward: MoveTrig,
    left: MoveTrig, step: i64, turn_step: i64, walls: &Vec<Wall>, enforce: bool,
) -> (next: Observer)
    requires
        -(COORD_LIMIT as int) + 4 * step <= obs.x <= COORD_LIMIT - 4 * step,
        -(COORD_LIMIT as int) + 4 * step <= obs.y <= COORD_LIMIT - 4 * step,
        0 <= obs.angle < FULL_TURN,
        trig_in_range(forward),
        trig_in_range(right),
        trig_in_range(backward),
        trig_in_range(left),
        0 <= step <= STEP_LIMIT,
        0 <= turn_step <= FULL_TURN,
        wall_set_ok(walls@),
    ensures
        (next.x as int, next.y as int) == spec_tick_pos(
            obs.x as int, obs.y as int, input, forward, right, backward, left, step as int,
            walls@, enforce,
        ),
        next.angle == spec_turned(obs.angle as int, input, turn_step as int),
        0 <= next.angle < FULL_TURN,
{
    let mut x: i64 = obs.x;
    let mut y: i64 = obs.y;
    if input.forward {
        let p: (i64, i64) = step_if_clear(x, y, forward, step, walls, enforce);
        x = p.0;
        y = p.1;
    }
    if input.strafe_right {
        let p: (i64, i64) = step_if_clear(x, y, right, step, walls, enforce);
        x = p.0;
        y = p.1;
    }
    if input.backward {
        let p: (i64, i64) = step_if_clear(x, y, backward, step, walls, enforce);
        x = p.0;
        y = p.1;
    }
    if input.strafe_left {
        let p: (i64, i64) = step_if_clear(x, y, left, step, walls, enforce);
        x = p.0;
        y = p.1;
    }
    let mut angle: i64 = obs.angle;
    if input.turn_left {
        angle = turn(angle, turn_step);
    }
    if input.turn_right {
        angle = turn(angle, -turn_step);
    }
    Observer { x, y, angle }
}

} // verus!
