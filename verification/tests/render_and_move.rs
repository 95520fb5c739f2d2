use raycaster::caster::{cast, Wall};
use raycaster::fixed::SCALE;
use raycaster::lighting::{build_lighting, light_intensity};
use raycaster::observer::{
    apply_step, ray_walk, step_if_clear, tick, turn, InputState, MoveTrig, Observer,
};
use raycaster::project::{
    correct_fisheye, half_height, render_column, shade_column, ColumnRender, BACKGROUND_SHADE,
};

fn w(x1: i64, y1: i64, x2: i64, y2: i64) -> Wall {
    Wall { x1: x1 * SCALE, y1: y1 * SCALE, x2: x2 * SCALE, y2: y2 * SCALE }
}

fn no_keys() -> InputState {
    InputState {
        forward: false,
        strafe_right: false,
        backward: false,
        strafe_left: false,
        turn_left: false,
        turn_right: false,
    }
}

/// Trigonometry for a heading of 0 degrees, probe and movement alike.
fn trig_east() -> MoveTrig {
    MoveTrig { probe_cos: SCALE, probe_sin: 0, move_cos: SCALE, move_sin: 0 }
}

#[test]
fn fisheye_correction_is_identity_at_the_center_column() {
    // cos(0) == 1, so the corrected distance equals the raw one.
    assert_eq!(correct_fisheye(0, SCALE), 0);
    assert_eq!(correct_fisheye(370 * SCALE, SCALE), 370 * SCALE);
    assert_eq!(correct_fisheye(0x4000_0000, SCALE), 0x4000_0000);
}

#[test]
fn fisheye_correction_stretches_off_center_distances() {
    // cos == 1/2 doubles the distance; rounding is toward zero.
    assert_eq!(correct_fisheye(1000, SCALE / 2), 2000);
    assert_eq!(correct_fisheye(1001, 683), 1500);
}

#[test]
fn half_height_is_inverse_in_the_corrected_distance() {
    // k * SCALE / corrected, and an explicit zero-distance guard.
    assert_eq!(half_height(3200, 0), 0);
    assert_eq!(half_height(3200, 40 * SCALE), 80);
    assert_eq!(half_height(3200, 80 * SCALE), 40);
}

#[test]
fn lighting_is_the_folded_angle_over_360() {
    // theta in fixed-point degrees; intensity == |theta| / 360.
    assert_eq!(light_intensity(0), 0);
    assert_eq!(light_intensity(180 * SCALE), SCALE / 2);
    assert_eq!(light_intensity(-90 * SCALE), SCALE / 4);
    assert_eq!(light_intensity(90 * SCALE), SCALE / 4);
}

#[test]
fn an_empty_wall_set_gets_an_empty_lighting_table() {
    let lights: Vec<i64> = build_lighting(&Vec::new());
    assert!(lights.is_empty());
}

#[test]
fn lighting_stays_within_half_scale_and_is_pure() {
    let thetas: Vec<i64> = vec![0, 180 * SCALE, -90 * SCALE, 45 * SCALE, -179 * SCALE, 1];
    let once: Vec<i64> = build_lighting(&thetas);
    let twice: Vec<i64> = build_lighting(&thetas);
    assert_eq!(once, twice);
    assert_eq!(once.len(), thetas.len());
    for v in once {
        assert!(0 <= v && v <= SCALE / 2);
    }
}

#[test]
fn missed_columns_render_as_zero_height_background() {
    // No wall at all: the column renders, with zero height and the
    // background shade — no error, no division by zero.
    let walls: Vec<Wall> = Vec::new();
    let lights: Vec<i64> = Vec::new();
    let col: ColumnRender =
        render_column(20 * SCALE, 20 * SCALE, SCALE, 0, SCALE, 600 * SCALE, &walls, &lights, 3200);
    assert_eq!(col, ColumnRender { half_height: 0, shade: BACKGROUND_SHADE });
    let also: ColumnRender = shade_column(None, &lights, SCALE, 3200);
    assert_eq!(also, ColumnRender { half_height: 0, shade: BACKGROUND_SHADE });
}

#[test]
fn hit_columns_take_their_wall_shade_and_projected_height() {
    // One wall 40 units ahead; center column, k = 3200.
    let walls: Vec<Wall> = vec![w(60, 10, 60, 90)];
    let lights: Vec<i64> = vec![256];
    let col: ColumnRender =
        render_column(20 * SCALE, 50 * SCALE, SCALE, 0, SCALE, 600 * SCALE, &walls, &lights, 3200);
    assert_eq!(col.shade, 256);
    // Raw distance 40 units, corrected unchanged at the center:
    // half-height == 3200 * SCALE / (40 * SCALE) == 80.
    assert_eq!(col.half_height, 80);
}

#[test]
fn probe_blocks_movement_toward_a_near_wall_when_enforced() {
    // A wall five units ahead, probe range ten: enforced probing
    // refuses, the always-allow policy does not.
    let walls: Vec<Wall> = vec![w(25, 10, 25, 90)];
    assert!(!ray_walk(20 * SCALE, 50 * SCALE, SCALE, 0, &walls, true));
    assert!(ray_walk(20 * SCALE, 50 * SCALE, SCALE, 0, &walls, false));
    // A wall fifty units ahead is beyond the probe.
    let far: Vec<Wall> = vec![w(70, 10, 70, 90)];
    assert!(ray_walk(20 * SCALE, 50 * SCALE, SCALE, 0, &far, true));
}

#[test]
fn steps_move_by_the_scaled_direction() {
    let p: (i64, i64) = apply_step(20 * SCALE, 50 * SCALE, SCALE, 0, SCALE);
    assert_eq!(p, (21 * SCALE, 50 * SCALE));
    // The sine is negated: a positive sine moves toward smaller y.
    let q: (i64, i64) = apply_step(20 * SCALE, 50 * SCALE, 0, SCALE, SCALE);
    assert_eq!(q, (20 * SCALE, 49 * SCALE));
}

#[test]
fn gated_step_stays_put_when_blocked() {
    let walls: Vec<Wall> = vec![w(25, 10, 25, 90)];
    let blocked: (i64, i64) =
        step_if_clear(20 * SCALE, 50 * SCALE, trig_east(), SCALE, &walls, true);
    assert_eq!(blocked, (20 * SCALE, 50 * SCALE));
    let allowed: (i64, i64) =
        step_if_clear(20 * SCALE, 50 * SCALE, trig_east(), SCALE, &walls, false);
    assert_eq!(allowed, (21 * SCALE, 50 * SCALE));
}

#[test]
fn turning_normalizes_into_one_turn() {
    assert_eq!(turn(0, -SCALE), 360 * SCALE - SCALE);
    assert_eq!(turn(360 * SCALE - SCALE, 2 * SCALE), SCALE);
    assert_eq!(turn(90 * SCALE, SCALE), 91 * SCALE);
}

#[test]
fn a_tick_applies_movement_then_turn() {
    let walls: Vec<Wall> = vec![w(200, 10, 200, 90)];
    let obs: Observer = Observer { x: 20 * SCALE, y: 50 * SCALE, angle: 0 };
    let mut input: InputState = no_keys();
    input.forward = true;
    input.turn_left = true;
    let t: MoveTrig = trig_east();
    let next: Observer = tick(obs, input, t, t, t, t, SCALE, SCALE, &walls, true);
    assert_eq!(next.x, 21 * SCALE);
    assert_eq!(next.y, 50 * SCALE);
    assert_eq!(next.angle, SCALE);
}

#[test]
fn an_idle_tick_changes_nothing() {
    let walls: Vec<Wall> = vec![w(200, 10, 200, 90)];
    let obs: Observer = Observer { x: 20 * SCALE, y: 50 * SCALE, angle: 123 * SCALE };
    let t: MoveTrig = trig_east();
    let next: Observer = tick(obs, no_keys(), t, t, t, t, SCALE, SCALE, &walls, true);
    assert_eq!(next, obs);
}

#[test]
fn the_full_reference_sweep_never_fails() {
    // Sweep a whole 400-column frame from the reference start, as the
    // frame loop would: every column renders without any error.
    let walls: Vec<Wall> = vec![
        w(10, 10, 390, 10),
        w(390, 10, 390, 390),
        w(390, 390, 10, 390),
        w(10, 390, 10, 10),
        w(200, 40, 300, 300),
    ];
    let lights: Vec<i64> = build_lighting(&vec![0, 90 * SCALE, 0, 90 * SCALE, 69 * SCALE]);
    for i in 0..400i64 {
        // A crude fixed-point cosine ramp across the field of view:
        // enough to exercise every column with legal directions.
        let cos_v: i64 = SCALE - (i - 200).abs() * 2;
        let sin_v: i64 = (i - 200) * 2;
        let cos_off: i64 = SCALE - (i - 200).abs();
        let col: ColumnRender = render_column(
            20 * SCALE,
            20 * SCALE,
            cos_v,
            sin_v,
            cos_off,
            600 * SCALE,
            &walls,
            &lights,
            4000,
        );
        assert!(col.half_height >= 0);
        assert!(col.shade == BACKGROUND_SHADE || (0 <= col.shade && col.shade <= SCALE / 2));
    }
}

#[test]
fn two_walls_on_one_ray_report_the_nearer_distance() {
    // Same scene as the caster test, but checked through the full
    // pipeline: the projected height corresponds to the near wall.
    let near_then_far: Vec<Wall> = vec![w(100, 10, 100, 90), w(200, 10, 200, 90)];
    let hit: Option<(i64, usize)> =
        cast(10 * SCALE, 50 * SCALE, SCALE, 0, 300 * SCALE, &near_then_far);
    let (d, idx): (i64, usize) = hit.unwrap();
    assert_eq!(idx, 0);
    assert_eq!(d, 90 * SCALE);
}
