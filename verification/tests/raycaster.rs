use raycaster::caster::{cast, Wall};
use raycaster::fixed::{isqrt, SCALE};
use raycaster::geometry::{dist, intersects};

/// A wall given in world units, scaled into fixed point.
fn w(x1: i64, y1: i64, x2: i64, y2: i64) -> Wall {
    Wall { x1: x1 * SCALE, y1: y1 * SCALE, x2: x2 * SCALE, y2: y2 * SCALE }
}

/// The reference map: four boundary walls and one diagonal.
fn reference_walls() -> Vec<Wall> {
    vec![
        w(10, 10, 390, 10),
        w(390, 10, 390, 390),
        w(390, 390, 10, 390),
        w(10, 390, 10, 10),
        w(200, 40, 300, 300),
    ]
}

#[test]
fn nearest_hit_matches_reference_wall() {
    // Ray from (20,20) heading 0 degrees (increasing x), clip 400:
    // hits the wall at x == 390 spanning y in [10, 390], 370 units out.
    let walls: Vec<Wall> = reference_walls();
    let hit: Option<(i64, usize)> = cast(20 * SCALE, 20 * SCALE, SCALE, 0, 400 * SCALE, &walls);
    assert_eq!(hit, Some((370 * SCALE, 1)));
}

#[test]
fn clip_shorter_than_wall_is_a_miss() {
    let walls: Vec<Wall> = reference_walls();
    // The nearest wall on this heading is 370 units out; clip at 100.
    let hit: Option<(i64, usize)> = cast(20 * SCALE, 20 * SCALE, SCALE, 0, 100 * SCALE, &walls);
    assert_eq!(hit, None);
}

#[test]
fn ray_pointing_away_from_walls_is_a_miss() {
    // A single wall to the right; the ray goes left.
    let walls: Vec<Wall> = vec![w(100, 10, 100, 90)];
    let hit: Option<(i64, usize)> = cast(10 * SCALE, 50 * SCALE, -SCALE, 0, 300 * SCALE, &walls);
    assert_eq!(hit, None);
}

#[test]
fn nearest_of_two_crossed_walls_wins() {
    // Two vertical walls across the same ray: the closer one is
    // reported, whichever order the set lists them in.
    let near: Wall = w(100, 10, 100, 90);
    let far: Wall = w(200, 10, 200, 90);
    let hit_a: Option<(i64, usize)> =
        cast(10 * SCALE, 50 * SCALE, SCALE, 0, 300 * SCALE, &vec![near, far]);
    assert_eq!(hit_a, Some((90 * SCALE, 0)));
    let hit_b: Option<(i64, usize)> =
        cast(10 * SCALE, 50 * SCALE, SCALE, 0, 300 * SCALE, &vec![far, near]);
    assert_eq!(hit_b, Some((90 * SCALE, 1)));
}

#[test]
fn casting_twice_yields_identical_results() {
    let walls: Vec<Wall> = reference_walls();
    let first: Option<(i64, usize)> =
        cast(20 * SCALE, 20 * SCALE, 724, -724, 600 * SCALE, &walls);
    let second: Option<(i64, usize)> =
        cast(20 * SCALE, 20 * SCALE, 724, -724, 600 * SCALE, &walls);
    assert_eq!(first, second);
}

#[test]
fn parallel_segments_never_intersect() {
    // Two horizontal segments, overlapping in x, never intersect —
    // not even collinear overlapping ones.
    assert!(!intersects(0, 0, 102400, 0, 51200, 0, 153600, 0));
    assert!(!intersects(0, 0, 102400, 0, 0, 10240, 102400, 10240));
    // Two vertical segments.
    assert!(!intersects(0, 0, 0, 102400, 10240, 0, 10240, 102400));
    // Two parallel diagonals.
    assert!(!intersects(0, 0, 10240, 10240, 0, 1024, 10240, 11264));
}

#[test]
fn crossing_segments_intersect_strictly_inside() {
    // An X crossing reports an intersection.
    assert!(intersects(0, 0, 10240, 10240, 0, 10240, 10240, 0));
    // Touching at a shared endpoint does not count.
    assert!(!intersects(0, 0, 10240, 0, 10240, 0, 10240, 10240));
    // An endpoint resting on the other segment's interior does not count.
    assert!(!intersects(0, 0, 10240, 0, 5120, 0, 5120, 10240));
}

#[test]
fn degenerate_wall_is_skipped_not_fatal() {
    // A zero-length wall ahead of a real wall must not abort the scan.
    let degenerate: Wall = w(50, 50, 50, 50);
    let real: Wall = w(100, 10, 100, 90);
    let hit: Option<(i64, usize)> =
        cast(10 * SCALE, 50 * SCALE, SCALE, 0, 300 * SCALE, &vec![degenerate, real]);
    assert_eq!(hit, Some((90 * SCALE, 1)));
}

#[test]
fn zero_clip_and_empty_wall_set_miss_quietly() {
    let walls: Vec<Wall> = reference_walls();
    assert_eq!(cast(20 * SCALE, 20 * SCALE, SCALE, 0, 0, &walls), None);
    let empty: Vec<Wall> = Vec::new();
    assert_eq!(cast(20 * SCALE, 20 * SCALE, SCALE, 0, 400 * SCALE, &empty), None);
}

#[test]
fn distance_of_a_pythagorean_triple() {
    assert_eq!(dist(0, 0, 3 * SCALE, 4 * SCALE), 5 * SCALE);
    assert_eq!(dist(3 * SCALE, 4 * SCALE, 0, 0), 5 * SCALE);
    assert_eq!(dist(0, 0, 0, 0), 0);
}

#[test]
fn integer_square_roots_round_down() {
    assert_eq!(isqrt(0), 0);
    assert_eq!(isqrt(1), 1);
    assert_eq!(isqrt(35), 5);
    assert_eq!(isqrt(36), 6);
    assert_eq!(isqrt(u64::MAX), 0xffff_ffff);
}
