use tank_sim::geom::Vec2I;
use tank_sim::movement::{KeyInput, move_tank};

fn keys(up: bool, down: bool, left: bool, right: bool) -> KeyInput {
    KeyInput { up, down, left, right }
}

fn mag2(dx: i64, dy: i64) -> i64 {
    dx * dx + dy * dy
}

#[test]
fn move_single_keys_full_speed() {
    let pos = Vec2I { x: 0, y: 0 };
    let dt = 1000u64; // one second
    let up = move_tank(pos, keys(true, false, false, false), dt);
    assert_eq!((up.x, up.y), (0, 150_000)); // 150 units in milli-units
    let down = move_tank(pos, keys(false, true, false, false), dt);
    assert_eq!((down.x, down.y), (0, -150_000));
    let left = move_tank(pos, keys(false, false, true, false), dt);
    assert_eq!((left.x, left.y), (-150_000, 0));
    let right = move_tank(pos, keys(false, false, false, true), dt);
    assert_eq!((right.x, right.y), (150_000, 0));
    // displacement magnitude is exactly 150 * dt for a straight move
    assert_eq!(mag2(right.x, right.y), 150_000 * 150_000);
}

#[test]
fn move_no_keys_is_a_no_op() {
    let pos = Vec2I { x: 123, y: -456 };
    let r = move_tank(pos, keys(false, false, false, false), 16);
    assert_eq!((r.x, r.y), (123, -456));
}

#[test]
fn move_opposite_keys_cancel() {
    let pos = Vec2I { x: 7, y: 8 };
    let r = move_tank(pos, keys(true, true, false, false), 100);
    assert_eq!((r.x, r.y), (7, 8));
    let r2 = move_tank(pos, keys(true, true, true, true), 100);
    assert_eq!((r2.x, r2.y), (7, 8));
}

#[test]
fn move_three_keys_reduce_to_one_axis() {
    let pos = Vec2I { x: 0, y: 0 };
    let r = move_tank(pos, keys(true, true, true, false), 1000);
    assert_eq!((r.x, r.y), (-150_000, 0));
}

#[test]
fn move_diagonal_is_normalized() {
    let pos = Vec2I { x: 0, y: 0 };
    let dt = 1000u64;
    let r = move_tank(pos, keys(true, false, false, true), dt);
    // each component: 150_000 * 7071 / 10000
    assert_eq!((r.x, r.y), (106_065, 106_065));
    let full = 150_000i64 * 150_000;
    let m2 = mag2(r.x, r.y);
    // never exceeds the straight-move magnitude, and falls short of it by
    // no more than the fixed-point rounding margin
    assert!(m2 <= full);
    assert!(m2 >= full - (1000 * 1000 + 425 * 1000));
}

#[test]
fn move_diagonal_small_dt() {
    let pos = Vec2I { x: 0, y: 0 };
    let r = move_tank(pos, keys(false, true, true, false), 16);
    // 1_060_650 * 16 / 10_000 == 1697
    assert_eq!((r.x, r.y), (-1697, -1697));
    assert!(mag2(r.x, r.y) <= mag2(150 * 16, 0));
}
