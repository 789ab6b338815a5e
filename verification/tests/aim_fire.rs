use tank_sim::entities::bullet_velocity;
use tank_sim::geom::Vec2I;
use tank_sim::input::{InputState, Viewport, update_aim};
use tank_sim::isqrt::isqrt;
use tank_sim::movement::KeyInput;
use tank_sim::world::World;

const NO_KEYS: KeyInput = KeyInput { up: false, down: false, left: false, right: false };

fn vp() -> Viewport {
    // 1600 by 1200 world units; the viewport center is (800, 600)
    Viewport { w: 1_600_000, h: 1_200_000 }
}

#[test]
fn isqrt_exact_values() {
    assert_eq!(isqrt(0), 0);
    assert_eq!(isqrt(1), 1);
    assert_eq!(isqrt(2), 1);
    assert_eq!(isqrt(3), 1);
    assert_eq!(isqrt(4), 2);
    assert_eq!(isqrt(999_999), 999);
    assert_eq!(isqrt(1_000_000), 1000);
    assert_eq!(isqrt(1_000_000_000_000_000_000), 1_000_000_000);
    assert_eq!(isqrt(u64::MAX), 4_294_967_295);
}

#[test]
fn aim_holds_last_value_without_cursor() {
    let prev = Vec2I { x: 42, y: -17 };
    let r = update_aim(prev, None, vp());
    assert_eq!((r.x, r.y), (42, -17));
}

#[test]
fn aim_follows_cursor_when_present() {
    let prev = Vec2I { x: 42, y: -17 };
    let r = update_aim(prev, Some(Vec2I { x: 900_000, y: 500_000 }), vp());
    assert_eq!((r.x, r.y), (100_000, -100_000));
}

#[test]
fn bullet_velocity_along_axis() {
    // cursor 300 units right of the viewport center: velocity (600, 0)
    let v = bullet_velocity(Vec2I { x: 300_000, y: 0 });
    assert_eq!((v.x, v.y), (600_000, 0));
    let v2 = bullet_velocity(Vec2I { x: 0, y: -250_000 });
    assert_eq!((v2.x, v2.y), (0, -600_000));
}

#[test]
fn bullet_velocity_diagonal_magnitude() {
    let v = bullet_velocity(Vec2I { x: 300_000, y: 300_000 });
    // magnitude stays within rounding of 600 units/sec, direction diagonal
    assert_eq!(v.x, v.y);
    let m2 = v.x * v.x + v.y * v.y;
    assert!(m2 <= 600_000i64 * 600_000);
    assert!(m2 >= 599_000i64 * 599_000);
}

#[test]
fn bullet_velocity_constant_speed_for_tiny_vectors() {
    // sub-unit aim vectors are normalized with the same precision as long
    // ones: the speed stays within integer quantization of 600 units/sec
    let full = 600_000i64 * 600_000;
    let v = bullet_velocity(Vec2I { x: 1, y: 1 });
    assert_eq!((v.x, v.y), (424_264, 424_264));
    let m2 = v.x * v.x + v.y * v.y;
    assert!(m2 <= full);
    assert!(m2 > full - 4 * 600_000 - 2);
    let v2 = bullet_velocity(Vec2I { x: 2, y: -1 });
    assert_eq!((v2.x, v2.y), (536_656, -268_328));
    let m2b = v2.x * v2.x + v2.y * v2.y;
    assert!(m2b <= full);
    assert!(m2b > full - 4 * 600_000 - 2);
}

#[test]
fn fire_one_milli_off_center_fires_at_full_speed() {
    let mut w = World::new();
    let input = InputState {
        keys: NO_KEYS,
        fire_down: true,
        cursor: Some(Vec2I { x: 800_001, y: 600_000 }),  // 0.001 units right of center
    };
    w.tick(input, vp(), &Vec::new(), 0);
    assert_eq!(w.bullets.len(), 1);
    assert_eq!((w.bullets[0].vel.x, w.bullets[0].vel.y), (600_000, 0));
}

#[test]
fn fire_spawns_one_bullet_at_tank() {
    let mut w = World::new();
    let input = InputState {
        keys: NO_KEYS,
        fire_down: true,
        cursor: Some(Vec2I { x: 1_100_000, y: 600_000 }),  // center + (300, 0)
    };
    w.tick(input, vp(), &Vec::new(), 0);
    assert_eq!(w.bullets.len(), 1);
    assert_eq!(w.bullets[0].id, 0);
    assert_eq!((w.bullets[0].pos.x, w.bullets[0].pos.y), (0, 0));
    assert_eq!((w.bullets[0].vel.x, w.bullets[0].vel.y), (600_000, 0));
}

#[test]
fn fire_center_cursor_spawns_nothing() {
    let mut w = World::new();
    let input = InputState {
        keys: NO_KEYS,
        fire_down: true,
        cursor: Some(Vec2I { x: 800_000, y: 600_000 }),  // exactly the center
    };
    w.tick(input, vp(), &Vec::new(), 0);
    assert_eq!(w.bullets.len(), 0);
}

#[test]
fn fire_without_cursor_spawns_nothing() {
    let mut w = World::new();
    let input = InputState { keys: NO_KEYS, fire_down: true, cursor: None };
    w.tick(input, vp(), &Vec::new(), 0);
    assert_eq!(w.bullets.len(), 0);
}

#[test]
fn fire_is_edge_triggered_not_level() {
    let mut w = World::new();
    let held = InputState {
        keys: NO_KEYS,
        fire_down: true,
        cursor: Some(Vec2I { x: 1_100_000, y: 600_000 }),
    };
    w.tick(held, vp(), &Vec::new(), 0);
    w.tick(held, vp(), &Vec::new(), 0);
    w.tick(held, vp(), &Vec::new(), 0);
    // a held button fires exactly once per press
    assert_eq!(w.bullets.len(), 1);
    // releasing and pressing again fires again
    let released = InputState { keys: NO_KEYS, fire_down: false, cursor: held.cursor };
    w.tick(released, vp(), &Vec::new(), 0);
    w.tick(held, vp(), &Vec::new(), 0);
    assert_eq!(w.bullets.len(), 2);
}

#[test]
fn bullets_advance_by_velocity_every_tick() {
    let mut w = World::new();
    let fire = InputState {
        keys: NO_KEYS,
        fire_down: true,
        cursor: Some(Vec2I { x: 1_100_000, y: 600_000 }),
    };
    w.tick(fire, vp(), &Vec::new(), 0);
    let idle = InputState { keys: NO_KEYS, fire_down: false, cursor: None };
    w.tick(idle, vp(), &Vec::new(), 500);
    // 600 units/sec over half a second: 300 units
    assert_eq!((w.bullets[0].pos.x, w.bullets[0].pos.y), (300_000, 0));
    w.tick(idle, vp(), &Vec::new(), 250);
    assert_eq!((w.bullets[0].pos.x, w.bullets[0].pos.y), (450_000, 0));
}
