use tank_sim::collision::{CollisionEvent, resolve_collisions};
use tank_sim::entities::{Bullet, Object};
use tank_sim::geom::Vec2I;
use tank_sim::input::{InputState, Viewport};
use tank_sim::movement::KeyInput;
use tank_sim::world::World;

const NO_KEYS: KeyInput = KeyInput { up: false, down: false, left: false, right: false };

const IDLE: InputState = InputState { keys: NO_KEYS, fire_down: false, cursor: None };

fn vp() -> Viewport {
    Viewport { w: 1_600_000, h: 1_200_000 }
}

fn at(x: i64, y: i64) -> Vec2I {
    Vec2I { x, y }
}

#[test]
fn new_world_is_empty_with_tank_at_origin() {
    let w = World::new();
    assert_eq!((w.tank_pos.x, w.tank_pos.y), (0, 0));
    assert_eq!((w.aim.x, w.aim.y), (0, -1000));
    assert!(!w.fire_held);
    assert!(w.bullets.is_empty());
    assert!(w.objects.is_empty());
    assert_eq!(w.next_id, 0);
    assert_eq!(w.elapsed_ms, 0);
}

#[test]
fn spawn_count_follows_elapsed_time() {
    let mut w = World::new();
    w.tick(IDLE, vp(), &Vec::new(), 1000);
    // floor(1000 / 250) objects after one second
    assert_eq!(w.objects.len(), 4);
    w.tick(IDLE, vp(), &Vec::new(), 100);
    assert_eq!(w.objects.len(), 4);
    w.tick(IDLE, vp(), &Vec::new(), 150);
    assert_eq!(w.objects.len(), 5);
}

#[test]
fn spawn_rate_is_frame_rate_invariant() {
    // different dt sequences with the same total give the same spawn count
    let schedules: [&[u64]; 4] = [
        &[1000],
        &[250, 250, 250, 250],
        &[100, 100, 100, 100, 100, 100, 100, 100, 100, 100],
        &[333, 333, 334],
    ];
    for dts in schedules {
        let mut w = World::new();
        for &dt in dts {
            w.tick(IDLE, vp(), &Vec::new(), dt);
        }
        assert_eq!(w.elapsed_ms, 1000);
        assert_eq!(w.objects.len(), 4, "schedule {:?}", dts);
    }
}

#[test]
fn spawned_objects_sit_in_the_viewport_box_around_the_tank() {
    let mut w = World::new();
    w.tick(IDLE, vp(), &Vec::new(), 5000);
    assert_eq!(w.objects.len(), 20);
    let wi = 1_600_000i64;
    let hi = 1_200_000i64;
    for o in &w.objects {
        assert!(w.tank_pos.x - wi <= o.pos.x && o.pos.x < w.tank_pos.x + wi);
        assert!(w.tank_pos.y - hi <= o.pos.y && o.pos.y < w.tank_pos.y + hi);
    }
    // identifiers are distinct
    for i in 0..w.objects.len() {
        for j in 0..i {
            assert_ne!(w.objects[i].id, w.objects[j].id);
        }
    }
}

#[test]
fn movement_is_applied_before_spawning() {
    let mut w = World::new();
    let input = InputState {
        keys: KeyInput { up: false, down: false, left: false, right: true },
        fire_down: false,
        cursor: None,
    };
    w.tick(input, vp(), &Vec::new(), 250);
    // 150 units/sec over 0.25 s
    assert_eq!((w.tank_pos.x, w.tank_pos.y), (37_500, 0));
    assert_eq!(w.objects.len(), 1);
    let o = &w.objects[0];
    assert!(w.tank_pos.x - 1_600_000 <= o.pos.x && o.pos.x < w.tank_pos.x + 1_600_000);
}

#[test]
fn collision_start_removes_object_and_keeps_bullet() {
    let bullets = vec![Bullet { id: 3, pos: at(0, 0), vel: at(600_000, 0) }];
    let mut objects = vec![
        Object { id: 5, pos: at(10, 0) },
        Object { id: 7, pos: at(999, 999) },
    ];
    let events = vec![CollisionEvent::Started(3, 5)];
    resolve_collisions(&bullets, &mut objects, &events);
    assert_eq!(objects.len(), 1);
    assert_eq!(objects[0].id, 7);
    assert_eq!(bullets.len(), 1);
}

#[test]
fn collision_start_reversed_order_also_removes_object() {
    let bullets = vec![Bullet { id: 3, pos: at(0, 0), vel: at(600_000, 0) }];
    let mut objects = vec![Object { id: 5, pos: at(10, 0) }];
    let events = vec![CollisionEvent::Started(5, 3)];
    resolve_collisions(&bullets, &mut objects, &events);
    assert!(objects.is_empty());
}

#[test]
fn collision_of_other_pairings_is_ignored() {
    let bullets = vec![Bullet { id: 3, pos: at(0, 0), vel: at(0, 600_000) }];
    let mut objects = vec![Object { id: 5, pos: at(10, 0) }, Object { id: 7, pos: at(0, 10) }];
    let events = vec![
        CollisionEvent::Started(5, 7),  // object-object
        CollisionEvent::Started(3, 3),  // bullet-bullet
        CollisionEvent::Started(11, 12),  // unknown ids
    ];
    resolve_collisions(&bullets, &mut objects, &events);
    assert_eq!(objects.len(), 2);
}

#[test]
fn collision_stop_and_contact_force_are_log_only() {
    let bullets = vec![Bullet { id: 3, pos: at(0, 0), vel: at(0, 600_000) }];
    let mut objects = vec![Object { id: 5, pos: at(10, 0) }];
    let events = vec![CollisionEvent::Stopped(3, 5), CollisionEvent::ContactForce(3, 5)];
    resolve_collisions(&bullets, &mut objects, &events);
    assert_eq!(objects.len(), 1);
}

#[test]
fn tick_resolves_collisions_against_live_entities() {
    let mut w = World::new();
    let fire = InputState {
        keys: NO_KEYS,
        fire_down: true,
        cursor: Some(Vec2I { x: 1_100_000, y: 600_000 }),
    };
    // fire a bullet (id 0), then let the timer spawn objects
    w.tick(fire, vp(), &Vec::new(), 0);
    w.tick(IDLE, vp(), &Vec::new(), 250);
    assert_eq!(w.bullets.len(), 1);
    assert_eq!(w.objects.len(), 1);
    let object_id = w.objects[0].id;
    let events = vec![CollisionEvent::Started(0, object_id)];
    w.tick(IDLE, vp(), &events, 100);
    // the object is despawned, the bullet survives the collision
    assert_eq!(w.objects.len(), 0);
    assert_eq!(w.bullets.len(), 1);
}
