//! The world state and the per-tick step that composes the sub-systems in
//! their fixed order: movement, bullet advance, aim, fire, collision
//! resolution, timed object spawning.

use vstd::prelude::*;
use crate::geom::{Vec2I, in_coord_range, COORD_LIMIT};
use crate::movement::{KeyInput, move_delta, move_tank, DT_MAX};
use crate::input::{InputState, Viewport, viewport_ok, cursor_ok, centered_spec, update_aim, centered_cursor};
use crate::entities::{Bullet, Object, bullet_vel_spec, bullet_velocity, vel_disp, vel_step};
use crate::collision::{CollisionEvent, resolved, distinct_object_ids, resolve_collisions, lemma_resolve_from_preserves};

verus! {

/// Period of the object spawn timer, in milliseconds of simulated time.
pub const SPAWN_PERIOD_MS: u64 = 250;

/// Objects owed for a frame of `dt` ms starting at `elapsed` ms of simulated
/// time: one per full period boundary the frame crosses, however the time is
/// split into frames.
pub open spec fn spawn_count(elapsed: int, dt: int) -> int {
    (elapsed + dt) / 250 - elapsed / 250
}

/// Total simulated time of a sequence of frame deltas.
pub open spec fn sum_of(dts: Seq<u64>) -> int
    decreases dts.len(),
{
    if dts.len() == 0 {
        0
    } else {
        sum_of(dts.drop_last()) + dts.last()
    }
}

/// Objects owed in all after feeding the frame deltas in order.
pub open spec fn spawned_total(dts: Seq<u64>) -> int
    decreases dts.len(),
{
    if dts.len() == 0 {
        0
    } else {
        spawned_total(dts.drop_last()) + spawn_count(sum_of(dts.drop_last()), dts.last() as int)
    }
}

/// The spawn rate is frame-rate invariant: after any sequence of frame
/// deltas, the objects owed are exactly `floor(total elapsed / 250)`,
/// however the same total is split into frames.
pub proof fn lemma_spawn_rate_frame_invariant(dts: Seq<u64>)
    ensures
        spawned_total(dts) == sum_of(dts) / 250,
    decreases dts.len(),
{
    if dts.len() > 0 {
        lemma_spawn_rate_frame_invariant(dts.drop_last());
    }
}

/// The whole world state of the simulation.
pub struct World {
    /// The tank's true position on the unbounded plane.
    pub tank_pos: Vec2I,
    /// The viewport-centered cursor vector of the last tick that had a
    /// cursor; the host renders the tank at rotation
    /// `-atan2(aim.y, aim.x) - pi/2`.
    pub aim: Vec2I,
    /// The fire button's level on the previous tick, for edge detection.
    pub fire_held: bool,
    pub bullets: Vec<Bullet>,
    pub objects: Vec<Object>,
    /// Identifier allocator: every live entity's id is below it.
    pub next_id: u64,
    /// Total simulated time, in milliseconds; drives the spawn timer.
    pub elapsed_ms: u64,
}

impl World {
    /// Well-formedness: identifiers are distinct and below the allocator
    /// cursor, and bullet velocities are bounded by the bullet speed.
    pub open spec fn wf(&self) -> bool {
        &&& forall|i: int, j: int|
            0 <= i < j < self.bullets@.len() ==> self.bullets@[i].id != self.bullets@[j].id
        &&& distinct_object_ids(self.objects@)
        &&& forall|i: int|
            0 <= i < self.bullets@.len() ==> (#[trigger] self.bullets@[i]).id < self.next_id
        &&& forall|i: int|
            0 <= i < self.objects@.len() ==> (#[trigger] self.objects@[i]).id < self.next_id
        &&& forall|i: int|
            0 <= i < self.bullets@.len() ==> -600_000 <= (#[trigger] self.bullets@[i]).vel.x
                <= 600_000 && -600_000 <= self.bullets@[i].vel.y <= 600_000
    }

    /// Positions on which one tick's arithmetic stays exact. The bound is
    /// far beyond what a session can reach; the host checks it when it
    /// drives the loop.
    pub open spec fn in_bounds(&self) -> bool {
        &&& in_coord_range(self.tank_pos)
        &&& forall|i: int|
            0 <= i < self.bullets@.len() ==> in_coord_range((#[trigger] self.bullets@[i]).pos)
    }

    /// The session's starting state: the tank at the world origin, aiming
    /// straight down the screen (rotation zero), nothing spawned yet.
    pub fn new() -> (w: World)
        ensures
            w.wf(),
            w.in_bounds(),
            w.tank_pos == (Vec2I { x: 0, y: 0 }),
            w.aim == (Vec2I { x: 0, y: -1000i64 }),
            w.fire_held == false,
            w.bullets@ == Seq::<Bullet>::empty(),
            w.objects@ == Seq::<Object>::empty(),
            w.next_id == 0,
            w.elapsed_ms == 0,
    {
        World {
            tank_pos: Vec2I { x: 0, y: 0 },
            aim: Vec2I { x: 0, y: -1000 },
            fire_held: false,
            bullets: Vec::new(),
            objects: Vec::new(),
            next_id: 0,
            elapsed_ms: 0,
        }
    }

    /// Condition on which a tick fires a bullet: a rising edge of the fire
    /// button (a held button fires once per press), with a cursor available
    /// whose viewport-centered vector is nonzero — normalizing the zero
    /// vector is undefined, so that press is suppressed.
    pub open spec fn fire_cond(held: bool, input: InputState, vp: Viewport) -> bool {
        match input.cursor {
            Some(c) => input.fire_down && !held && !(centered_spec(c, vp).0 == 0 && centered_spec(
                c,
                vp,
            ).1 == 0),
            None => false,
        }
    }
}

/// Advance every bullet by its velocity over `dt` milliseconds,
/// unconditionally; identifiers and velocities are untouched.
fn advance_bullets(bullets: &mut Vec<Bullet>, dt: u64)
    requires
        dt <= DT_MAX,
        forall|i: int|
            0 <= i < old(bullets)@.len() ==> -600_000 <= (#[trigger] old(bullets)@[i]).vel.x
                <= 600_000 && -600_000 <= old(bullets)@[i].vel.y <= 600_000,
        forall|i: int|
            0 <= i < old(bullets)@.len() ==> in_coord_range((#[trigger] old(bullets)@[i]).pos),
    ensures
        final(bullets)@.len() == old(bullets)@.len(),
        forall|i: int|
            0 <= i < old(bullets)@.len() ==> {
                let nb = #[trigger] final(bullets)@[i];
                let ob = old(bullets)@[i];
                nb.id == ob.id && nb.vel == ob.vel && nb.pos.x == ob.pos.x + vel_disp(
                    ob.vel.x as int,
                    dt,
                ) && nb.pos.y == ob.pos.y + vel_disp(ob.vel.y as int, dt)
            },
{
    let ghost orig = bullets@;
    let mut out: Vec<Bullet> = Vec::new();
    let mut i: usize = 0;
    while i < bullets.len()
        invariant
            0 <= i <= orig.len(),
            bullets@ == orig,
            dt <= DT_MAX,
            forall|k: int|
                0 <= k < orig.len() ==> -600_000 <= (#[trigger] orig[k]).vel.x <= 600_000
                    && -600_000 <= orig[k].vel.y <= 600_000,
            forall|k: int| 0 <= k < orig.len() ==> in_coord_range((#[trigger] orig[k]).pos),
            out@.len() == i,
            forall|k: int|
                0 <= k < i ==> {
                    let nb = #[trigger] out@[k];
                    let ob = orig[k];
                    nb.id == ob.id && nb.vel == ob.vel && nb.pos.x == ob.pos.x + vel_disp(
                        ob.vel.x as int,
                        dt,
                    ) && nb.pos.y == ob.pos.y + vel_disp(ob.vel.y as int, dt)
                },
        decreases orig.len() - i,
    {
        let b = bullets[i];
        let nb = Bullet {
            id: b.id,
            pos: Vec2I { x: b.pos.x + vel_step(b.vel.x, dt), y: b.pos.y + vel_step(b.vel.y, dt) },
            vel: b.vel,
        };
        out.push(nb);
        i += 1;
    }
    *bullets = out;
}

impl World {
    /// Run the spawn timer over a frame of `dt` milliseconds and spawn the
    /// objects it owes, each at the tank's position plus an offset drawn per
    /// axis from `[-viewport, viewport)`.
    fn spawn_objects(&mut self, vp: Viewport, dt: u64)
        requires
            old(self).wf(),
            viewport_ok(vp),
            -(COORD_LIMIT as int) - 200_000_000 <= old(self).tank_pos.x <= COORD_LIMIT as int
                + 200_000_000,
            -(COORD_LIMIT as int) - 200_000_000 <= old(self).tank_pos.y <= COORD_LIMIT as int
                + 200_000_000,
            old(self).elapsed_ms + dt <= u64::MAX,
            old(self).next_id + spawn_count(old(self).elapsed_ms as int, dt as int) <= u64::MAX,
        ensures
            final(self).wf(),
            final(self).tank_pos == old(self).tank_pos,
            final(self).aim == old(self).aim,
            final(self).fire_held == old(self).fire_held,
            final(self).bullets == old(self).bullets,
            final(self).elapsed_ms == old(self).elapsed_ms + dt,
            final(self).next_id == old(self).next_id + spawn_count(
                old(self).elapsed_ms as int,
                dt as int,
            ),
            final(self).objects@.len() == old(self).objects@.len() + spawn_count(
                old(self).elapsed_ms as int,
                dt as int,
            ),
            forall|i: int|
                0 <= i < old(self).objects@.len() ==> #[trigger] final(self).objects@[i] == old(self).objects@[i],
            forall|k: int|
                old(self).objects@.len() <= k < final(self).objects@.len() ==> {
                    let ob = #[trigger] final(self).objects@[k];
                    ob.id == old(self).next_id + (k - old(self).objects@.len())
                        && old(self).tank_pos.x - vp.w <= ob.pos.x < old(self).tank_pos.x + vp.w
                        && old(self).tank_pos.y - vp.h <= ob.pos.y < old(self).tank_pos.y + vp.h
                },
    {
        proof {
            vstd::arithmetic::div_mod::lemma_div_is_ordered(
                old(self).elapsed_ms as int,
                old(self).elapsed_ms as int + dt,
                250int,
            );
        }
        let total = self.elapsed_ms + dt;
        let n = total / 250 - self.elapsed_ms / 250;
        self.elapsed_ms = total;
        let ghost start_len = self.objects@.len() as int;
        let ghost start_id = self.next_id;
        let mut k: u64 = 0;
        while k < n
            invariant
                0 <= k <= n,
                start_len == old(self).objects@.len(),
                self.wf(),
                viewport_ok(vp),
                -(COORD_LIMIT as int) - 200_000_000 <= self.tank_pos.x <= COORD_LIMIT as int
                    + 200_000_000,
                -(COORD_LIMIT as int) - 200_000_000 <= self.tank_pos.y <= COORD_LIMIT as int
                    + 200_000_000,
                self.next_id == start_id + k,
                start_id + n <= u64::MAX,
                self.objects@.len() == start_len + k,
                forall|i: int|
                    0 <= i < start_len ==> #[trigger] self.objects@[i] == old(self).objects@[i],
                forall|j: int|
                    start_len <= j < self.objects@.len() ==> {
                        let ob = #[trigger] self.objects@[j];
                        ob.id == start_id + (j - start_len) && self.tank_pos.x - vp.w <= ob.pos.x
                            < self.tank_pos.x + vp.w && self.tank_pos.y - vp.h <= ob.pos.y
                            < self.tank_pos.y + vp.h
                    },
                self.tank_pos == old(self).tank_pos,
                self.aim == old(self).aim,
                self.fire_held == old(self).fire_held,
                self.bullets == old(self).bullets,
                self.elapsed_ms == old(self).elapsed_ms + dt,
            decreases n - k,
        {
            let ox = crate::rng::draw_in_range(-(vp.w as i64), vp.w as i64);
            let oy = crate::rng::draw_in_range(-(vp.h as i64), vp.h as i64);
            let pos = Vec2I { x: self.tank_pos.x + ox, y: self.tank_pos.y + oy };
            let ghost before = self.objects@;
            self.objects.push(Object { id: self.next_id, pos });
            proof {
                assert forall|i: int, j: int|
                    0 <= i < j < self.objects@.len() implies self.objects@[i].id
                    != self.objects@[j].id by {
                    if j < before.len() {
                    } else {
                        assert(self.objects@[j].id == start_id + k);
                        assert(self.objects@[i] == before[i]);
                    }
                }
            }
            self.next_id = self.next_id + 1;
            k += 1;
        }
    }

    /// One simulation tick, in the fixed order: movement, bullet advance,
    /// aim, fire, collision resolution, timed spawning. Screen positions are
    /// not state: the host derives them afterwards with
    /// [`crate::geom::project`].
    pub fn tick(&mut self, input: InputState, vp: Viewport, events: &Vec<CollisionEvent>, dt: u64)
        requires
            old(self).wf(),
            old(self).in_bounds(),
            dt <= DT_MAX,
            viewport_ok(vp),
            (input.cursor matches Some(c) ==> cursor_ok(c)),
            old(self).elapsed_ms + dt <= u64::MAX,
            old(self).next_id + 1 + spawn_count(old(self).elapsed_ms as int, dt as int)
                <= u64::MAX,
        ensures
            final(self).wf(),
            // The tank moves by the normalized key direction scaled to speed and delta.
            final(self).tank_pos.x == old(self).tank_pos.x + move_delta(input.keys, dt).0,
            final(self).tank_pos.y == old(self).tank_pos.y + move_delta(input.keys, dt).1,
            // Aim: hold-last-value without a cursor, viewport-centered cursor vector with one.
            input.cursor is None ==> final(self).aim == old(self).aim,
            (input.cursor matches Some(c) ==> final(self).aim.x == centered_spec(c, vp).0 && final(self).aim.y == centered_spec(c, vp).1),
            final(self).fire_held == input.fire_down,
            // Bullets: all advanced by velocity * dt; one appended on a fire edge,
            // spawned at the tank's new position, aimed along the centered cursor.
            final(self).bullets@.len() == old(self).bullets@.len() + (if Self::fire_cond(
                old(self).fire_held,
                input,
                vp,
            ) {
                1int
            } else {
                0int
            }),
            forall|i: int|
                0 <= i < old(self).bullets@.len() ==> {
                    let nb = #[trigger] final(self).bullets@[i];
                    let ob = old(self).bullets@[i];
                    nb.id == ob.id && nb.vel == ob.vel && nb.pos.x == ob.pos.x + vel_disp(
                        ob.vel.x as int,
                        dt,
                    ) && nb.pos.y == ob.pos.y + vel_disp(ob.vel.y as int, dt)
                },
            input.cursor matches Some(c) ==> (Self::fire_cond(old(self).fire_held, input, vp)
                ==> {
                let nb = final(self).bullets@[old(self).bullets@.len() as int];
                nb.id == old(self).next_id && nb.pos == final(self).tank_pos && nb.vel.x
                    == bullet_vel_spec(centered_spec(c, vp).0, centered_spec(c, vp).1).0 && nb.vel.y
                    == bullet_vel_spec(centered_spec(c, vp).0, centered_spec(c, vp).1).1
            }),
            // Objects: the start notifications despawn the object side of each
            // (bullet, object) pair, then the timer appends its spawns around the
            // tank's new position.
            final(self).objects@.len() == resolved(
                old(self).objects@,
                final(self).bullets@,
                events@,
            ).len() + spawn_count(old(self).elapsed_ms as int, dt as int),
            forall|i: int|
                0 <= i < resolved(old(self).objects@, final(self).bullets@, events@).len()
                    ==> #[trigger] final(self).objects@[i] == resolved(
                    old(self).objects@,
                    final(self).bullets@,
                    events@,
                )[i],
            forall|k: int|
                resolved(old(self).objects@, final(self).bullets@, events@).len() <= k < final(self).objects@.len() ==> {
                    let ob = #[trigger] final(self).objects@[k];
                    ob.id == old(self).next_id + (if Self::fire_cond(old(self).fire_held, input, vp) {
                        1int
                    } else {
                        0int
                    }) + (k - resolved(old(self).objects@, final(self).bullets@, events@).len())
                        && final(self).tank_pos.x - vp.w <= ob.pos.x < final(self).tank_pos.x
                        + vp.w && final(self).tank_pos.y - vp.h <= ob.pos.y < final(self).tank_pos.y
                        + vp.h
                },
            final(self).elapsed_ms == old(self).elapsed_ms + dt,
            final(self).next_id == old(self).next_id + (if Self::fire_cond(
                old(self).fire_held,
                input,
                vp,
            ) {
                1int
            } else {
                0int
            }) + spawn_count(old(self).elapsed_ms as int, dt as int),
    {
        proof {
            vstd::arithmetic::div_mod::lemma_div_is_ordered(
                old(self).elapsed_ms as int,
                old(self).elapsed_ms as int + dt,
                250int,
            );
        }
        // Movement.
        self.tank_pos = move_tank(self.tank_pos, input.keys, dt);
        // Bullet advance.
        advance_bullets(&mut self.bullets, dt);
        // Aim.
        self.aim = update_aim(self.aim, input.cursor, vp);
        // Fire on the button's rising edge.
        let fire_edge = input.fire_down && !self.fire_held;
        self.fire_held = input.fire_down;
        if fire_edge {
            match input.cursor {
                Some(c) => {
                    let cv = centered_cursor(c, vp);
                    if !(cv.x == 0 && cv.y == 0) {
                        let vel = bullet_velocity(cv);
                        let ghost bprev = self.bullets@;
                        self.bullets.push(
                            Bullet { id: self.next_id, pos: self.tank_pos, vel },
                        );
                        proof {
                            assert forall|i: int, j: int|
                                0 <= i < j < self.bullets@.len() implies self.bullets@[i].id
                                != self.bullets@[j].id by {
                                if j < bprev.len() {
                                } else {
                                    assert(self.bullets@[j].id == old(self).next_id);
                                    assert(self.bullets@[i] == bprev[i]);
                                }
                            }
                        }
                        self.next_id = self.next_id + 1;
                    }
                },
                None => {},
            }
        }
        let ghost bulls = self.bullets@;
        let ghost objs_before = self.objects@;
        // Collision resolution.
        resolve_collisions(&self.bullets, &mut self.objects, events);
        proof {
            lemma_resolve_from_preserves(objs_before, bulls, events@, 0);
            assert forall|i: int|
                0 <= i < self.objects@.len() implies (#[trigger] self.objects@[i]).id
                < self.next_id by {
                assert(objs_before.contains(self.objects@[i]));
                let m = choose|m: int|
                    0 <= m < objs_before.len() && objs_before[m] == self.objects@[i];
            }
        }
        // Timed object spawning.
        self.spawn_objects(vp, dt);
    }
}

} // verus!

