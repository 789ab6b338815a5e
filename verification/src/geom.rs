//! Plane geometry over fixed-point coordinates, and the camera projection.

use vstd::prelude::*;

verus! {

/// Bound on a world coordinate that every operation in this library keeps
/// enough headroom under; far beyond what a session can reach, it only keeps
/// the 64-bit arithmetic exact.
pub const COORD_LIMIT: i64 = 0x0100_0000_0000_0000;

/// A point or displacement on the unbounded world plane, in milli-units.
#[derive(Clone, Copy, PartialEq, Eq, Structural, Debug)]
pub struct Vec2I {
    pub x: i64,
    pub y: i64,
}

pub open spec fn in_coord_range(v: Vec2I) -> bool {
    -COORD_LIMIT <= v.x <= COORD_LIMIT && -COORD_LIMIT <= v.y <= COORD_LIMIT
}

/// Screen-space coordinates of a world point, relative to the tank, which
/// itself always renders at the viewport center: the difference of the two
/// positions, with the vertical axis flipped to the rendering convention.
pub open spec fn project_spec(world: Vec2I, tank: Vec2I) -> (int, int) {
    (world.x - tank.x, -(world.y - tank.y))
}

/// Project a world position to screen space relative to the tank's world
/// position. Screen positions are derived values, recomputed every frame;
/// they are never fed back into the world state.
pub fn project(world: Vec2I, tank: Vec2I) -> (r: Vec2I)
    requires
        in_coord_range(world),
        in_coord_range(tank),
    ensures
        r.x == project_spec(world, tank).0,
        r.y == project_spec(world, tank).1,
{
    Vec2I { x: world.x - tank.x, y: -(world.y - tank.y) }
}

pub open spec fn abs_spec(a: int) -> int {
    if a >= 0 {
        a
    } else {
        -a
    }
}

/// Absolute value of a coordinate, as an unsigned quantity.
pub fn abs_i64(a: i64) -> (r: u64)
    requires
        a != i64::MIN,
    ensures
        r == abs_spec(a as int),
{
    if a >= 0 {
        a as u64
    } else {
        (-a) as u64
    }
}

/// Remainder with the dividend's sign (the convention of Rust's `%` on
/// floats and signed integers), for a positive divisor.
pub open spec fn tmod_spec(a: int, m: int) -> int {
    if a >= 0 {
        a % m
    } else {
        -((-a) % m)
    }
}

/// Truncated remainder of a coordinate by a positive step width.
pub fn tmod(a: i64, m: u64) -> (r: i64)
    requires
        -COORD_LIMIT <= a <= COORD_LIMIT,
        1 <= m <= 1_000_000,
    ensures
        r == tmod_spec(a as int, m as int),
        -(m as int) < r < m as int,
{
    proof {
        vstd::arithmetic::div_mod::lemma_mod_bound(abs_spec(a as int), m as int);
    }
    if a >= 0 {
        ((a as u64) % m) as i64
    } else {
        -((((-a) as u64) % m) as i64)
    }
}

/// Projection is reversible: adding back `(tank.x, -tank.y)` to the screen
/// position recovers `(world.x, -world.y)`, so no information is lost and the
/// screen position is a pure function of exactly these two inputs.
pub proof fn lemma_project_reversible(world: Vec2I, tank: Vec2I)
    ensures
        project_spec(world, tank).0 + tank.x == world.x,
        project_spec(world, tank).1 + -tank.y == -world.y,
{
}

/// Projecting a world point onto itself as camera yields the origin: the
/// tank always sits at the viewport center.
pub proof fn lemma_project_center(p: Vec2I)
    ensures
        project_spec(p, p) == (0int, 0int),
{
}

} // verus!
