//! Input snapshots, the viewport, and the cursor-relative aim vector.

use vstd::prelude::*;
use crate::geom::Vec2I;
use crate::movement::KeyInput;

verus! {

/// Largest viewport dimension accepted, in milli-units.
pub const VIEW_LIMIT: u64 = 1_000_000_000;

/// Largest cursor coordinate accepted, in milli-units.
pub const CURSOR_LIMIT: i64 = 1_000_000_000;

/// Bound on a viewport-centered cursor vector's components, in milli-units:
/// `CURSOR_LIMIT` plus half of `VIEW_LIMIT`.
pub const CENTERED_LIMIT: i64 = 1_500_000_000;

/// The viewport's dimensions in milli-units, queried each tick from the host.
#[derive(Clone, Copy, PartialEq, Eq, Structural, Debug)]
pub struct Viewport {
    pub w: u64,
    pub h: u64,
}

pub open spec fn viewport_ok(vp: Viewport) -> bool {
    1 <= vp.w <= VIEW_LIMIT && 1 <= vp.h <= VIEW_LIMIT
}

pub open spec fn cursor_ok(c: Vec2I) -> bool {
    -CURSOR_LIMIT <= c.x <= CURSOR_LIMIT && -CURSOR_LIMIT <= c.y <= CURSOR_LIMIT
}

/// One tick's input snapshot: pressed movement keys, the fire button's level
/// state, and the cursor's viewport position, absent when the cursor is
/// outside the window.
#[derive(Clone, Copy, PartialEq, Eq, Debug)]
pub struct InputState {
    pub keys: KeyInput,
    pub fire_down: bool,
    pub cursor: Option<Vec2I>,
}

/// The cursor translated to viewport-centered coordinates:
/// `cursor - viewport/2` per axis.
pub open spec fn centered_spec(c: Vec2I, vp: Viewport) -> (int, int) {
    (c.x - vp.w / 2, c.y - vp.h / 2)
}

/// Translate a cursor position to viewport-centered coordinates.
pub fn centered_cursor(c: Vec2I, vp: Viewport) -> (r: Vec2I)
    requires
        cursor_ok(c),
        viewport_ok(vp),
    ensures
        r.x == centered_spec(c, vp).0,
        r.y == centered_spec(c, vp).1,
        -CENTERED_LIMIT <= r.x <= CENTERED_LIMIT,
        -CENTERED_LIMIT <= r.y <= CENTERED_LIMIT,
{
    Vec2I { x: c.x - (vp.w / 2) as i64, y: c.y - (vp.h / 2) as i64 }
}

/// Next tick's aim vector: the viewport-centered cursor vector when a cursor
/// position is available, and the previous tick's aim unchanged when it is
/// not — a deliberate hold-last-value policy, never a reset. The host turns
/// this vector into the rotation `-atan2(aim.y, aim.x) - pi/2` when drawing.
pub fn update_aim(prev: Vec2I, cursor: Option<Vec2I>, vp: Viewport) -> (r: Vec2I)
    requires
        viewport_ok(vp),
        cursor matches Some(c) ==> cursor_ok(c),
    ensures
        cursor is None ==> r == prev,
        cursor matches Some(c) ==> r.x == centered_spec(c, vp).0 && r.y == centered_spec(c, vp).1,
{
    match cursor {
        Some(c) => centered_cursor(c, vp),
        None => prev,
    }
}

} // verus!
