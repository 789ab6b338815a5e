//! Tank movement: a unit direction from the pressed-key set, scaled by the
//! tank speed and the frame delta.

use vstd::prelude::*;
use crate::geom::{Vec2I, in_coord_range, COORD_LIMIT};

verus! {

/// Tank speed in world units per second. One world unit is 1000 milli-units
/// and one second is 1000 milliseconds, so this is also the tank's step in
/// milli-units per millisecond of frame delta.
pub const TANK_SPEED: u64 = 150;

/// Largest frame delta a tick accepts, in milliseconds.
pub const DT_MAX: u64 = 1_000_000;

/// Numerator and denominator of the fixed-point approximation of `1/sqrt(2)`
/// that scales each component of a diagonal move. `7071/10000` is the floor,
/// so a diagonal step never exceeds a straight one in magnitude.
pub const DIAG_NUM: u64 = 7071;

pub const DIAG_DEN: u64 = 10000;

/// The pressed movement keys of one input snapshot.
#[derive(Clone, Copy, PartialEq, Eq, Structural, Debug)]
pub struct KeyInput {
    pub up: bool,
    pub down: bool,
    pub left: bool,
    pub right: bool,
}

/// Net horizontal direction: opposite keys cancel.
pub open spec fn key_dir_x(k: KeyInput) -> int {
    (if k.right {
        1int
    } else {
        0int
    }) - (if k.left {
        1int
    } else {
        0int
    })
}

/// Net vertical direction, `up` being the positive world axis.
pub open spec fn key_dir_y(k: KeyInput) -> int {
    (if k.up {
        1int
    } else {
        0int
    }) - (if k.down {
        1int
    } else {
        0int
    })
}

/// Displacement of a straight (axis-aligned) move over `dt` milliseconds,
/// in milli-units: `TANK_SPEED * dt`.
pub open spec fn axis_disp(dt: u64) -> int {
    150 * dt
}

/// Per-component displacement of a diagonal move over `dt` milliseconds:
/// the straight displacement scaled by `DIAG_NUM / DIAG_DEN`, rounded down.
/// `150 * 7071 == 1_060_650`.
pub open spec fn diag_disp(dt: u64) -> int {
    (1_060_650 * dt) as int / 10_000int
}

/// A step of length `step` along direction `d` of `{-1, 0, 1}`.
pub open spec fn dir_scaled(d: int, step: int) -> int {
    if d > 0 {
        step
    } else if d < 0 {
        -step
    } else {
        0
    }
}

/// World-space displacement of the tank over one tick: zero when the pressed
/// keys cancel out (never a normalization of the zero vector), otherwise the
/// unit direction scaled to `TANK_SPEED * dt`.
pub open spec fn move_delta(k: KeyInput, dt: u64) -> (int, int) {
    let dx = key_dir_x(k);
    let dy = key_dir_y(k);
    if dx == 0 && dy == 0 {
        (0int, 0int)
    } else if dx == 0 || dy == 0 {
        (dir_scaled(dx, axis_disp(dt)), dir_scaled(dy, axis_disp(dt)))
    } else {
        (dir_scaled(dx, diag_disp(dt)), dir_scaled(dy, diag_disp(dt)))
    }
}

/// Advance the tank's world position by one tick of movement input.
pub fn move_tank(pos: Vec2I, keys: KeyInput, dt: u64) -> (r: Vec2I)
    requires
        in_coord_range(pos),
        dt <= DT_MAX,
    ensures
        r.x == pos.x + move_delta(keys, dt).0,
        r.y == pos.y + move_delta(keys, dt).1,
        -(COORD_LIMIT as int) - 150_000_000 <= r.x <= COORD_LIMIT as int + 150_000_000,
        -(COORD_LIMIT as int) - 150_000_000 <= r.y <= COORD_LIMIT as int + 150_000_000,
{
    let dx: i64 = (if keys.right {
        1i64
    } else {
        0i64
    }) - (if keys.left {
        1i64
    } else {
        0i64
    });
    let dy: i64 = (if keys.up {
        1i64
    } else {
        0i64
    }) - (if keys.down {
        1i64
    } else {
        0i64
    });
    if dx == 0 && dy == 0 {
        return pos;
    }
    let step: u64 = if dx != 0 && dy != 0 {
        let num: u64 = 1_060_650 * dt;
        proof {
            vstd::arithmetic::div_mod::lemma_div_is_ordered(
                num as int,
                1_060_650_000_000int,
                10_000int,
            );
            vstd::arithmetic::div_mod::lemma_div_pos_is_pos(num as int, 10_000int);
        }
        num / 10_000
    } else {
        150 * dt
    };
    assert(0 <= step <= 150_000_000);
    let s = step as i64;
    proof {
        assert(key_dir_x(keys) == dx as int);
        assert(key_dir_y(keys) == dy as int);
        if dx != 0 && dy != 0 {
            assert(step == diag_disp(dt));
        } else {
            assert(step == axis_disp(dt));
        }
    }
    let nx = if dx > 0 {
        pos.x + s
    } else if dx < 0 {
        pos.x - s
    } else {
        pos.x
    };
    let ny = if dy > 0 {
        pos.y + s
    } else if dy < 0 {
        pos.y - s
    } else {
        pos.y
    };
    Vec2I { x: nx, y: ny }
}

/// Squared magnitude of a displacement.
pub open spec fn mag2(d: (int, int)) -> int {
    d.0 * d.0 + d.1 * d.1
}

/// Normalization invariant of movement: over one tick the squared magnitude
/// of the displacement is exactly `(TANK_SPEED * dt)^2` for a straight move,
/// zero when the pressed keys cancel, and for a diagonal move it never
/// exceeds `(TANK_SPEED * dt)^2`, falling short of it by no more than the
/// fixed-point rounding margin `dt*dt + 425*dt`.
pub proof fn lemma_move_magnitude(keys: KeyInput, dt: u64)
    requires
        dt <= DT_MAX,
    ensures
        (key_dir_x(keys) == 0 && key_dir_y(keys) == 0) ==> mag2(move_delta(keys, dt)) == 0,
        (key_dir_x(keys) == 0 <==> key_dir_y(keys) != 0) ==> mag2(move_delta(keys, dt))
            == axis_disp(dt) * axis_disp(dt),
        (key_dir_x(keys) != 0 && key_dir_y(keys) != 0) ==> axis_disp(dt) * axis_disp(dt) - (dt
            * dt + 425 * dt) <= mag2(move_delta(keys, dt)) <= axis_disp(dt) * axis_disp(dt),
{
    let dx = key_dir_x(keys);
    let dy = key_dir_y(keys);
    let d = move_delta(keys, dt);
    let a = axis_disp(dt);
    if dx == 0 && dy == 0 {
        assert(d.0 == 0 && d.1 == 0);
        assert(mag2(d) == 0);
    } else if dx == 0 || dy == 0 {
        assert(d.0 * d.0 + d.1 * d.1 == a * a) by (nonlinear_arith)
            requires
                (d.0 == 0 && (d.1 == a || d.1 == -a)) || (d.1 == 0 && (d.0 == a || d.0 == -a)),
        ;
        assert(mag2(d) == a * a);
    } else {
        let q = diag_disp(dt);
        let num = 1_060_650 * (dt as int);
        vstd::arithmetic::div_mod::lemma_fundamental_div_mod(num, 10_000int);
        vstd::arithmetic::div_mod::lemma_mod_bound(num, 10_000int);
        vstd::arithmetic::div_mod::lemma_div_pos_is_pos(num, 10_000int);
        assert(10000 * q <= num);
        assert(num <= 10000 * q + 9999);
        assert(d.0 * d.0 + d.1 * d.1 == 2 * q * q) by (nonlinear_arith)
            requires
                (d.0 == q || d.0 == -q),
                (d.1 == q || d.1 == -q),
        ;
        assert(2 * q * q <= a * a) by (nonlinear_arith)
            requires
                0 <= q,
                0 <= dt,
                10000 * q <= 1060650 * dt,
                a == 150 * dt,
        ;
        if dt == 0 {
            assert(q == 0);
        } else {
            assert(2 * q * q >= a * a - (dt * dt + 425 * dt)) by (nonlinear_arith)
                requires
                    0 <= q,
                    1 <= dt,
                    10000 * q >= 1060650 * dt - 9999,
                    a == 150 * dt,
            ;
        }
        assert(a * a - (dt * dt + 425 * dt) <= mag2(d) <= a * a);
    }
}

} // verus!
