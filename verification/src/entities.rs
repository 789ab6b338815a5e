//! The mobile entities of the world — bullets and destructible objects —
//! and the arithmetic that moves them.

use vstd::prelude::*;
use crate::geom::{Vec2I, abs_i64};
use crate::isqrt::{isqrt, isqrt_spec};
use crate::movement::DT_MAX;
use crate::input::CENTERED_LIMIT;

verus! {

/// Bullet speed in world units per second; equal to its speed in
/// milli-units per second divided by 1000.
pub const BULLET_SPEED: u64 = 600;

/// Bullet speed in milli-units per second: `BULLET_SPEED * 1000`.
pub const BULLET_SPEED_MILLI: u64 = 600_000;

/// A projectile: spawned at the tank, moving with a fixed velocity
/// (milli-units per second) until the session ends. It survives its
/// collisions.
#[derive(Clone, Copy, PartialEq, Eq, Structural, Debug)]
pub struct Bullet {
    pub id: u64,
    pub pos: Vec2I,
    pub vel: Vec2I,
}

/// A destructible target: static after spawn, destroyed by a bullet.
#[derive(Clone, Copy, PartialEq, Eq, Structural, Debug)]
pub struct Object {
    pub id: u64,
    pub pos: Vec2I,
}

/// `(v * num) / den`, rounded toward zero, for a positive `den`.
pub open spec fn scale_trunc(v: int, num: int, den: int) -> int {
    if v >= 0 {
        (v * num) / den
    } else {
        -(((-v) * num) / den)
    }
}

/// Magnitude of one velocity component for an aim vector of squared length
/// `n`: `floor(|a| * 600_000 / sqrt(n))`. For nonnegative `x` and positive
/// `n`, `floor(x / sqrt(n))` equals `floor(sqrt(x^2 / n))` — the largest `v`
/// with `v^2 * n <= x^2` — so the floor square root computes it exactly,
/// with no premature rounding of the vector's length.
pub open spec fn vel_component(a: int, n: int) -> int {
    isqrt_spec(((a * 600_000) * (a * 600_000)) / n)
}

/// Velocity of a bullet fired along the viewport-centered cursor vector
/// `(cx, cy)`: the vector scaled to magnitude `BULLET_SPEED_MILLI`, each
/// component rounded toward zero. [`lemma_bullet_speed`] shows the speed is
/// the constant 600 units per second up to integer quantization.
pub open spec fn bullet_vel_spec(cx: int, cy: int) -> (int, int) {
    let n = cx * cx + cy * cy;
    (
        if cx >= 0 {
            vel_component(cx, n)
        } else {
            -vel_component(cx, n)
        },
        if cy >= 0 {
            vel_component(cy, n)
        } else {
            -vel_component(cy, n)
        },
    )
}

/// A fired bullet's speed is constant: for every nonzero aim vector the
/// squared speed lies within integer quantization of `BULLET_SPEED_MILLI^2`,
/// in `(600_000^2 - 4*600_000 - 2, 600_000^2]`.
pub proof fn lemma_bullet_speed(cx: int, cy: int)
    requires
        !(cx == 0 && cy == 0),
    ensures
        ({
            let v = bullet_vel_spec(cx, cy);
            359_997_599_998 < v.0 * v.0 + v.1 * v.1 <= 360_000_000_000
        }),
{
    let n = cx * cx + cy * cy;
    let xx = (cx * 600_000) * (cx * 600_000);
    let yy = (cy * 600_000) * (cy * 600_000);
    let qx = xx / n;
    let qy = yy / n;
    let vx = isqrt_spec(qx);
    let vy = isqrt_spec(qy);
    assert(n >= 1 && 0 <= xx && 0 <= yy && xx + yy == n * 360_000_000_000 && xx <= n
        * 360_000_000_000 && yy <= n * 360_000_000_000) by (nonlinear_arith)
        requires
            !(cx == 0 && cy == 0),
            n == cx * cx + cy * cy,
            xx == (cx * 600_000) * (cx * 600_000),
            yy == (cy * 600_000) * (cy * 600_000),
    ;
    vstd::arithmetic::div_mod::lemma_fundamental_div_mod(xx, n);
    vstd::arithmetic::div_mod::lemma_mod_bound(xx, n);
    vstd::arithmetic::div_mod::lemma_div_pos_is_pos(xx, n);
    vstd::arithmetic::div_mod::lemma_fundamental_div_mod(yy, n);
    vstd::arithmetic::div_mod::lemma_mod_bound(yy, n);
    vstd::arithmetic::div_mod::lemma_div_pos_is_pos(yy, n);
    assert(n * qx <= xx && xx < n * qx + n);
    assert(n * qy <= yy && yy < n * qy + n);
    assert(qx <= 360_000_000_000 && qy <= 360_000_000_000) by (nonlinear_arith)
        requires
            n * qx <= xx,
            n * qy <= yy,
            xx <= n * 360_000_000_000,
            yy <= n * 360_000_000_000,
            n >= 1,
            0 <= qx,
            0 <= qy,
    ;
    crate::isqrt::lemma_isqrt_bounds(qx);
    crate::isqrt::lemma_isqrt_bounds(qy);
    assert(vx <= 600_000 && vy <= 600_000) by (nonlinear_arith)
        requires
            vx * vx <= qx,
            vy * vy <= qy,
            qx <= 360_000_000_000,
            qy <= 360_000_000_000,
            0 <= vx,
            0 <= vy,
    ;
    assert(vx * vx + vy * vy <= 360_000_000_000) by (nonlinear_arith)
        requires
            vx * vx <= qx,
            vy * vy <= qy,
            n * qx <= xx,
            n * qy <= yy,
            xx + yy == n * 360_000_000_000,
            n >= 1,
    ;
    assert(360_000_000_000 < (vx + 1) * (vx + 1) + (vy + 1) * (vy + 1)) by (nonlinear_arith)
        requires
            xx < n * qx + n,
            yy < n * qy + n,
            qx < (vx + 1) * (vx + 1),
            qy < (vy + 1) * (vy + 1),
            xx + yy == n * 360_000_000_000,
            n >= 1,
            0 <= vx,
            0 <= vy,
    ;
    assert(359_997_599_998 < vx * vx + vy * vy) by (nonlinear_arith)
        requires
            360_000_000_000 < (vx + 1) * (vx + 1) + (vy + 1) * (vy + 1),
            vx <= 600_000,
            vy <= 600_000,
            0 <= vx,
            0 <= vy,
    ;
    let v = bullet_vel_spec(cx, cy);
    assert(v.0 * v.0 == vx * vx && v.1 * v.1 == vy * vy) by (nonlinear_arith)
        requires
            (v.0 == vx || v.0 == -vx),
            (v.1 == vy || v.1 == -vy),
    ;
}

/// Displacement of one velocity component over `dt` milliseconds: the
/// velocity is per second, so the product is divided by 1000, rounded
/// toward zero.
pub open spec fn vel_disp(v: int, dt: u64) -> int {
    scale_trunc(v, dt as int, 1000)
}

/// Magnitude of one velocity component: `floor(a * 600_000 / sqrt(n))` for
/// a component of absolute value `a` of an aim vector of squared length `n`,
/// computed exactly through the wide square `(a * 600_000)^2 / n`.
fn scale_component(a: u64, n: u64) -> (r: u64)
    requires
        1 <= n,
        (a as int) * (a as int) <= n,
        a <= 1_500_000_000,
    ensures
        r == vel_component(a as int, n as int),
        r <= 600_000,
{
    let x: u128 = (a as u128) * 600_000;
    proof {
        assert((x as int) * (x as int) <= 810_000_000_000_000_000_000_000_000_000) by (nonlinear_arith)
            requires
                0 <= x as int <= 900_000_000_000_000,
        ;
    }
    let sq: u128 = x * x;
    let q128: u128 = sq / (n as u128);
    proof {
        vstd::arithmetic::div_mod::lemma_fundamental_div_mod(sq as int, n as int);
        vstd::arithmetic::div_mod::lemma_mod_bound(sq as int, n as int);
        vstd::arithmetic::div_mod::lemma_div_pos_is_pos(sq as int, n as int);
        assert((n as int) * (q128 as int) <= sq as int);
        assert(q128 <= 360_000_000_000) by (nonlinear_arith)
            requires
                (n as int) * (q128 as int) <= sq as int,
                sq as int == ((a as int) * 600_000) * ((a as int) * 600_000),
                (a as int) * (a as int) <= n as int,
                1 <= n as int,
                0 <= q128 as int,
        ;
    }
    let q: u64 = q128 as u64;
    let r = isqrt(q);
    proof {
        assert(r <= 600_000) by (nonlinear_arith)
            requires
                (r as int) * (r as int) <= q as int,
                q as int <= 360_000_000_000,
                0 <= r,
        ;
    }
    r
}

/// Velocity of a bullet fired with the viewport-centered cursor vector `c`:
/// `c` normalized and scaled to `BULLET_SPEED_MILLI`, so the speed is 600
/// units per second up to integer quantization, whatever the vector's
/// length. The zero vector is excluded — normalizing it is undefined, and
/// the caller suppresses the shot instead.
pub fn bullet_velocity(c: Vec2I) -> (r: Vec2I)
    requires
        -CENTERED_LIMIT <= c.x <= CENTERED_LIMIT,
        -CENTERED_LIMIT <= c.y <= CENTERED_LIMIT,
        !(c.x == 0 && c.y == 0),
    ensures
        r.x == bullet_vel_spec(c.x as int, c.y as int).0,
        r.y == bullet_vel_spec(c.x as int, c.y as int).1,
        -600_000 <= r.x <= 600_000,
        -600_000 <= r.y <= 600_000,
        359_997_599_998 < r.x * r.x + r.y * r.y <= 360_000_000_000,
{
    let ax = abs_i64(c.x);
    let ay = abs_i64(c.y);
    proof {
        assert((ax as int) * (ax as int) == (c.x as int) * (c.x as int) && (ax as int) * (ax as int)
            <= 2_250_000_000_000_000_000) by (nonlinear_arith)
            requires
                (ax as int == c.x as int || ax as int == -(c.x as int)),
                -1_500_000_000 <= c.x as int <= 1_500_000_000,
        ;
        assert((ay as int) * (ay as int) == (c.y as int) * (c.y as int) && (ay as int) * (ay as int)
            <= 2_250_000_000_000_000_000) by (nonlinear_arith)
            requires
                (ay as int == c.y as int || ay as int == -(c.y as int)),
                -1_500_000_000 <= c.y as int <= 1_500_000_000,
        ;
    }
    let n = ax * ax + ay * ay;
    proof {
        assert(n >= 1) by (nonlinear_arith)
            requires
                n as int == (ax as int) * (ax as int) + (ay as int) * (ay as int),
                0 <= ax,
                0 <= ay,
                ax >= 1 || ay >= 1,
        ;
        assert((ax as int) * (ax as int) <= n as int && (ay as int) * (ay as int) <= n as int);
        assert(((ax as int) * 600_000) * ((ax as int) * 600_000) == ((c.x as int) * 600_000) * ((
        c.x as int) * 600_000)) by (nonlinear_arith)
            requires
                (ax as int) * (ax as int) == (c.x as int) * (c.x as int),
        ;
        assert(((ay as int) * 600_000) * ((ay as int) * 600_000) == ((c.y as int) * 600_000) * ((
        c.y as int) * 600_000)) by (nonlinear_arith)
            requires
                (ay as int) * (ay as int) == (c.y as int) * (c.y as int),
        ;
        assert(n as int == (c.x as int) * (c.x as int) + (c.y as int) * (c.y as int));
    }
    let mx = scale_component(ax, n);
    let my = scale_component(ay, n);
    let rx: i64 = if c.x < 0 {
        -(mx as i64)
    } else {
        mx as i64
    };
    let ry: i64 = if c.y < 0 {
        -(my as i64)
    } else {
        my as i64
    };
    proof {
        lemma_bullet_speed(c.x as int, c.y as int);
    }
    Vec2I { x: rx, y: ry }
}

/// Per-component displacement of a bullet over `dt` milliseconds.
pub fn vel_step(v: i64, dt: u64) -> (r: i64)
    requires
        -600_000 <= v <= 600_000,
        dt <= DT_MAX,
    ensures
        r == vel_disp(v as int, dt),
        -600_000_000 <= r <= 600_000_000,
{
    proof {
        assert(0 <= abs_spec_u(v) * (dt as int) <= 600_000_000_000) by (nonlinear_arith)
            requires
                0 <= abs_spec_u(v) <= 600_000,
                0 <= dt as int <= 1_000_000,
        ;
        vstd::arithmetic::div_mod::lemma_div_is_ordered(
            abs_spec_u(v) * (dt as int),
            600_000_000_000int,
            1000int,
        );
        vstd::arithmetic::div_mod::lemma_div_pos_is_pos(abs_spec_u(v) * (dt as int), 1000int);
    }
    if v >= 0 {
        ((v as u64) * dt / 1000) as i64
    } else {
        -((((-v) as u64) * dt / 1000) as i64)
    }
}

/// Absolute value of a velocity component, for the proofs above.
pub open spec fn abs_spec_u(v: i64) -> int {
    crate::geom::abs_spec(v as int)
}

} // verus!
