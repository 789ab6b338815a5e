//! The scrolling background grid: not an entity, but a pure function of the
//! tank's world position and the viewport, recomputed every frame. The host
//! draws each returned segment with its debug-line primitive.

use vstd::prelude::*;
use crate::geom::{Vec2I, in_coord_range, tmod, tmod_spec};
use crate::input::{Viewport, viewport_ok};

verus! {

/// Spacing of the grid lines, in milli-units (60 world units).
pub const GRID_STEP: u64 = 60_000;

/// One line segment in screen coordinates, with endpoints `a` and `b`.
#[derive(Clone, Copy, PartialEq, Eq, Structural, Debug)]
pub struct GridLine {
    pub a: Vec2I,
    pub b: Vec2I,
}

/// Number of vertical grid lines for a viewport width `w`: one per step from
/// `-GRID_STEP` up to and including the first position at or past `w`.
pub open spec fn vline_count(w: u64) -> int {
    w / 60_000 + 2
}

/// Screen x of the `k`-th vertical line: the line raster is anchored at
/// `-GRID_STEP`, shifted left by half the viewport and by the tank's
/// position modulo the spacing, which makes the grid scroll under the
/// screen-centered tank.
pub open spec fn vline_x(tank_x: int, w: u64, k: int) -> int {
    -60_000 + k * 60_000 - (w / 2) - tmod_spec(tank_x, 60_000)
}

/// Screen y of the `k`-th horizontal line.
pub open spec fn hline_y(tank_y: int, h: u64, k: int) -> int {
    -60_000 + k * 60_000 - (h / 2) - tmod_spec(tank_y, 60_000)
}

/// The grid to draw for one frame: every vertical line spanning the
/// viewport's height, then every horizontal line spanning its width.
pub fn grid_lines(tank: Vec2I, vp: Viewport) -> (r: Vec<GridLine>)
    requires
        in_coord_range(tank),
        viewport_ok(vp),
    ensures
        r@.len() == vline_count(vp.w) + vline_count(vp.h),
        forall|k: int|
            0 <= k < vline_count(vp.w) ==> {
                let l = #[trigger] r@[k];
                l.a.x == vline_x(tank.x as int, vp.w, k) && l.b.x == vline_x(
                    tank.x as int,
                    vp.w,
                    k,
                ) && l.a.y == -((vp.h / 2) as int) && l.b.y == (vp.h / 2) as int
            },
        forall|k: int|
            0 <= k < vline_count(vp.h) ==> {
                let l = #[trigger] r@[vline_count(vp.w) + k];
                l.a.y == hline_y(tank.y as int, vp.h, k) && l.b.y == hline_y(
                    tank.y as int,
                    vp.h,
                    k,
                ) && l.a.x == -((vp.w / 2) as int) && l.b.x == (vp.w / 2) as int
            },
{
    let mx = tmod(tank.x, GRID_STEP);
    let my = tmod(tank.y, GRID_STEP);
    let half_w = (vp.w / 2) as i64;
    let half_h = (vp.h / 2) as i64;
    let nv = vp.w / 60_000 + 2;
    let nh = vp.h / 60_000 + 2;
    proof {
        vstd::arithmetic::div_mod::lemma_div_is_ordered(vp.w as int, 1_000_000_000int, 60_000int);
        vstd::arithmetic::div_mod::lemma_div_is_ordered(vp.h as int, 1_000_000_000int, 60_000int);
        vstd::arithmetic::div_mod::lemma_div_pos_is_pos(vp.w as int, 60_000int);
        vstd::arithmetic::div_mod::lemma_div_pos_is_pos(vp.h as int, 60_000int);
    }
    let mut r: Vec<GridLine> = Vec::new();
    let mut k: u64 = 0;
    while k < nv
        invariant
            0 <= k <= nv,
            nv == vline_count(vp.w),
            nv <= 16_669,
            r@.len() == k,
            mx == tmod_spec(tank.x as int, 60_000),
            -60_000 < mx < 60_000,
            half_w == (vp.w / 2) as int,
            half_h == (vp.h / 2) as int,
            vp.w <= 1_000_000_000,
            vp.h <= 1_000_000_000,
            forall|j: int|
                0 <= j < k ==> {
                    let l = #[trigger] r@[j];
                    l.a.x == vline_x(tank.x as int, vp.w, j) && l.b.x == vline_x(
                        tank.x as int,
                        vp.w,
                        j,
                    ) && l.a.y == -half_h && l.b.y == half_h
                },
        decreases nv - k,
    {
        let x: i64 = -60_000 + (k as i64) * 60_000 - half_w - mx;
        r.push(GridLine { a: Vec2I { x, y: -half_h }, b: Vec2I { x, y: half_h } });
        k += 1;
    }
    let mut k2: u64 = 0;
    while k2 < nh
        invariant
            0 <= k2 <= nh,
            nh == vline_count(vp.h),
            nh <= 16_669,
            r@.len() == vline_count(vp.w) + k2,
            my == tmod_spec(tank.y as int, 60_000),
            -60_000 < my < 60_000,
            half_w == (vp.w / 2) as int,
            half_h == (vp.h / 2) as int,
            vp.w <= 1_000_000_000,
            vp.h <= 1_000_000_000,
            forall|j: int|
                0 <= j < vline_count(vp.w) ==> {
                    let l = #[trigger] r@[j];
                    l.a.x == vline_x(tank.x as int, vp.w, j) && l.b.x == vline_x(
                        tank.x as int,
                        vp.w,
                        j,
                    ) && l.a.y == -half_h && l.b.y == half_h
                },
            forall|j: int|
                0 <= j < k2 ==> {
                    let l = #[trigger] r@[vline_count(vp.w) + j];
                    l.a.y == hline_y(tank.y as int, vp.h, j) && l.b.y == hline_y(
                        tank.y as int,
                        vp.h,
                        j,
                    ) && l.a.x == -half_w && l.b.x == half_w
                },
        decreases nh - k2,
    {
        let y: i64 = -60_000 + (k2 as i64) * 60_000 - half_h - my;
        r.push(GridLine { a: Vec2I { x: -half_w, y }, b: Vec2I { x: half_w, y } });
        k2 += 1;
    }
    r
}

} // verus!
