use tank_sim::geom::{Vec2I, project, tmod};
use tank_sim::grid::grid_lines;
use tank_sim::input::Viewport;

#[test]
fn project_subtracts_tank_and_flips_y() {
    let world = Vec2I { x: 5000, y: 3000 };
    let tank = Vec2I { x: 2000, y: 1000 };
    let p = project(world, tank);
    assert_eq!((p.x, p.y), (3000, -2000));
}

#[test]
fn project_is_reversible() {
    let world = Vec2I { x: -123_456, y: 789_012 };
    let tank = Vec2I { x: 55_555, y: -44_444 };
    let p = project(world, tank);
    // adding back (tank.x, -tank.y) recovers (world.x, -world.y)
    assert_eq!(p.x + tank.x, world.x);
    assert_eq!(p.y + -tank.y, -world.y);
}

#[test]
fn project_tank_onto_itself_is_screen_center() {
    let tank = Vec2I { x: 987_654, y: -321_000 };
    let p = project(tank, tank);
    assert_eq!((p.x, p.y), (0, 0));
}

#[test]
fn tmod_follows_dividend_sign() {
    assert_eq!(tmod(70_000, 60_000), 10_000);
    assert_eq!(tmod(-70_000, 60_000), -10_000);
    assert_eq!(tmod(0, 60_000), 0);
    assert_eq!(tmod(59_999, 60_000), 59_999);
}

#[test]
fn grid_at_origin() {
    // 120 by 60 world units
    let vp = Viewport { w: 120_000, h: 60_000 };
    let lines = grid_lines(Vec2I { x: 0, y: 0 }, vp);
    // vertical: 120000/60000 + 2 == 4; horizontal: 60000/60000 + 2 == 3
    assert_eq!(lines.len(), 7);
    let xs: Vec<i64> = lines[..4].iter().map(|l| l.a.x).collect();
    assert_eq!(xs, vec![-120_000, -60_000, 0, 60_000]);
    for l in &lines[..4] {
        assert_eq!(l.a.y, -30_000);
        assert_eq!(l.b.y, 30_000);
        assert_eq!(l.a.x, l.b.x);
    }
    let ys: Vec<i64> = lines[4..].iter().map(|l| l.a.y).collect();
    assert_eq!(ys, vec![-90_000, -30_000, 30_000]);
    for l in &lines[4..] {
        assert_eq!(l.a.x, -60_000);
        assert_eq!(l.b.x, 60_000);
    }
}

#[test]
fn grid_scrolls_with_tank() {
    let vp = Viewport { w: 120_000, h: 60_000 };
    let at_origin = grid_lines(Vec2I { x: 0, y: 0 }, vp);
    let moved = grid_lines(Vec2I { x: 70_000, y: -10_000 }, vp);
    // tank.x % 60000 == 10000 shifts the vertical raster left by 10 units
    assert_eq!(moved[0].a.x, at_origin[0].a.x - 10_000);
    // tank.y % 60000 == -10000 shifts the horizontal raster down by -10
    assert_eq!(moved[4].a.y, at_origin[4].a.y + 10_000);
}
