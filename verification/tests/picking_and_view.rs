//! Tests for picking, view-rect algebra and frame extraction.

use sprite_grid::extract::{compute_view_rect, extract_sprites};
use sprite_grid::fixed::{SCALE, ScaledVec2};
use sprite_grid::picking::{cell_center_world, pick_cell, pick_cell_unbounded, pick_rect};
use sprite_grid::sprite_cell::{CellColor, SpriteCell};
use sprite_grid::sprite_grid::{
    SpriteGrid, SpriteGridAlignment, SpriteGridCulling, SpriteGridGeometry,
};
use sprite_grid::transform::WorldTransform;
use sprite_grid::view::{SpriteGridRect, SpriteGridView};

fn units(v: i64) -> i64 {
    v * SCALE
}

fn point(x: i64, y: i64) -> ScaledVec2 {
    ScaledVec2 {
        x: units(x),
        y: units(y),
    }
}

fn solid() -> SpriteCell {
    SpriteCell::color(CellColor {
        red: 200,
        green: 100,
        blue: 50,
        alpha: 255,
    })
}

fn grid_5x5_cell32_center() -> SpriteGrid {
    SpriteGrid::empty(SpriteGridGeometry::with_alignment(
        (5, 5),
        point(32, 32),
        SpriteGridAlignment::center(),
    ))
}

fn grid_5x5_cell32_bottom_left() -> SpriteGrid {
    SpriteGrid::empty(SpriteGridGeometry::new((5, 5), point(32, 32)))
}

/// A counterclockwise quarter turn.
fn quarter_turn() -> WorldTransform {
    WorldTransform {
        m00: 0,
        m01: -SCALE,
        m10: SCALE,
        m11: 0,
        tx: 0,
        ty: 0,
    }
}

#[test]
fn pick_cell_center_aligned_scenario() {
    let mut grid = grid_5x5_cell32_center();
    grid.set((0, 0), solid());
    let identity = WorldTransform::identity();
    assert_eq!(pick_cell(&grid, &identity, point(-80, -80)), Some((0, 0)));
    assert_eq!(pick_cell(&grid, &identity, point(1000, 1000)), None);
}

#[test]
fn pick_cell_covers_each_cell_interior() {
    let grid = grid_5x5_cell32_bottom_left();
    let identity = WorldTransform::identity();
    assert_eq!(pick_cell(&grid, &identity, point(0, 0)), Some((0, 0)));
    assert_eq!(pick_cell(&grid, &identity, point(47, 100)), Some((1, 3)));
    assert_eq!(pick_cell(&grid, &identity, point(159, 159)), Some((4, 4)));
    assert_eq!(pick_cell(&grid, &identity, point(160, 80)), None);
    assert_eq!(pick_cell(&grid, &identity, point(-1, 80)), None);
}

#[test]
fn pick_cell_under_translation() {
    let grid = grid_5x5_cell32_bottom_left();
    let transform = WorldTransform::from_translation(point(100, -50));
    assert_eq!(pick_cell(&grid, &transform, point(100, -50)), Some((0, 0)));
    assert_eq!(pick_cell(&grid, &transform, point(227, 77)), Some((3, 3)));
    assert_eq!(pick_cell(&grid, &transform, point(99, 0)), None);
}

#[test]
fn pick_cell_under_rotation() {
    let grid = grid_5x5_cell32_bottom_left();
    let transform = quarter_turn();
    // the grid occupies x in [-160, 0], y in [0, 160] in world space
    assert_eq!(pick_cell(&grid, &transform, point(-16, 16)), Some((0, 0)));
    assert_eq!(pick_cell(&grid, &transform, point(-144, 144)), Some((4, 4)));
    assert_eq!(pick_cell(&grid, &transform, point(16, 16)), None);
}

#[test]
fn pick_cell_degenerate_geometry_returns_none() {
    let flat = SpriteGrid::empty(SpriteGridGeometry::new((5, 5), ScaledVec2 { x: 0, y: units(32) }));
    let identity = WorldTransform::identity();
    assert_eq!(pick_cell(&flat, &identity, point(0, 0)), None);
    let grid = grid_5x5_cell32_bottom_left();
    let singular = WorldTransform {
        m00: SCALE,
        m01: 0,
        m10: SCALE,
        m11: 0,
        tx: 0,
        ty: 0,
    };
    assert_eq!(pick_cell(&grid, &singular, point(10, 10)), None);
}

#[test]
fn pick_cell_unbounded_one_grid_width_left() {
    let grid = grid_5x5_cell32_bottom_left();
    let identity = WorldTransform::identity();
    assert_eq!(pick_cell_unbounded(&grid, &identity, point(-160, 112)), (-5, 3));
    assert_eq!(pick_cell_unbounded(&grid, &identity, point(-160, 16)), (-5, 0));
}

#[test]
fn pick_cell_unbounded_is_never_clamped() {
    let grid = grid_5x5_cell32_bottom_left();
    let identity = WorldTransform::identity();
    assert_eq!(pick_cell_unbounded(&grid, &identity, point(1000, -1000)), (31, -32));
    assert_eq!(pick_cell_unbounded(&grid, &identity, point(80, 80)), (2, 2));
}

#[test]
fn picking_the_cell_center_returns_the_cell() {
    let grid = SpriteGrid::empty(SpriteGridGeometry::with_alignment(
        (4, 4),
        point(32, 32),
        SpriteGridAlignment::center(),
    ));
    let transform = WorldTransform::from_translation(point(10, 20));
    let scale3 = SCALE as i128 * SCALE as i128 * SCALE as i128;
    for x in 0..4 {
        for y in 0..4 {
            let (wx, wy) = cell_center_world(&grid, &transform, (x, y));
            assert_eq!(wx % scale3, 0);
            assert_eq!(wy % scale3, 0);
            let center = ScaledVec2 {
                x: (wx / scale3) as i64 * SCALE,
                y: (wy / scale3) as i64 * SCALE,
            };
            assert_eq!(pick_cell(&grid, &transform, center), Some((x, y)));
        }
    }
}

#[test]
fn pick_rect_full_footprint_returns_whole_grid_for_every_alignment() {
    let identity = WorldTransform::identity();
    let alignments = [
        SpriteGridAlignment::bottom_left(),
        SpriteGridAlignment::bottom_right(),
        SpriteGridAlignment::top_left(),
        SpriteGridAlignment::top_right(),
        SpriteGridAlignment::center(),
    ];
    for alignment in alignments {
        let grid = SpriteGrid::empty(SpriteGridGeometry::with_alignment(
            (3, 2),
            point(32, 16),
            alignment,
        ));
        // the footprint's center in world space, for this alignment
        let center = ScaledVec2 {
            x: units(48) - alignment.0.x * 96,
            y: units(16) - alignment.0.y * 32,
        };
        let result = pick_rect(
            &grid,
            &identity,
            point(48, 16),
            &WorldTransform::from_translation(center),
        );
        assert_eq!(
            result,
            Some(SpriteGridRect {
                left: 0,
                right: 3,
                bottom: 0,
                top: 2,
            })
        );
    }
}

#[test]
fn pick_rect_misses_when_far_away() {
    let grid = grid_5x5_cell32_bottom_left();
    let identity = WorldTransform::identity();
    let far = WorldTransform::from_translation(point(1000, 1000));
    assert_eq!(pick_rect(&grid, &identity, point(10, 10), &far), None);
    let below = WorldTransform::from_translation(point(80, -500));
    assert_eq!(pick_rect(&grid, &identity, point(10, 10), &below), None);
}

#[test]
fn pick_rect_clamps_partial_overlap() {
    let grid = grid_5x5_cell32_bottom_left();
    let identity = WorldTransform::identity();
    // a 64x64 query centered at the origin: covers cells (0..2, 0..2) after clamping
    let query = WorldTransform::from_translation(point(0, 0));
    assert_eq!(
        pick_rect(&grid, &identity, point(32, 32), &query),
        Some(SpriteGridRect {
            left: 0,
            right: 2,
            bottom: 0,
            top: 2,
        })
    );
}

#[test]
fn pick_rect_rotated_query_uses_corner_bounding_box() {
    let grid = grid_5x5_cell32_bottom_left();
    let identity = WorldTransform::identity();
    // a quarter-turned 96x32 rectangle centered at (80, 80): its corners
    // land at x in {64, 96}, y in {32, 128}
    let mut query = quarter_turn();
    query.tx = units(80);
    query.ty = units(80);
    assert_eq!(
        pick_rect(&grid, &identity, point(48, 16), &query),
        Some(SpriteGridRect {
            left: 2,
            right: 4,
            bottom: 1,
            top: 5,
        })
    );
}

#[test]
fn pick_rect_empty_grid_returns_none() {
    let grid = SpriteGrid::empty(SpriteGridGeometry::new((0, 5), point(32, 32)));
    let identity = WorldTransform::identity();
    assert_eq!(pick_rect(&grid, &identity, point(10, 10), &identity), None);
}

#[test]
fn intersect_is_commutative_and_associative() {
    let a = SpriteGridRect { left: 0, right: 4, bottom: 0, top: 4 };
    let b = SpriteGridRect { left: 2, right: 6, bottom: 1, top: 3 };
    let c = SpriteGridRect { left: 3, right: 5, bottom: 0, top: 2 };
    assert_eq!(a.intersect_with(b), b.intersect_with(a));
    assert_eq!(
        a.intersect_with(b),
        Some(SpriteGridRect { left: 2, right: 4, bottom: 1, top: 3 })
    );
    let left_first = a.intersect_with(b).and_then(|r| r.intersect_with(c));
    let right_first = b.intersect_with(c).and_then(|r| a.intersect_with(r));
    assert_eq!(left_first, right_first);
    assert_eq!(
        left_first,
        Some(SpriteGridRect { left: 3, right: 4, bottom: 1, top: 2 })
    );
}

#[test]
fn intersect_with_itself_and_disjoint() {
    let a = SpriteGridRect { left: 1, right: 4, bottom: 2, top: 9 };
    assert_eq!(a.intersect_with(a), Some(a));
    let disjoint = SpriteGridRect { left: 4, right: 8, bottom: 2, top: 9 };
    assert_eq!(a.intersect_with(disjoint), None);
    let touching = SpriteGridRect { left: 0, right: 9, bottom: 9, top: 12 };
    assert_eq!(a.intersect_with(touching), None);
}

#[test]
fn rect_ranges_expand_to_bounds() {
    let a = SpriteGridRect { left: 1, right: 4, bottom: 2, top: 9 };
    assert_eq!(a.xs(), (1, 4));
    assert_eq!(a.ys(), (2, 9));
}

#[test]
fn compute_view_rect_applies_culling_and_restriction() {
    let mut grid = grid_5x5_cell32_bottom_left();
    grid.culling = SpriteGridCulling::Disabled;
    let identity = WorldTransform::identity();
    let full = compute_view_rect(&grid, &identity, point(10, 10), &identity, None);
    assert_eq!(
        full,
        Some(SpriteGridRect { left: 0, right: 5, bottom: 0, top: 5 })
    );
    let view = SpriteGridView(SpriteGridRect { left: 1, right: 3, bottom: 0, top: 2 });
    let restricted = compute_view_rect(&grid, &identity, point(10, 10), &identity, Some(view));
    assert_eq!(restricted, Some(view.0));
}

#[test]
fn compute_view_rect_culls_far_grids() {
    let grid = grid_5x5_cell32_bottom_left();
    let identity = WorldTransform::identity();
    let camera = WorldTransform::from_translation(point(10000, 10000));
    assert_eq!(compute_view_rect(&grid, &identity, point(100, 100), &camera, None), None);
}

#[test]
fn extract_yields_placed_occupied_cells() {
    let mut grid = grid_5x5_cell32_bottom_left();
    grid.culling = SpriteGridCulling::Disabled;
    grid.set((0, 0), solid());
    grid.set((2, 3), solid());
    let identity = WorldTransform::identity();
    let extracted = extract_sprites(&grid, &identity, point(100, 100), &identity, None);
    assert_eq!(extracted.len(), 2);
    let scale3 = SCALE as i128 * SCALE as i128 * SCALE as i128;
    assert_eq!(extracted[0].index, (0, 0));
    assert_eq!(extracted[0].cell, solid());
    assert_eq!(extracted[0].world_x * 2 / scale3, 32);
    assert_eq!(extracted[0].world_y * 2 / scale3, 32);
    assert_eq!(extracted[1].index, (2, 3));
    assert_eq!(extracted[1].world_x * 2 / scale3, 160);
    assert_eq!(extracted[1].world_y * 2 / scale3, 224);
}

#[test]
fn extract_yields_nothing_when_culled_away() {
    let mut grid = grid_5x5_cell32_bottom_left();
    grid.set((0, 0), solid());
    let identity = WorldTransform::identity();
    let camera = WorldTransform::from_translation(point(100000, 100000));
    let extracted = extract_sprites(&grid, &identity, point(100, 100), &camera, None);
    assert_eq!(extracted.len(), 0);
}
