//! Tests for the grid store: construction, cell editing and traversal.

use sprite_grid::fixed::{SCALE, ScaledVec2};
use sprite_grid::sprite_cell::{CellColor, SpriteCell, TextureSource, TexturedCell};
use sprite_grid::sprite_grid::{
    DEFAULT_CULLING_MARGIN, SpriteGrid, SpriteGridAlignment, SpriteGridCulling, SpriteGridGeometry,
};

fn units(v: i64) -> i64 {
    v * SCALE
}

fn color_cell(r: u8, g: u8) -> SpriteCell {
    SpriteCell::color(CellColor {
        red: r,
        green: g,
        blue: 0,
        alpha: 255,
    })
}

fn geometry_5x5_cell32() -> SpriteGridGeometry {
    SpriteGridGeometry::new(
        (5, 5),
        ScaledVec2 {
            x: units(32),
            y: units(32),
        },
    )
}

#[test]
fn empty_grid_has_no_cells() {
    let grid = SpriteGrid::empty(geometry_5x5_cell32());
    for x in 0..5 {
        for y in 0..5 {
            assert_eq!(grid.get((x, y)), None);
        }
    }
}

#[test]
fn empty_grid_default_margin_is_one_and_a_half_cells() {
    let grid = SpriteGrid::empty(geometry_5x5_cell32());
    assert_eq!(
        grid.culling,
        SpriteGridCulling::Enabled {
            margin: ScaledVec2 {
                x: units(48),
                y: units(48),
            },
        }
    );
}

#[test]
fn culling_default_margin_is_16_units() {
    assert_eq!(
        SpriteGridCulling::default(),
        SpriteGridCulling::Enabled {
            margin: ScaledVec2 {
                x: DEFAULT_CULLING_MARGIN,
                y: DEFAULT_CULLING_MARGIN,
            },
        }
    );
    assert_eq!(DEFAULT_CULLING_MARGIN, units(16));
}

#[test]
fn grid_size_is_dimensions_times_cell_size() {
    let grid = SpriteGrid::empty(geometry_5x5_cell32());
    assert_eq!(
        grid.grid_size(),
        ScaledVec2 {
            x: units(160),
            y: units(160),
        }
    );
}

#[test]
fn from_cell_fills_every_slot() {
    let cell = color_cell(10, 20);
    let grid = SpriteGrid::from_cell(geometry_5x5_cell32(), cell);
    for x in 0..5 {
        for y in 0..5 {
            assert_eq!(grid.get((x, y)), Some(cell));
        }
    }
}

#[test]
fn get_after_set_returns_the_cell() {
    let mut grid = SpriteGrid::empty(geometry_5x5_cell32());
    for x in 0..5 {
        for y in 0..5 {
            let cell = color_cell(x as u8, y as u8);
            grid.set((x, y), cell);
            assert_eq!(grid.get((x, y)), Some(cell));
        }
    }
}

#[test]
fn set_leaves_other_slots_unchanged() {
    let mut grid = SpriteGrid::empty(geometry_5x5_cell32());
    grid.set((1, 2), color_cell(1, 2));
    grid.set((3, 4), color_cell(3, 4));
    assert_eq!(grid.get((1, 2)), Some(color_cell(1, 2)));
    assert_eq!(grid.get((3, 4)), Some(color_cell(3, 4)));
    assert_eq!(grid.get((0, 0)), None);
    assert_eq!(grid.get((2, 2)), None);
}

#[test]
fn clear_empties_exactly_one_slot() {
    let cell = color_cell(7, 7);
    let mut grid = SpriteGrid::from_cell(geometry_5x5_cell32(), cell);
    grid.clear((2, 3));
    assert_eq!(grid.get((2, 3)), None);
    assert_eq!(grid.get((2, 2)), Some(cell));
    assert_eq!(grid.get((3, 3)), Some(cell));
}

#[test]
fn from_fn_round_trips_the_generator() {
    let f = |(x, y): (usize, usize)| {
        if (x + y) % 2 == 0 {
            Some(color_cell(x as u8, y as u8))
        } else {
            None
        }
    };
    let grid = SpriteGrid::from_fn(geometry_5x5_cell32(), f);
    for x in 0..5 {
        for y in 0..5 {
            assert_eq!(grid.get((x, y)), f((x, y)));
        }
    }
}

#[test]
fn iter_yields_exactly_the_occupied_cells_in_order() {
    let mut grid = SpriteGrid::empty(SpriteGridGeometry::new(
        (3, 3),
        ScaledVec2 {
            x: units(32),
            y: units(32),
        },
    ));
    grid.set((2, 1), color_cell(2, 1));
    grid.set((0, 0), color_cell(0, 0));
    grid.set((0, 2), color_cell(0, 2));
    let items = grid.iter((0, 3), (0, 3));
    assert_eq!(
        items,
        vec![
            ((0, 0), color_cell(0, 0)),
            ((0, 2), color_cell(0, 2)),
            ((2, 1), color_cell(2, 1)),
        ]
    );
}

#[test]
fn iter_respects_the_requested_rect() {
    let cell = color_cell(1, 1);
    let grid = SpriteGrid::from_cell(
        SpriteGridGeometry::new(
            (3, 3),
            ScaledVec2 {
                x: units(32),
                y: units(32),
            },
        ),
        cell,
    );
    let items = grid.iter((1, 3), (0, 2));
    assert_eq!(
        items,
        vec![
            ((1, 0), cell),
            ((1, 1), cell),
            ((2, 0), cell),
            ((2, 1), cell),
        ]
    );
}

#[test]
fn iter_of_empty_rect_yields_nothing() {
    let cell = color_cell(1, 1);
    let grid = SpriteGrid::from_cell(geometry_5x5_cell32(), cell);
    assert_eq!(grid.iter((2, 2), (0, 5)), vec![]);
    assert_eq!(grid.iter((0, 5), (3, 1)), vec![]);
}

#[test]
fn iter_clamps_ranges_beyond_the_grid() {
    let cell = color_cell(1, 1);
    let grid = SpriteGrid::from_cell(
        SpriteGridGeometry::new(
            (2, 2),
            ScaledVec2 {
                x: units(32),
                y: units(32),
            },
        ),
        cell,
    );
    let items = grid.iter((1, 100), (0, 100));
    assert_eq!(items, vec![((1, 0), cell), ((1, 1), cell)]);
}

#[test]
fn zero_sized_grid_stores_and_yields_nothing() {
    let grid = SpriteGrid::empty(SpriteGridGeometry::new(
        (0, 4),
        ScaledVec2 {
            x: units(32),
            y: units(32),
        },
    ));
    assert_eq!(grid.iter((0, 4), (0, 4)), vec![]);
}

#[test]
fn alignment_presets_are_fractions_of_scale() {
    assert_eq!(
        SpriteGridAlignment::center().0,
        ScaledVec2 {
            x: SCALE / 2,
            y: SCALE / 2,
        }
    );
    assert_eq!(SpriteGridAlignment::bottom_left().0, ScaledVec2 { x: 0, y: 0 });
    assert_eq!(SpriteGridAlignment::bottom_right().0, ScaledVec2 { x: SCALE, y: 0 });
    assert_eq!(SpriteGridAlignment::top_left().0, ScaledVec2 { x: 0, y: SCALE });
    assert_eq!(SpriteGridAlignment::top_right().0, ScaledVec2 { x: SCALE, y: SCALE });
    assert_eq!(SpriteGridAlignment::default(), SpriteGridAlignment::bottom_left());
}

#[test]
fn textured_cell_defaults_are_neutral() {
    let cell = TexturedCell::new(TextureSource::Image { handle: 7 });
    assert_eq!(cell.texture, TextureSource::Image { handle: 7 });
    assert_eq!(cell.color, CellColor::white());
    assert!(!cell.flip_x);
    assert!(!cell.flip_y);
    assert_eq!(cell.custom_size, None);
    assert_eq!(
        SpriteCell::texture(TextureSource::Atlas { handle: 3, index: 9 }),
        SpriteCell::Texture(TexturedCell::new(TextureSource::Atlas { handle: 3, index: 9 }))
    );
}
