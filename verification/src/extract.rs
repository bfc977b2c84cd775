//! The per-frame extraction pipeline: decide which index rectangle of a
//! grid is visible (camera culling intersected with any view restriction),
//! then traverse it and place every occupied cell in world space.
//!
//! The host renderer feeds the camera's half extent and transforms in, and
//! turns the placed cells this module hands back into draw primitives.

use crate::fixed::ScaledVec2;
use crate::picking::{center_world_x_num, center_world_y_num, cell_center_world, pick_rect,
    pick_rect_spec};
use crate::sprite_cell::SpriteCell;
use crate::sprite_grid::{SpriteGrid, SpriteGridCulling};
use crate::transform::WorldTransform;
use crate::view::{SpriteGridRect, SpriteGridView};
use vstd::prelude::*;

verus! {

/// The index rectangle a frame traverses: with culling enabled, the camera
/// rectangle padded by the margin is picked against the grid and then
/// intersected with any view restriction; with culling disabled, the view
/// restriction (or the whole grid) is traversed as is.
pub open spec fn view_rect_spec(
    g: SpriteGrid,
    t: WorldTransform,
    camera_half: ScaledVec2,
    camera_t: WorldTransform,
    view: Option<SpriteGridView>,
) -> Option<SpriteGridRect> {
    if g.x_len == 0 || g.y_len == 0 {
        None
    } else {
        match g.culling {
            SpriteGridCulling::Enabled { margin } => {
                let padded = ScaledVec2 {
                    x: (camera_half.x + margin.x) as i64,
                    y: (camera_half.y + margin.y) as i64,
                };
                match pick_rect_spec(g, t, padded, camera_t) {
                    None => None,
                    Some(r) => match view {
                        Some(v) => r.spec_intersect(v.0),
                        None => Some(r),
                    },
                }
            },
            SpriteGridCulling::Disabled => match view {
                Some(v) => Some(v.0),
                None => Some(
                    SpriteGridRect { left: 0, right: g.x_len, bottom: 0, top: g.y_len },
                ),
            },
        }
    }
}

/// Computes the index rectangle to traverse this frame, or `None` when the
/// grid is empty, fully culled, or culled away by the view restriction.
pub fn compute_view_rect(
    grid: &SpriteGrid,
    transform: &WorldTransform,
    camera_half_extent: ScaledVec2,
    camera_transform: &WorldTransform,
    view: Option<SpriteGridView>,
) -> (r: Option<SpriteGridRect>)
    requires
        grid.wf(),
        transform.wf(),
        camera_transform.wf(),
        camera_half_extent.bounded(),
    ensures
        r == view_rect_spec(*grid, *transform, camera_half_extent, *camera_transform, view),
{
    if grid.x_len == 0 || grid.y_len == 0 {
        return None;
    }
    match grid.culling {
        SpriteGridCulling::Enabled { margin } => {
            let padded = ScaledVec2 {
                x: camera_half_extent.x + margin.x,
                y: camera_half_extent.y + margin.y,
            };
            match pick_rect(grid, transform, padded, camera_transform) {
                None => None,
                Some(r) => match view {
                    Some(v) => r.intersect_with(v.0),
                    None => Some(r),
                },
            }
        },
        SpriteGridCulling::Disabled => match view {
            Some(v) => Some(v.0),
            None => Some(
                SpriteGridRect { left: 0, right: grid.x_len, bottom: 0, top: grid.y_len },
            ),
        },
    }
}

/// One cell as handed to the renderer: its index, the exact world position
/// of its center (fixed-point numerators at denominator
/// `SCALE * SCALE * SCALE`), and its content.
pub struct ExtractedCell {
    pub index: (usize, usize),
    pub world_x: i128,
    pub world_y: i128,
    pub cell: SpriteCell,
}

/// Runs one frame's extraction for a grid: computes the visible index
/// rectangle, traverses exactly the occupied cells inside it (in the
/// traversal's stable order), and places each cell's center in world
/// space. What is handed back is precisely what is pickable: both sides go
/// through the same transform chain.
pub fn extract_sprites(
    grid: &SpriteGrid,
    transform: &WorldTransform,
    camera_half_extent: ScaledVec2,
    camera_transform: &WorldTransform,
    view: Option<SpriteGridView>,
) -> (r: Vec<ExtractedCell>)
    requires
        grid.wf(),
        transform.wf(),
        camera_transform.wf(),
        camera_half_extent.bounded(),
    ensures
        ({
            match view_rect_spec(
                *grid,
                *transform,
                camera_half_extent,
                *camera_transform,
                view,
            ) {
                None => r@.len() == 0,
                Some(rect) => {
                    let s = grid.iter_seq(
                        rect.left as int,
                        rect.right as int,
                        rect.bottom as int,
                        rect.top as int,
                    );
                    &&& r@.len() == s.len()
                    &&& forall|k: int|
                        0 <= k < s.len() ==> {
                            &&& (#[trigger] r@[k]).index == s[k].0
                            &&& r@[k].cell == s[k].1
                            &&& r@[k].world_x == center_world_x_num(
                                *grid,
                                *transform,
                                s[k].0.0 as int,
                                s[k].0.1 as int,
                            )
                            &&& r@[k].world_y == center_world_y_num(
                                *grid,
                                *transform,
                                s[k].0.0 as int,
                                s[k].0.1 as int,
                            )
                        }
                },
            }
        }),
{
    let rect_opt = compute_view_rect(grid, transform, camera_half_extent, camera_transform, view);
    let mut out: Vec<ExtractedCell> = Vec::new();
    match rect_opt {
        None => out,
        Some(rect) => {
            let items = grid.iter(rect.xs(), rect.ys());
            let ghost s = grid.iter_seq(
                rect.left as int,
                rect.right as int,
                rect.bottom as int,
                rect.top as int,
            );
            let mut i: usize = 0;
            while i < items.len()
                invariant
                    grid.wf(),
                    transform.wf(),
                    s == grid.iter_seq(
                        rect.left as int,
                        rect.right as int,
                        rect.bottom as int,
                        rect.top as int,
                    ),
                    items@ == s,
                    i <= items@.len(),
                    out@.len() == i,
                    forall|k: int|
                        0 <= k < i ==> {
                            &&& (#[trigger] out@[k]).index == s[k].0
                            &&& out@[k].cell == s[k].1
                            &&& out@[k].world_x == center_world_x_num(
                                *grid,
                                *transform,
                                s[k].0.0 as int,
                                s[k].0.1 as int,
                            )
                            &&& out@[k].world_y == center_world_y_num(
                                *grid,
                                *transform,
                                s[k].0.0 as int,
                                s[k].0.1 as int,
                            )
                        },
                decreases items@.len() - i,
            {
                let (index, cell) = items[i];
                proof {
                    grid.lemma_iter_yields_only_occupied(
                        (rect.left, rect.right),
                        (rect.bottom, rect.top),
                        i as int,
                    );
                }
                let (wx, wy) = cell_center_world(grid, transform, index);
                out.push(ExtractedCell { index, world_x: wx, world_y: wy, cell });
                i = i + 1;
            }
            out
        },
    }
}

} // verus!
