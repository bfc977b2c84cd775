//! Picking: mapping world-space points and rectangles to the grid cells
//! they cover.
//!
//! All of it is exact integer arithmetic. A world point handed to the
//! public functions has fixed-point coordinates at denominator `SCALE`;
//! internally a point is carried at denominator `SCALE * SCALE` (so that
//! transformed rectangle corners stay exact), and the grid-local
//! coordinates that decide a pick are rationals whose numerator and
//! denominator the specification functions below spell out.
//!
//! With the owner's transform `T = (M, t)` and the grid's alignment anchor
//! `a`, the grid transform is `T` composed with a translation by
//! `-a * grid_size`, and a query point `p` has grid-local position
//! `M^{-1} * (p - t) + a * grid_size` (in world units at denominator
//! `SCALE`). A cell index is the floor of the local position divided by the
//! cell size; the bounded pick additionally requires the local position to
//! lie inside `[0, grid_size)` on both axes.

use crate::fixed::{
    COORD_MAX, DIM_MAX, HALF_EXTENT_MAX, HALF_SCALE, SCALE, ScaledVec2, div_floor_i128,
    lemma_div_at_least, lemma_div_below, lemma_div_cancel_factor, lemma_div_negative,
    lemma_mul_bounds, sat64, saturate_i64,
};
use vstd::arithmetic::div_mod::lemma_fundamental_div_mod_converse;
use crate::sprite_grid::SpriteGrid;
use crate::transform::WorldTransform;
use crate::view::SpriteGridRect;
use vstd::math::{abs, max, min};
use vstd::prelude::*;

verus! {

/// Flips the sign of a local-coordinate numerator when the determinant is
/// negative, so that the normalized numerator sits over the positive
/// denominator `abs(det) * SCALE * SCALE`.
pub open spec fn norm(det: int, n: int) -> int {
    if det >= 0 {
        n
    } else {
        -n
    }
}

/// The positive denominator, divided by `SCALE`, of a normalized grid-local
/// coordinate: a local coordinate is `n / (dd_of(t) * SCALE)` world units.
pub open spec fn dd_of(t: WorldTransform) -> int {
    abs(t.det()) * SCALE
}

/// Numerator (at denominator `det * SCALE * SCALE`) of the grid-local x
/// coordinate of a world point whose fixed-point numerators `(pxn, pyn)`
/// are at denominator `SCALE * SCALE`.
pub open spec fn local_x_num2(g: SpriteGrid, t: WorldTransform, pxn: int, pyn: int) -> int {
    (t.m11 * (pxn - t.tx * SCALE) - t.m01 * (pyn - t.ty * SCALE)) * SCALE + g.alignment.0.x
        * g.gs_x() * t.det()
}

/// Numerator (at denominator `det * SCALE * SCALE`) of the grid-local y
/// coordinate of a world point at denominator `SCALE * SCALE`.
pub open spec fn local_y_num2(g: SpriteGrid, t: WorldTransform, pxn: int, pyn: int) -> int {
    (t.m00 * (pyn - t.ty * SCALE) - t.m10 * (pxn - t.tx * SCALE)) * SCALE + g.alignment.0.y
        * g.gs_y() * t.det()
}

/// Numerator (at denominator `det * SCALE * SCALE`) of the grid-local x
/// coordinate of a world point at denominator `SCALE * SCALE * SCALE`
/// (the denominator at which exact cell centers live).
pub open spec fn local_x_num3(g: SpriteGrid, t: WorldTransform, pxn: int, pyn: int) -> int {
    t.m11 * (pxn - t.tx * SCALE * SCALE) - t.m01 * (pyn - t.ty * SCALE * SCALE) + g.alignment.0.x
        * g.gs_x() * t.det()
}

/// Numerator (at denominator `det * SCALE * SCALE`) of the grid-local y
/// coordinate of a world point at denominator `SCALE * SCALE * SCALE`.
pub open spec fn local_y_num3(g: SpriteGrid, t: WorldTransform, pxn: int, pyn: int) -> int {
    t.m00 * (pyn - t.ty * SCALE * SCALE) - t.m10 * (pxn - t.tx * SCALE * SCALE) + g.alignment.0.y
        * g.gs_y() * t.det()
}

/// A normalized local coordinate `n / (dd * SCALE)` lies inside `[0, gs / SCALE)`.
pub open spec fn axis_in(n: int, dd: int, gs: int) -> bool {
    0 <= n && n < gs * dd
}

/// The cell index along one axis: the floor of the local coordinate
/// divided by the cell size.
pub open spec fn axis_index(n: int, dd: int, cs: int) -> int {
    n / (dd * cs)
}

/// What `pick_cell` returns for a world point at denominator
/// `SCALE * SCALE`: `None` on degenerate geometry or outside the grid's
/// footprint, otherwise the covered cell index.
pub open spec fn pick_spec2(g: SpriteGrid, t: WorldTransform, pxn: int, pyn: int) -> Option<
    (usize, usize),
> {
    if t.det() == 0 || g.cell_size.x <= 0 || g.cell_size.y <= 0 {
        None
    } else {
        let dd = dd_of(t);
        let nx = norm(t.det(), local_x_num2(g, t, pxn, pyn));
        let ny = norm(t.det(), local_y_num2(g, t, pxn, pyn));
        if axis_in(nx, dd, g.gs_x()) && axis_in(ny, dd, g.gs_y()) {
            Some(
                (
                    axis_index(nx, dd, g.cell_size.x as int) as usize,
                    axis_index(ny, dd, g.cell_size.y as int) as usize,
                ),
            )
        } else {
            None
        }
    }
}

/// What `pick_cell_unbounded` returns for a world point at denominator
/// `SCALE * SCALE`: the floor cell index on each axis, unclamped except for
/// saturation into `i64`.
pub open spec fn unbounded_spec2(g: SpriteGrid, t: WorldTransform, pxn: int, pyn: int) -> (
    int,
    int,
) {
    let dd = dd_of(t);
    (
        sat64(axis_index(norm(t.det(), local_x_num2(g, t, pxn, pyn)), dd, g.cell_size.x as int)),
        sat64(axis_index(norm(t.det(), local_y_num2(g, t, pxn, pyn)), dd, g.cell_size.y as int)),
    )
}

/// What picking returns for a world point at the finer denominator
/// `SCALE * SCALE * SCALE` — the denominator at which exact cell centers
/// live. Used to state laws about cell centers.
pub open spec fn pick_spec3(g: SpriteGrid, t: WorldTransform, pxn: int, pyn: int) -> Option<
    (usize, usize),
> {
    if t.det() == 0 || g.cell_size.x <= 0 || g.cell_size.y <= 0 {
        None
    } else {
        let dd = dd_of(t);
        let nx = norm(t.det(), local_x_num3(g, t, pxn, pyn));
        let ny = norm(t.det(), local_y_num3(g, t, pxn, pyn));
        if axis_in(nx, dd, g.gs_x()) && axis_in(ny, dd, g.gs_y()) {
            Some(
                (
                    axis_index(nx, dd, g.cell_size.x as int) as usize,
                    axis_index(ny, dd, g.cell_size.y as int) as usize,
                ),
            )
        } else {
            None
        }
    }
}

/// x numerator (at denominator `SCALE * SCALE`) of cell `(x, y)`'s center
/// in aligned grid-local space: `(x + 1/2) * cell_size - anchor * grid_size`.
pub open spec fn center_local_x_num(g: SpriteGrid, x: int) -> int {
    (2 * x + 1) * g.cell_size.x * HALF_SCALE - g.alignment.0.x * g.gs_x()
}

/// y numerator (at denominator `SCALE * SCALE`) of cell `(x, y)`'s center
/// in aligned grid-local space.
pub open spec fn center_local_y_num(g: SpriteGrid, y: int) -> int {
    (2 * y + 1) * g.cell_size.y * HALF_SCALE - g.alignment.0.y * g.gs_y()
}

/// x numerator (at denominator `SCALE * SCALE * SCALE`) of cell `(x, y)`'s
/// center in world space: the aligned local center pushed through the
/// owner's transform. This is the position a renderer draws the cell at.
pub open spec fn center_world_x_num(g: SpriteGrid, t: WorldTransform, x: int, y: int) -> int {
    t.m00 * center_local_x_num(g, x) + t.m01 * center_local_y_num(g, y) + t.tx * SCALE * SCALE
}

/// y numerator (at denominator `SCALE * SCALE * SCALE`) of cell `(x, y)`'s
/// center in world space.
pub open spec fn center_world_y_num(g: SpriteGrid, t: WorldTransform, x: int, y: int) -> int {
    t.m10 * center_local_x_num(g, x) + t.m11 * center_local_y_num(g, y) + t.ty * SCALE * SCALE
}

/// x numerator (at denominator `SCALE * SCALE`) of a rectangle corner at
/// offset `(hx, hy)` from the rectangle's center, placed by `rt`.
pub open spec fn corner_x_num(rt: WorldTransform, hx: int, hy: int) -> int {
    rt.m00 * hx + rt.m01 * hy + rt.tx * SCALE
}

/// y numerator (at denominator `SCALE * SCALE`) of a rectangle corner at
/// offset `(hx, hy)` from the rectangle's center, placed by `rt`.
pub open spec fn corner_y_num(rt: WorldTransform, hx: int, hy: int) -> int {
    rt.m10 * hx + rt.m11 * hy + rt.ty * SCALE
}

/// The index rectangle enclosing four (already transformed) query corners,
/// given at denominator `SCALE * SCALE`: each corner is unbounded-picked,
/// the four indices are boxed by min/max per axis, a box entirely outside
/// the grid yields `None`, and a surviving box is clamped to the grid and
/// returned half-open.
pub open spec fn pick_rect_core(
    g: SpriteGrid,
    t: WorldTransform,
    c0: (int, int),
    c1: (int, int),
    c2: (int, int),
    c3: (int, int),
) -> Option<SpriteGridRect> {
    let u0 = unbounded_spec2(g, t, c0.0, c0.1);
    let u1 = unbounded_spec2(g, t, c1.0, c1.1);
    let u2 = unbounded_spec2(g, t, c2.0, c2.1);
    let u3 = unbounded_spec2(g, t, c3.0, c3.1);
    let min_x = min(min(u0.0, u1.0), min(u2.0, u3.0));
    let max_x = max(max(u0.0, u1.0), max(u2.0, u3.0));
    let min_y = min(min(u0.1, u1.1), min(u2.1, u3.1));
    let max_y = max(max(u0.1, u1.1), max(u2.1, u3.1));
    if max_x < 0 || max_y < 0 || min_x >= g.x_len || min_y >= g.y_len {
        None
    } else {
        Some(
            SpriteGridRect {
                left: max(min_x, 0) as usize,
                right: (min(max_x, g.x_len - 1) + 1) as usize,
                bottom: max(min_y, 0) as usize,
                top: (min(max_y, g.y_len - 1) + 1) as usize,
            },
        )
    }
}

/// What `pick_rect` returns: `None` for an empty or degenerate grid,
/// otherwise the clamped index box enclosing the four corners of the query
/// rectangle of half extent `half` placed by `rt`.
pub open spec fn pick_rect_spec(
    g: SpriteGrid,
    t: WorldTransform,
    half: ScaledVec2,
    rt: WorldTransform,
) -> Option<SpriteGridRect> {
    if g.x_len == 0 || g.y_len == 0 || t.det() == 0 || g.cell_size.x <= 0 || g.cell_size.y <= 0 {
        None
    } else {
        let hx = half.x as int;
        let hy = half.y as int;
        pick_rect_core(
            g,
            t,
            (corner_x_num(rt, -hx, -hy), corner_y_num(rt, -hx, -hy)),
            (corner_x_num(rt, -hx, hy), corner_y_num(rt, -hx, hy)),
            (corner_x_num(rt, hx, hy), corner_y_num(rt, hx, hy)),
            (corner_x_num(rt, hx, -hy), corner_y_num(rt, hx, -hy)),
        )
    }
}

/// Magnitude bound for the denominator-`SCALE * SCALE` points the internal
/// arithmetic accepts (any transformed corner of an accepted query
/// rectangle fits).
const PT2_MAX: i128 = 0x40_0000_0000_0000_0000;

/// Magnitude bound for normalized local-coordinate numerators.
const QNUM_MAX: i128 = 0x80000_0000_0000_0000_0000_0000_0000;

/// The normalized grid-local coordinate numerators of a point at
/// denominator `SCALE * SCALE`, by exact `i128` arithmetic.
fn local_norm_nums(g: &SpriteGrid, t: &WorldTransform, pxn: i128, pyn: i128, det: i128) -> (r: (
    i128,
    i128,
))
    requires
        g.wf(),
        t.wf(),
        det == t.det(),
        -PT2_MAX <= pxn <= PT2_MAX,
        -PT2_MAX <= pyn <= PT2_MAX,
    ensures
        r.0 == norm(t.det(), local_x_num2(*g, *t, pxn as int, pyn as int)),
        r.1 == norm(t.det(), local_y_num2(*g, *t, pxn as int, pyn as int)),
        -QNUM_MAX <= r.0 <= QNUM_MAX,
        -QNUM_MAX <= r.1 <= QNUM_MAX,
{
    let s: i128 = SCALE as i128;
    proof {
        lemma_mul_bounds(t.m00 as int, t.m11 as int, 0x400_0000, 0x400_0000);
        lemma_mul_bounds(t.m01 as int, t.m10 as int, 0x400_0000, 0x400_0000);
        lemma_mul_bounds(t.tx as int, SCALE as int, COORD_MAX as int, SCALE as int);
        lemma_mul_bounds(t.ty as int, SCALE as int, COORD_MAX as int, SCALE as int);
    }
    let dx: i128 = pxn - t.tx as i128 * s;
    let dy: i128 = pyn - t.ty as i128 * s;
    proof {
        lemma_mul_bounds(t.m11 as int, dx as int, 0x400_0000, 0x80_0000_0000_0000_0000);
        lemma_mul_bounds(t.m01 as int, dy as int, 0x400_0000, 0x80_0000_0000_0000_0000);
        lemma_mul_bounds(t.m00 as int, dy as int, 0x400_0000, 0x80_0000_0000_0000_0000);
        lemma_mul_bounds(t.m10 as int, dx as int, 0x400_0000, 0x80_0000_0000_0000_0000);
    }
    let ux: i128 = t.m11 as i128 * dx - t.m01 as i128 * dy;
    let uy: i128 = t.m00 as i128 * dy - t.m10 as i128 * dx;
    let gsx: i128 = g.x_len as i128 * g.cell_size.x as i128;
    let gsy: i128 = g.y_len as i128 * g.cell_size.y as i128;
    proof {
        lemma_mul_bounds(g.alignment.0.x as int, gsx as int, 0x10_0000, COORD_MAX as int);
        lemma_mul_bounds(g.alignment.0.y as int, gsy as int, 0x10_0000, COORD_MAX as int);
    }
    let ax_term: i128 = g.alignment.0.x as i128 * gsx;
    let ay_term: i128 = g.alignment.0.y as i128 * gsy;
    proof {
        lemma_mul_bounds(ux as int, SCALE as int, 0x4_0000_0000_0000_0000_0000_0000, SCALE as int);
        lemma_mul_bounds(uy as int, SCALE as int, 0x4_0000_0000_0000_0000_0000_0000, SCALE as int);
        lemma_mul_bounds(
            ax_term as int,
            det as int,
            0x1000_0000_0000_0000,
            0x20_0000_0000_0000,
        );
        lemma_mul_bounds(
            ay_term as int,
            det as int,
            0x1000_0000_0000_0000,
            0x20_0000_0000_0000,
        );
    }
    let nx_raw: i128 = ux * s + ax_term * det;
    let ny_raw: i128 = uy * s + ay_term * det;
    if det >= 0 {
        (nx_raw, ny_raw)
    } else {
        (-nx_raw, -ny_raw)
    }
}

/// The saturated floor cell index of a point at denominator
/// `SCALE * SCALE`, on both axes.
fn pick_unbounded_nums(g: &SpriteGrid, t: &WorldTransform, pxn: i128, pyn: i128, det: i128) -> (r:
    (i64, i64))
    requires
        g.wf(),
        t.wf(),
        det == t.det(),
        det != 0,
        g.cell_size.x > 0,
        g.cell_size.y > 0,
        -PT2_MAX <= pxn <= PT2_MAX,
        -PT2_MAX <= pyn <= PT2_MAX,
    ensures
        r.0 as int == unbounded_spec2(*g, *t, pxn as int, pyn as int).0,
        r.1 as int == unbounded_spec2(*g, *t, pxn as int, pyn as int).1,
{
    proof {
        lemma_mul_bounds(t.m00 as int, t.m11 as int, 0x400_0000, 0x400_0000);
        lemma_mul_bounds(t.m01 as int, t.m10 as int, 0x400_0000, 0x400_0000);
    }
    let (nx, ny) = local_norm_nums(g, t, pxn, pyn, det);
    let det_abs: i128 = if det < 0 {
        -det
    } else {
        det
    };
    proof {
        lemma_mul_bounds(det_abs as int, SCALE as int, 0x20_0000_0000_0000, SCALE as int);
    }
    let dd: i128 = det_abs * SCALE as i128;
    proof {
        lemma_mul_bounds(dd as int, g.cell_size.x as int, 0x20_0000_0000_0000_0000, COORD_MAX as int);
        lemma_mul_bounds(dd as int, g.cell_size.y as int, 0x20_0000_0000_0000_0000, COORD_MAX as int);
    }
    let divx: i128 = dd * g.cell_size.x as i128;
    let divy: i128 = dd * g.cell_size.y as i128;
    proof {
        assert(divx as int > 0 && divy as int > 0) by (nonlinear_arith)
            requires
                det_abs as int >= 1,
                dd as int == det_abs as int * 65536,
                divx as int == dd as int * g.cell_size.x as int,
                divy as int == dd as int * g.cell_size.y as int,
                g.cell_size.x as int > 0,
                g.cell_size.y as int > 0,
        ;
    }
    let ix = div_floor_i128(nx, divx);
    let iy = div_floor_i128(ny, divy);
    (saturate_i64(ix), saturate_i64(iy))
}

/// Picks the cell covering a world-space point, or `None` when the point
/// lies outside the grid's footprint or the geometry is degenerate (empty
/// grid, non-positive cell size, or a non-invertible transform).
///
/// This is the only picking entry point that bounds-checks the result.
pub fn pick_cell(grid: &SpriteGrid, transform: &WorldTransform, point: ScaledVec2) -> (r: Option<
    (usize, usize),
>)
    requires
        grid.wf(),
        transform.wf(),
        point.bounded(),
    ensures
        r == pick_spec2(*grid, *transform, point.x * SCALE, point.y * SCALE),
        r is Some ==> r->Some_0.0 < grid.x_len && r->Some_0.1 < grid.y_len,
{
    proof {
        lemma_mul_bounds(transform.m00 as int, transform.m11 as int, 0x400_0000, 0x400_0000);
        lemma_mul_bounds(transform.m01 as int, transform.m10 as int, 0x400_0000, 0x400_0000);
    }
    let det: i128 = transform.m00 as i128 * transform.m11 as i128 - transform.m01 as i128
        * transform.m10 as i128;
    if det == 0 || grid.cell_size.x <= 0 || grid.cell_size.y <= 0 {
        return None;
    }
    proof {
        lemma_mul_bounds(point.x as int, SCALE as int, COORD_MAX as int, SCALE as int);
        lemma_mul_bounds(point.y as int, SCALE as int, COORD_MAX as int, SCALE as int);
    }
    let pxn: i128 = point.x as i128 * SCALE as i128;
    let pyn: i128 = point.y as i128 * SCALE as i128;
    let (nx, ny) = local_norm_nums(grid, transform, pxn, pyn, det);
    if nx < 0 || ny < 0 {
        return None;
    }
    let det_abs: i128 = if det < 0 {
        -det
    } else {
        det
    };
    proof {
        lemma_mul_bounds(det_abs as int, SCALE as int, 0x20_0000_0000_0000, SCALE as int);
    }
    let dd: i128 = det_abs * SCALE as i128;
    let gsx: i128 = grid.x_len as i128 * grid.cell_size.x as i128;
    let gsy: i128 = grid.y_len as i128 * grid.cell_size.y as i128;
    proof {
        lemma_mul_bounds(gsx as int, dd as int, COORD_MAX as int, 0x20_0000_0000_0000_0000);
        lemma_mul_bounds(gsy as int, dd as int, COORD_MAX as int, 0x20_0000_0000_0000_0000);
    }
    let bx: i128 = gsx * dd;
    let by: i128 = gsy * dd;
    if nx >= bx || ny >= by {
        return None;
    }
    proof {
        lemma_mul_bounds(dd as int, grid.cell_size.x as int, 0x20_0000_0000_0000_0000, COORD_MAX as int);
        lemma_mul_bounds(dd as int, grid.cell_size.y as int, 0x20_0000_0000_0000_0000, COORD_MAX as int);
    }
    let divx: i128 = dd * grid.cell_size.x as i128;
    let divy: i128 = dd * grid.cell_size.y as i128;
    proof {
        assert(divx as int > 0 && divy as int > 0) by (nonlinear_arith)
            requires
                det_abs as int >= 1,
                dd as int == det_abs as int * 65536,
                divx as int == dd as int * grid.cell_size.x as int,
                divy as int == dd as int * grid.cell_size.y as int,
                grid.cell_size.x as int > 0,
                grid.cell_size.y as int > 0,
        ;
    }
    let ix = div_floor_i128(nx, divx);
    let iy = div_floor_i128(ny, divy);
    proof {
        assert(gsx * dd == grid.x_len as int * (dd * grid.cell_size.x as int)) by (nonlinear_arith)
            requires
                gsx == grid.x_len as int * grid.cell_size.x as int,
        ;
        assert(gsy * dd == grid.y_len as int * (dd * grid.cell_size.y as int)) by (nonlinear_arith)
            requires
                gsy == grid.y_len as int * grid.cell_size.y as int,
        ;
        lemma_div_below(nx as int, divx as int, grid.x_len as int);
        lemma_div_below(ny as int, divy as int, grid.y_len as int);
    }
    Some((ix as usize, iy as usize))
}

/// Picks the (unclamped) cell index a world-space point falls in, extended
/// over the whole plane: the result may be negative or reach past the
/// grid's dimensions. The geometry must not be degenerate.
pub fn pick_cell_unbounded(grid: &SpriteGrid, transform: &WorldTransform, point: ScaledVec2) -> (r:
    (i64, i64))
    requires
        grid.wf(),
        transform.wf(),
        point.bounded(),
        transform.det() != 0,
        grid.cell_size.x > 0,
        grid.cell_size.y > 0,
    ensures
        r.0 as int == unbounded_spec2(*grid, *transform, point.x * SCALE, point.y * SCALE).0,
        r.1 as int == unbounded_spec2(*grid, *transform, point.x * SCALE, point.y * SCALE).1,
{
    proof {
        lemma_mul_bounds(transform.m00 as int, transform.m11 as int, 0x400_0000, 0x400_0000);
        lemma_mul_bounds(transform.m01 as int, transform.m10 as int, 0x400_0000, 0x400_0000);
        lemma_mul_bounds(point.x as int, SCALE as int, COORD_MAX as int, SCALE as int);
        lemma_mul_bounds(point.y as int, SCALE as int, COORD_MAX as int, SCALE as int);
    }
    let det: i128 = transform.m00 as i128 * transform.m11 as i128 - transform.m01 as i128
        * transform.m10 as i128;
    let pxn: i128 = point.x as i128 * SCALE as i128;
    let pyn: i128 = point.y as i128 * SCALE as i128;
    pick_unbounded_nums(grid, transform, pxn, pyn, det)
}

/// Picks the grid cells covered by an axis-aligned rectangle of half
/// extent `rect_half_size`, placed in the world by `rect_transform`:
/// the four corners are transformed, unbounded-picked, and boxed by
/// min/max per axis; the box is clamped into the grid and returned as a
/// half-open rect, or `None` when it misses the grid entirely or the
/// geometry is degenerate.
///
/// A rotated rectangle is handled conservatively through the index-space
/// bounding box of its four corners, which may over-select boundary cells.
pub fn pick_rect(
    grid: &SpriteGrid,
    transform: &WorldTransform,
    rect_half_size: ScaledVec2,
    rect_transform: &WorldTransform,
) -> (r: Option<SpriteGridRect>)
    requires
        grid.wf(),
        transform.wf(),
        rect_transform.wf(),
        -HALF_EXTENT_MAX <= rect_half_size.x <= HALF_EXTENT_MAX,
        -HALF_EXTENT_MAX <= rect_half_size.y <= HALF_EXTENT_MAX,
    ensures
        r == pick_rect_spec(*grid, *transform, rect_half_size, *rect_transform),
        r is Some ==> r->Some_0.is_valid() && r->Some_0.right <= grid.x_len && r->Some_0.top
            <= grid.y_len,
{
    if grid.x_len == 0 || grid.y_len == 0 {
        return None;
    }
    proof {
        lemma_mul_bounds(transform.m00 as int, transform.m11 as int, 0x400_0000, 0x400_0000);
        lemma_mul_bounds(transform.m01 as int, transform.m10 as int, 0x400_0000, 0x400_0000);
    }
    let det: i128 = transform.m00 as i128 * transform.m11 as i128 - transform.m01 as i128
        * transform.m10 as i128;
    if det == 0 || grid.cell_size.x <= 0 || grid.cell_size.y <= 0 {
        return None;
    }
    let hx: i128 = rect_half_size.x as i128;
    let hy: i128 = rect_half_size.y as i128;
    proof {
        lemma_mul_bounds(rect_transform.m00 as int, hx as int, 0x400_0000, HALF_EXTENT_MAX as int);
        lemma_mul_bounds(rect_transform.m01 as int, hy as int, 0x400_0000, HALF_EXTENT_MAX as int);
        lemma_mul_bounds(rect_transform.m10 as int, hx as int, 0x400_0000, HALF_EXTENT_MAX as int);
        lemma_mul_bounds(rect_transform.m11 as int, hy as int, 0x400_0000, HALF_EXTENT_MAX as int);
        lemma_mul_bounds(
            rect_transform.m00 as int,
            -(hx as int),
            0x400_0000,
            HALF_EXTENT_MAX as int,
        );
        lemma_mul_bounds(
            rect_transform.m01 as int,
            -(hy as int),
            0x400_0000,
            HALF_EXTENT_MAX as int,
        );
        lemma_mul_bounds(
            rect_transform.m10 as int,
            -(hx as int),
            0x400_0000,
            HALF_EXTENT_MAX as int,
        );
        lemma_mul_bounds(
            rect_transform.m11 as int,
            -(hy as int),
            0x400_0000,
            HALF_EXTENT_MAX as int,
        );
        lemma_mul_bounds(rect_transform.tx as int, SCALE as int, COORD_MAX as int, SCALE as int);
        lemma_mul_bounds(rect_transform.ty as int, SCALE as int, COORD_MAX as int, SCALE as int);
    }
    let m00: i128 = rect_transform.m00 as i128;
    let m01: i128 = rect_transform.m01 as i128;
    let m10: i128 = rect_transform.m10 as i128;
    let m11: i128 = rect_transform.m11 as i128;
    let txs: i128 = rect_transform.tx as i128 * SCALE as i128;
    let tys: i128 = rect_transform.ty as i128 * SCALE as i128;
    let c0x: i128 = m00 * (-hx) + m01 * (-hy) + txs;
    let c0y: i128 = m10 * (-hx) + m11 * (-hy) + tys;
    let c1x: i128 = m00 * (-hx) + m01 * hy + txs;
    let c1y: i128 = m10 * (-hx) + m11 * hy + tys;
    let c2x: i128 = m00 * hx + m01 * hy + txs;
    let c2y: i128 = m10 * hx + m11 * hy + tys;
    let c3x: i128 = m00 * hx + m01 * (-hy) + txs;
    let c3y: i128 = m10 * hx + m11 * (-hy) + tys;
    let u0 = pick_unbounded_nums(grid, transform, c0x, c0y, det);
    let u1 = pick_unbounded_nums(grid, transform, c1x, c1y, det);
    let u2 = pick_unbounded_nums(grid, transform, c2x, c2y, det);
    let u3 = pick_unbounded_nums(grid, transform, c3x, c3y, det);
    let min_x: i64 = min4(u0.0, u1.0, u2.0, u3.0);
    let max_x: i64 = max4(u0.0, u1.0, u2.0, u3.0);
    let min_y: i64 = min4(u0.1, u1.1, u2.1, u3.1);
    let max_y: i64 = max4(u0.1, u1.1, u2.1, u3.1);
    if max_x < 0 || max_y < 0 {
        return None;
    }
    if min_x >= grid.x_len as i64 || min_y >= grid.y_len as i64 {
        return None;
    }
    let left: usize = if min_x > 0 {
        min_x as usize
    } else {
        0
    };
    let right_minus_1: i64 = if max_x < grid.x_len as i64 - 1 {
        max_x
    } else {
        grid.x_len as i64 - 1
    };
    let bottom: usize = if min_y > 0 {
        min_y as usize
    } else {
        0
    };
    let top_minus_1: i64 = if max_y < grid.y_len as i64 - 1 {
        max_y
    } else {
        grid.y_len as i64 - 1
    };
    Some(
        SpriteGridRect {
            left,
            right: right_minus_1 as usize + 1,
            bottom,
            top: top_minus_1 as usize + 1,
        },
    )
}

/// Magnitude bound for an aligned local cell-center numerator.
pub const CENTER_LOCAL_MAX: i128 = 0x100_0000_0000_0000_0000_0000;

/// The exact aligned grid-local position of cell `(x, y)`'s center, as
/// fixed-point numerators at denominator `SCALE * SCALE`.
pub fn cell_center_local(grid: &SpriteGrid, index: (usize, usize)) -> (r: (i128, i128))
    requires
        grid.wf(),
        index.0 < grid.x_len,
        index.1 < grid.y_len,
    ensures
        r.0 == center_local_x_num(*grid, index.0 as int),
        r.1 == center_local_y_num(*grid, index.1 as int),
        -CENTER_LOCAL_MAX <= r.0 <= CENTER_LOCAL_MAX,
        -CENTER_LOCAL_MAX <= r.1 <= CENTER_LOCAL_MAX,
{
    let ox: i128 = 2 * index.0 as i128 + 1;
    let oy: i128 = 2 * index.1 as i128 + 1;
    proof {
        lemma_mul_bounds(ox as int, grid.cell_size.x as int, 0x1_0000_0000, COORD_MAX as int);
        lemma_mul_bounds(oy as int, grid.cell_size.y as int, 0x1_0000_0000, COORD_MAX as int);
    }
    let cx: i128 = ox * grid.cell_size.x as i128;
    let cy: i128 = oy * grid.cell_size.y as i128;
    proof {
        lemma_mul_bounds(cx as int, HALF_SCALE as int, 0x100_0000_0000_0000_0000, HALF_SCALE as int);
        lemma_mul_bounds(cy as int, HALF_SCALE as int, 0x100_0000_0000_0000_0000, HALF_SCALE as int);
    }
    let chx: i128 = cx * HALF_SCALE as i128;
    let chy: i128 = cy * HALF_SCALE as i128;
    let gsx: i128 = grid.x_len as i128 * grid.cell_size.x as i128;
    let gsy: i128 = grid.y_len as i128 * grid.cell_size.y as i128;
    proof {
        lemma_mul_bounds(grid.alignment.0.x as int, gsx as int, 0x10_0000, COORD_MAX as int);
        lemma_mul_bounds(grid.alignment.0.y as int, gsy as int, 0x10_0000, COORD_MAX as int);
    }
    let ax: i128 = grid.alignment.0.x as i128 * gsx;
    let ay: i128 = grid.alignment.0.y as i128 * gsy;
    (chx - ax, chy - ay)
}

/// The exact world position of cell `(x, y)`'s center under the owner's
/// transform, as fixed-point numerators at denominator
/// `SCALE * SCALE * SCALE`. This is the placement a renderer uses, and the
/// position `lemma_pick_center` shows picking maps back to `(x, y)`.
pub fn cell_center_world(
    grid: &SpriteGrid,
    transform: &WorldTransform,
    index: (usize, usize),
) -> (r: (i128, i128))
    requires
        grid.wf(),
        transform.wf(),
        index.0 < grid.x_len,
        index.1 < grid.y_len,
    ensures
        r.0 == center_world_x_num(*grid, *transform, index.0 as int, index.1 as int),
        r.1 == center_world_y_num(*grid, *transform, index.0 as int, index.1 as int),
{
    let (lx, ly) = cell_center_local(grid, index);
    proof {
        lemma_mul_bounds(transform.m00 as int, lx as int, 0x400_0000, CENTER_LOCAL_MAX as int);
        lemma_mul_bounds(transform.m01 as int, ly as int, 0x400_0000, CENTER_LOCAL_MAX as int);
        lemma_mul_bounds(transform.m10 as int, lx as int, 0x400_0000, CENTER_LOCAL_MAX as int);
        lemma_mul_bounds(transform.m11 as int, ly as int, 0x400_0000, CENTER_LOCAL_MAX as int);
        lemma_mul_bounds(transform.tx as int, SCALE as int, COORD_MAX as int, SCALE as int);
        lemma_mul_bounds(transform.ty as int, SCALE as int, COORD_MAX as int, SCALE as int);
        lemma_mul_bounds(
            (transform.tx * SCALE) as int,
            SCALE as int,
            0x100_0000_0000_0000,
            SCALE as int,
        );
        lemma_mul_bounds(
            (transform.ty * SCALE) as int,
            SCALE as int,
            0x100_0000_0000_0000,
            SCALE as int,
        );
    }
    let wx: i128 = transform.m00 as i128 * lx + transform.m01 as i128 * ly + transform.tx as i128
        * SCALE as i128 * SCALE as i128;
    let wy: i128 = transform.m10 as i128 * lx + transform.m11 as i128 * ly + transform.ty as i128
        * SCALE as i128 * SCALE as i128;
    (wx, wy)
}

/// Law: picking is the left inverse of cell-center placement. For every
/// alignment anchor and every invertible transform, with a positive cell
/// size, picking the exact world position of cell `(x, y)`'s center
/// returns `(x, y)`.
pub proof fn lemma_pick_center(g: SpriteGrid, t: WorldTransform, x: int, y: int)
    requires
        t.det() != 0,
        g.cell_size.x > 0,
        g.cell_size.y > 0,
        0 <= x < g.x_len,
        0 <= y < g.y_len,
    ensures
        pick_spec3(g, t, center_world_x_num(g, t, x, y), center_world_y_num(g, t, x, y)) == Some(
            ((x as usize), (y as usize)),
        ),
{
    let det = t.det();
    let da = abs(det);
    let lx = center_local_x_num(g, x);
    let ly = center_local_y_num(g, y);
    let wx = center_world_x_num(g, t, x, y);
    let wy = center_world_y_num(g, t, x, y);
    let cx = (2 * x + 1) * g.cell_size.x * HALF_SCALE;
    let cy = (2 * y + 1) * g.cell_size.y * HALF_SCALE;
    let n3x = local_x_num3(g, t, wx, wy);
    let n3y = local_y_num3(g, t, wx, wy);
    // the adjugate collapses the transform: only det * (local coordinate) remains
    assert(t.m11 * (wx - t.tx * SCALE * SCALE) - t.m01 * (wy - t.ty * SCALE * SCALE) == det * lx)
        by (nonlinear_arith)
        requires
            wx == t.m00 * lx + t.m01 * ly + t.tx * SCALE * SCALE,
            wy == t.m10 * lx + t.m11 * ly + t.ty * SCALE * SCALE,
            det == t.m00 * t.m11 - t.m01 * t.m10,
    ;
    assert(t.m00 * (wy - t.ty * SCALE * SCALE) - t.m10 * (wx - t.tx * SCALE * SCALE) == det * ly)
        by (nonlinear_arith)
        requires
            wx == t.m00 * lx + t.m01 * ly + t.tx * SCALE * SCALE,
            wy == t.m10 * lx + t.m11 * ly + t.ty * SCALE * SCALE,
            det == t.m00 * t.m11 - t.m01 * t.m10,
    ;
    // undoing the alignment offset leaves det * (unaligned center)
    assert(n3x == det * cx) by (nonlinear_arith)
        requires
            n3x == det * lx + g.alignment.0.x * g.gs_x() * det,
            lx == cx - g.alignment.0.x * g.gs_x(),
    ;
    assert(n3y == det * cy) by (nonlinear_arith)
        requires
            n3y == det * ly + g.alignment.0.y * g.gs_y() * det,
            ly == cy - g.alignment.0.y * g.gs_y(),
    ;
    let nx = norm(det, n3x);
    let ny = norm(det, n3y);
    assert(nx == da * cx && ny == da * cy) by (nonlinear_arith)
        requires
            n3x == det * cx,
            n3y == det * cy,
            nx == if det >= 0 { n3x } else { -n3x },
            ny == if det >= 0 { n3y } else { -n3y },
            da == if det >= 0 { det } else { -det },
    ;
    let dd = dd_of(t);
    // both axes lie strictly inside the grid's extent
    assert(0 <= nx && nx < g.gs_x() * dd) by (nonlinear_arith)
        requires
            nx == da * cx,
            cx == (2 * x + 1) * g.cell_size.x * HALF_SCALE,
            dd == da * SCALE,
            SCALE == 2 * HALF_SCALE,
            HALF_SCALE == 32768,
            g.gs_x() == g.x_len * g.cell_size.x,
            da >= 1,
            g.cell_size.x > 0,
            0 <= x < g.x_len,
    ;
    assert(0 <= ny && ny < g.gs_y() * dd) by (nonlinear_arith)
        requires
            ny == da * cy,
            cy == (2 * y + 1) * g.cell_size.y * HALF_SCALE,
            dd == da * SCALE,
            SCALE == 2 * HALF_SCALE,
            HALF_SCALE == 32768,
            g.gs_y() == g.y_len * g.cell_size.y,
            da >= 1,
            g.cell_size.y > 0,
            0 <= y < g.y_len,
    ;
    // the floor of (x + 1/2) is x
    let kx = da * g.cell_size.x * HALF_SCALE;
    let ky = da * g.cell_size.y * HALF_SCALE;
    assert(nx == (2 * x + 1) * kx && dd * g.cell_size.x == 2 * kx && kx > 0) by (nonlinear_arith)
        requires
            nx == da * ((2 * x + 1) * g.cell_size.x * HALF_SCALE),
            kx == da * g.cell_size.x * HALF_SCALE,
            dd == da * SCALE,
            SCALE == 2 * HALF_SCALE,
            HALF_SCALE == 32768,
            da >= 1,
            g.cell_size.x > 0,
    ;
    assert(ny == (2 * y + 1) * ky && dd * g.cell_size.y == 2 * ky && ky > 0) by (nonlinear_arith)
        requires
            ny == da * ((2 * y + 1) * g.cell_size.y * HALF_SCALE),
            ky == da * g.cell_size.y * HALF_SCALE,
            dd == da * SCALE,
            SCALE == 2 * HALF_SCALE,
            HALF_SCALE == 32768,
            da >= 1,
            g.cell_size.y > 0,
    ;
    lemma_div_cancel_factor(2 * x + 1, 2, kx);
    lemma_div_cancel_factor(2 * y + 1, 2, ky);
    crate::fixed::lemma_half_of_odd(x);
    crate::fixed::lemma_half_of_odd(y);
    assert(axis_index(nx, dd, g.cell_size.x as int) == x);
    assert(axis_index(ny, dd, g.cell_size.y as int) == y);
}

/// The two picking denominators agree: a point handed to `pick_cell` at
/// the public denominator decides the same cell as the same point
/// expressed at the finer cell-center denominator.
pub proof fn lemma_pick_denominators_agree(g: SpriteGrid, t: WorldTransform, px: int, py: int)
    ensures
        pick_spec3(g, t, px * SCALE * SCALE, py * SCALE * SCALE) == pick_spec2(
            g,
            t,
            px * SCALE,
            py * SCALE,
        ),
{
    let n3x = local_x_num3(g, t, px * SCALE * SCALE, py * SCALE * SCALE);
    let n3y = local_y_num3(g, t, px * SCALE * SCALE, py * SCALE * SCALE);
    let n2x = local_x_num2(g, t, px * SCALE, py * SCALE);
    let n2y = local_y_num2(g, t, px * SCALE, py * SCALE);
    assert(n3x == n2x) by (nonlinear_arith)
        requires
            n3x == t.m11 * (px * SCALE * SCALE - t.tx * SCALE * SCALE) - t.m01 * (py * SCALE
                * SCALE - t.ty * SCALE * SCALE) + g.alignment.0.x * g.gs_x() * t.det(),
            n2x == (t.m11 * (px * SCALE - t.tx * SCALE) - t.m01 * (py * SCALE - t.ty * SCALE))
                * SCALE + g.alignment.0.x * g.gs_x() * t.det(),
    ;
    assert(n3y == n2y) by (nonlinear_arith)
        requires
            n3y == t.m00 * (py * SCALE * SCALE - t.ty * SCALE * SCALE) - t.m10 * (px * SCALE
                * SCALE - t.tx * SCALE * SCALE) + g.alignment.0.y * g.gs_y() * t.det(),
            n2y == (t.m00 * (py * SCALE - t.ty * SCALE) - t.m10 * (px * SCALE - t.tx * SCALE))
                * SCALE + g.alignment.0.y * g.gs_y() * t.det(),
    ;
}

/// Law: a query rectangle whose corners map exactly onto the corners of
/// the grid's world-space footprint picks the whole grid, for every
/// alignment anchor. The corners are given in grid-local terms: their
/// normalized local-coordinate numerators sit at `0` or at the grid's full
/// extent on each axis, in the corner order `pick_rect` uses
/// (low-low, low-high, high-high, high-low).
pub proof fn lemma_pick_rect_full_footprint(
    g: SpriteGrid,
    t: WorldTransform,
    c0: (int, int),
    c1: (int, int),
    c2: (int, int),
    c3: (int, int),
)
    requires
        t.det() != 0,
        g.cell_size.x > 0,
        g.cell_size.y > 0,
        1 <= g.x_len <= DIM_MAX,
        1 <= g.y_len <= DIM_MAX,
        norm(t.det(), local_x_num2(g, t, c0.0, c0.1)) == 0,
        norm(t.det(), local_y_num2(g, t, c0.0, c0.1)) == 0,
        norm(t.det(), local_x_num2(g, t, c1.0, c1.1)) == 0,
        norm(t.det(), local_y_num2(g, t, c1.0, c1.1)) == g.gs_y() * dd_of(t),
        norm(t.det(), local_x_num2(g, t, c2.0, c2.1)) == g.gs_x() * dd_of(t),
        norm(t.det(), local_y_num2(g, t, c2.0, c2.1)) == g.gs_y() * dd_of(t),
        norm(t.det(), local_x_num2(g, t, c3.0, c3.1)) == g.gs_x() * dd_of(t),
        norm(t.det(), local_y_num2(g, t, c3.0, c3.1)) == 0,
    ensures
        pick_rect_core(g, t, c0, c1, c2, c3) == Some(
            SpriteGridRect { left: 0, right: g.x_len, bottom: 0, top: g.y_len },
        ),
{
    let det = t.det();
    let da = abs(det);
    let dd = dd_of(t);
    let divx = dd * g.cell_size.x;
    let divy = dd * g.cell_size.y;
    assert(divx > 0 && divy > 0 && g.gs_x() * dd == g.x_len * divx && g.gs_y() * dd == g.y_len
        * divy) by (nonlinear_arith)
        requires
            da >= 1,
            dd == da * SCALE,
            SCALE == 65536,
            divx == dd * g.cell_size.x,
            divy == dd * g.cell_size.y,
            g.cell_size.x > 0,
            g.cell_size.y > 0,
            g.gs_x() == g.x_len * g.cell_size.x,
            g.gs_y() == g.y_len * g.cell_size.y,
    ;
    lemma_fundamental_div_mod_converse(0, divx, 0, 0);
    lemma_fundamental_div_mod_converse(0, divy, 0, 0);
    assert(g.x_len * divx == g.x_len * divx + 0) by (nonlinear_arith);
    assert(g.y_len * divy == g.y_len * divy + 0) by (nonlinear_arith);
    lemma_fundamental_div_mod_converse(g.x_len * divx, divx, g.x_len as int, 0);
    lemma_fundamental_div_mod_converse(g.y_len * divy, divy, g.y_len as int, 0);
    assert(axis_index(0, dd, g.cell_size.x as int) == 0);
    assert(axis_index(g.gs_x() * dd, dd, g.cell_size.x as int) == g.x_len);
    assert(axis_index(0, dd, g.cell_size.y as int) == 0);
    assert(axis_index(g.gs_y() * dd, dd, g.cell_size.y as int) == g.y_len);
}

/// Law: a query rectangle that lies entirely to one side of the grid's
/// world-space footprint picks nothing. "To one side" is stated in
/// grid-local terms: on some axis all four corners' normalized local
/// coordinates are below `0`, or all are at or beyond the grid's extent.
pub proof fn lemma_pick_rect_outside(
    g: SpriteGrid,
    t: WorldTransform,
    c0: (int, int),
    c1: (int, int),
    c2: (int, int),
    c3: (int, int),
)
    requires
        t.det() != 0,
        g.cell_size.x > 0,
        g.cell_size.y > 0,
        g.x_len <= DIM_MAX,
        g.y_len <= DIM_MAX,
        ({
            let dd = dd_of(t);
            let nx0 = norm(t.det(), local_x_num2(g, t, c0.0, c0.1));
            let nx1 = norm(t.det(), local_x_num2(g, t, c1.0, c1.1));
            let nx2 = norm(t.det(), local_x_num2(g, t, c2.0, c2.1));
            let nx3 = norm(t.det(), local_x_num2(g, t, c3.0, c3.1));
            let ny0 = norm(t.det(), local_y_num2(g, t, c0.0, c0.1));
            let ny1 = norm(t.det(), local_y_num2(g, t, c1.0, c1.1));
            let ny2 = norm(t.det(), local_y_num2(g, t, c2.0, c2.1));
            let ny3 = norm(t.det(), local_y_num2(g, t, c3.0, c3.1));
            ||| (nx0 < 0 && nx1 < 0 && nx2 < 0 && nx3 < 0)
            ||| (nx0 >= g.gs_x() * dd && nx1 >= g.gs_x() * dd && nx2 >= g.gs_x() * dd && nx3
                >= g.gs_x() * dd)
            ||| (ny0 < 0 && ny1 < 0 && ny2 < 0 && ny3 < 0)
            ||| (ny0 >= g.gs_y() * dd && ny1 >= g.gs_y() * dd && ny2 >= g.gs_y() * dd && ny3
                >= g.gs_y() * dd)
        }),
    ensures
        pick_rect_core(g, t, c0, c1, c2, c3) is None,
{
    let det = t.det();
    let da = abs(det);
    let dd = dd_of(t);
    let divx = dd * g.cell_size.x;
    let divy = dd * g.cell_size.y;
    assert(divx > 0 && divy > 0 && g.gs_x() * dd == g.x_len * divx && g.gs_y() * dd == g.y_len
        * divy) by (nonlinear_arith)
        requires
            da >= 1,
            dd == da * SCALE,
            SCALE == 65536,
            divx == dd * g.cell_size.x,
            divy == dd * g.cell_size.y,
            g.cell_size.x > 0,
            g.cell_size.y > 0,
            g.gs_x() == g.x_len * g.cell_size.x,
            g.gs_y() == g.y_len * g.cell_size.y,
    ;
    let nx0 = norm(det, local_x_num2(g, t, c0.0, c0.1));
    let nx1 = norm(det, local_x_num2(g, t, c1.0, c1.1));
    let nx2 = norm(det, local_x_num2(g, t, c2.0, c2.1));
    let nx3 = norm(det, local_x_num2(g, t, c3.0, c3.1));
    let ny0 = norm(det, local_y_num2(g, t, c0.0, c0.1));
    let ny1 = norm(det, local_y_num2(g, t, c1.0, c1.1));
    let ny2 = norm(det, local_y_num2(g, t, c2.0, c2.1));
    let ny3 = norm(det, local_y_num2(g, t, c3.0, c3.1));
    if nx0 < 0 && nx1 < 0 && nx2 < 0 && nx3 < 0 {
        lemma_div_negative(nx0, divx);
        lemma_div_negative(nx1, divx);
        lemma_div_negative(nx2, divx);
        lemma_div_negative(nx3, divx);
    } else if nx0 >= g.gs_x() * dd && nx1 >= g.gs_x() * dd && nx2 >= g.gs_x() * dd && nx3
        >= g.gs_x() * dd {
        lemma_div_at_least(nx0, divx, g.x_len as int);
        lemma_div_at_least(nx1, divx, g.x_len as int);
        lemma_div_at_least(nx2, divx, g.x_len as int);
        lemma_div_at_least(nx3, divx, g.x_len as int);
    } else if ny0 < 0 && ny1 < 0 && ny2 < 0 && ny3 < 0 {
        lemma_div_negative(ny0, divy);
        lemma_div_negative(ny1, divy);
        lemma_div_negative(ny2, divy);
        lemma_div_negative(ny3, divy);
    } else {
        lemma_div_at_least(ny0, divy, g.y_len as int);
        lemma_div_at_least(ny1, divy, g.y_len as int);
        lemma_div_at_least(ny2, divy, g.y_len as int);
        lemma_div_at_least(ny3, divy, g.y_len as int);
    }
}

/// The least of four values.
fn min4(a: i64, b: i64, c: i64, d: i64) -> (r: i64)
    ensures
        r as int == min(min(a as int, b as int), min(c as int, d as int)),
{
    let ab: i64 = if a < b {
        a
    } else {
        b
    };
    let cd: i64 = if c < d {
        c
    } else {
        d
    };
    if ab < cd {
        ab
    } else {
        cd
    }
}

/// The greatest of four values.
fn max4(a: i64, b: i64, c: i64, d: i64) -> (r: i64)
    ensures
        r as int == max(max(a as int, b as int), max(c as int, d as int)),
{
    let ab: i64 = if a > b {
        a
    } else {
        b
    };
    let cd: i64 = if c > d {
        c
    } else {
        d
    };
    if ab > cd {
        ab
    } else {
        cd
    }
}

} // verus!
