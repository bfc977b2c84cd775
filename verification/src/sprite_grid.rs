//! The grid store: a dense 2D array of optional cells plus the geometry
//! (cell size, alignment, culling policy) that places it in the world.

use crate::fixed::{ALIGN_MAX, COORD_MAX, DIM_MAX, HALF_SCALE, SCALE, ScaledVec2, div_floor_i128};
use crate::sprite_cell::SpriteCell;
use vstd::prelude::*;

verus! {

/// The fractional anchor relating the grid's nominal transform origin to its
/// bottom-left corner. The components are fixed-point fractions at
/// denominator `SCALE`; the grid's bottom-left corner sits at
/// `-anchor * grid_size` in the owner's local space.
///
/// By default the bottom-left corner of the grid maps to the owner's
/// position.
#[derive(Copy, Clone, Debug, PartialEq, Eq, Structural)]
pub struct SpriteGridAlignment(pub ScaledVec2);

impl SpriteGridAlignment {
    /// Anchor components within the range the picking arithmetic accepts.
    pub open spec fn bounded(self) -> bool {
        &&& -ALIGN_MAX <= self.0.x <= ALIGN_MAX
        &&& -ALIGN_MAX <= self.0.y <= ALIGN_MAX
    }

    /// Anchor at the grid's center.
    pub fn center() -> (r: Self)
        ensures
            r == SpriteGridAlignment(ScaledVec2 { x: HALF_SCALE, y: HALF_SCALE }),
            r.bounded(),
    {
        SpriteGridAlignment(ScaledVec2 { x: HALF_SCALE, y: HALF_SCALE })
    }

    /// Anchor at the bottom-left corner (the default).
    pub fn bottom_left() -> (r: Self)
        ensures
            r == SpriteGridAlignment(ScaledVec2 { x: 0i64, y: 0i64 }),
            r.bounded(),
    {
        SpriteGridAlignment(ScaledVec2 { x: 0, y: 0 })
    }

    /// Anchor at the bottom-right corner.
    pub fn bottom_right() -> (r: Self)
        ensures
            r == SpriteGridAlignment(ScaledVec2 { x: SCALE, y: 0i64 }),
            r.bounded(),
    {
        SpriteGridAlignment(ScaledVec2 { x: SCALE, y: 0 })
    }

    /// Anchor at the top-left corner.
    pub fn top_left() -> (r: Self)
        ensures
            r == SpriteGridAlignment(ScaledVec2 { x: 0i64, y: SCALE }),
            r.bounded(),
    {
        SpriteGridAlignment(ScaledVec2 { x: 0, y: SCALE })
    }

    /// Anchor at the top-right corner.
    pub fn top_right() -> (r: Self)
        ensures
            r == SpriteGridAlignment(ScaledVec2 { x: SCALE, y: SCALE }),
            r.bounded(),
    {
        SpriteGridAlignment(ScaledVec2 { x: SCALE, y: SCALE })
    }
}

impl Default for SpriteGridAlignment {
    /// The default alignment anchors the bottom-left corner.
    fn default() -> (r: Self)
        ensures
            r == SpriteGridAlignment(ScaledVec2 { x: 0i64, y: 0i64 }),
            r.bounded(),
    {
        SpriteGridAlignment(ScaledVec2 { x: 0, y: 0 })
    }
}

/// The margin used by `SpriteGridCulling::default`: 16 world units.
pub const DEFAULT_CULLING_MARGIN: i64 = 16 * SCALE;

/// Whether traversal restricts itself to the camera-visible cells.
///
/// With culling enabled, the camera's query rectangle is extended by
/// `margin` (in world units) before it is intersected against the grid, so
/// cells that are only partially visible at an edge are still included.
#[derive(Copy, Clone, Debug, PartialEq, Eq, Structural)]
pub enum SpriteGridCulling {
    Enabled { margin: ScaledVec2 },
    Disabled,
}

impl SpriteGridCulling {
    /// Margin components within the range the picking arithmetic accepts:
    /// up to twice the coordinate range, which admits the default margin of
    /// one and a half cells at any accepted cell size.
    pub open spec fn wf(self) -> bool {
        match self {
            SpriteGridCulling::Enabled { margin } => {
                &&& -2 * COORD_MAX <= margin.x <= 2 * COORD_MAX
                &&& -2 * COORD_MAX <= margin.y <= 2 * COORD_MAX
            },
            SpriteGridCulling::Disabled => true,
        }
    }
}

impl Default for SpriteGridCulling {
    /// Culling enabled with a fixed margin of 16 world units.
    fn default() -> (r: Self)
        ensures
            r == (SpriteGridCulling::Enabled {
                margin: ScaledVec2 { x: DEFAULT_CULLING_MARGIN, y: DEFAULT_CULLING_MARGIN },
            }),
            r.wf(),
    {
        SpriteGridCulling::Enabled {
            margin: ScaledVec2 { x: DEFAULT_CULLING_MARGIN, y: DEFAULT_CULLING_MARGIN },
        }
    }
}

/// The geometry a grid is constructed with: dimensions in cells, the world
/// size of one cell, and the alignment anchor.
#[derive(Copy, Clone, Debug)]
pub struct SpriteGridGeometry {
    pub grid_size: (usize, usize),
    pub cell_size: ScaledVec2,
    pub alignment: SpriteGridAlignment,
}

impl SpriteGridGeometry {
    /// Dimensions, cell size, anchor and the whole-grid extent all within
    /// the ranges the geometry accepts.
    pub open spec fn wf(self) -> bool {
        &&& self.grid_size.0 <= DIM_MAX
        &&& self.grid_size.1 <= DIM_MAX
        &&& self.cell_size.bounded()
        &&& self.alignment.bounded()
        &&& -COORD_MAX <= self.grid_size.0 * self.cell_size.x <= COORD_MAX
        &&& -COORD_MAX <= self.grid_size.1 * self.cell_size.y <= COORD_MAX
    }

    /// Geometry with the default (bottom-left) alignment.
    pub fn new(grid_size: (usize, usize), cell_size: ScaledVec2) -> (r: Self)
        ensures
            r.grid_size == grid_size,
            r.cell_size == cell_size,
            r.alignment == SpriteGridAlignment(ScaledVec2 { x: 0i64, y: 0i64 }),
    {
        SpriteGridGeometry { grid_size, cell_size, alignment: SpriteGridAlignment::bottom_left() }
    }

    /// Geometry with an explicit alignment anchor.
    pub fn with_alignment(
        grid_size: (usize, usize),
        cell_size: ScaledVec2,
        alignment: SpriteGridAlignment,
    ) -> (r: Self)
        ensures
            r.grid_size == grid_size,
            r.cell_size == cell_size,
            r.alignment == alignment,
    {
        SpriteGridGeometry { grid_size, cell_size, alignment }
    }
}

/// The default culling margin for a freshly constructed grid: one and a half
/// cells, rounded down to the fixed-point grid.
pub open spec fn default_margin(cell_size: ScaledVec2) -> ScaledVec2 {
    ScaledVec2 { x: (3 * cell_size.x / 2) as i64, y: (3 * cell_size.y / 2) as i64 }
}

/// A dense `x_len x y_len` grid of optional cells, with its geometry and
/// culling policy. Slots are indexed as `(x, y)` with `(0, 0)` at the grid's
/// bottom-left corner.
#[derive(Clone)]
pub struct SpriteGrid {
    pub sprite_cells: Vec<Vec<Option<SpriteCell>>>,
    pub alignment: SpriteGridAlignment,
    pub x_len: usize,
    pub y_len: usize,
    pub cell_size: ScaledVec2,
    pub culling: SpriteGridCulling,
}

impl SpriteGrid {
    /// The content of slot `(x, y)`.
    pub open spec fn cell_at(self, x: int, y: int) -> Option<SpriteCell> {
        self.sprite_cells@[x]@[y]
    }

    /// The whole-grid extent along x, in fixed-point world units.
    pub open spec fn gs_x(self) -> int {
        self.x_len * self.cell_size.x
    }

    /// The whole-grid extent along y, in fixed-point world units.
    pub open spec fn gs_y(self) -> int {
        self.y_len * self.cell_size.y
    }

    /// Well-formedness: the storage extents match the dimensions and every
    /// geometric quantity lies within the accepted ranges. Constructors
    /// establish this and every method preserves it.
    pub open spec fn wf(self) -> bool {
        &&& self.sprite_cells@.len() == self.x_len
        &&& forall|i: int|
            0 <= i < self.x_len ==> (#[trigger] self.sprite_cells@[i])@.len() == self.y_len
        &&& self.x_len <= DIM_MAX
        &&& self.y_len <= DIM_MAX
        &&& self.cell_size.bounded()
        &&& self.alignment.bounded()
        &&& -COORD_MAX <= self.gs_x() <= COORD_MAX
        &&& -COORD_MAX <= self.gs_y() <= COORD_MAX
        &&& self.culling.wf()
    }

    /// A grid with every slot empty and the default culling margin.
    pub fn empty(geometry: SpriteGridGeometry) -> (r: Self)
        requires
            geometry.wf(),
        ensures
            r.wf(),
            r.x_len == geometry.grid_size.0,
            r.y_len == geometry.grid_size.1,
            r.cell_size == geometry.cell_size,
            r.alignment == geometry.alignment,
            r.culling == (SpriteGridCulling::Enabled { margin: default_margin(geometry.cell_size) }),
            forall|x: int, y: int|
                0 <= x < r.x_len && 0 <= y < r.y_len ==> r.cell_at(x, y) is None,
    {
        let (x_len, y_len): (usize, usize) = geometry.grid_size;
        let mut cells: Vec<Vec<Option<SpriteCell>>> = Vec::new();
        let mut i: usize = 0;
        while i < x_len
            invariant
                i <= x_len,
                cells@.len() == i,
                forall|k: int| 0 <= k < i ==> (#[trigger] cells@[k])@.len() == y_len,
                forall|k: int, j: int|
                    0 <= k < i && 0 <= j < y_len ==> (#[trigger] cells@[k]@[j]) is None,
            decreases x_len - i,
        {
            let mut row: Vec<Option<SpriteCell>> = Vec::new();
            let mut j: usize = 0;
            while j < y_len
                invariant
                    j <= y_len,
                    row@.len() == j,
                    forall|l: int| 0 <= l < j ==> (#[trigger] row@[l]) is None,
                decreases y_len - j,
            {
                row.push(None);
                j = j + 1;
            }
            cells.push(row);
            i = i + 1;
        }
        SpriteGrid {
            sprite_cells: cells,
            alignment: geometry.alignment,
            x_len,
            y_len,
            cell_size: geometry.cell_size,
            culling: SpriteGridCulling::Enabled { margin: compute_default_margin(geometry.cell_size) },
        }
    }

    /// A grid with every slot holding a copy of `sprite_cell` and the
    /// default culling margin.
    pub fn from_cell(geometry: SpriteGridGeometry, sprite_cell: SpriteCell) -> (r: Self)
        requires
            geometry.wf(),
        ensures
            r.wf(),
            r.x_len == geometry.grid_size.0,
            r.y_len == geometry.grid_size.1,
            r.cell_size == geometry.cell_size,
            r.alignment == geometry.alignment,
            r.culling == (SpriteGridCulling::Enabled { margin: default_margin(geometry.cell_size) }),
            forall|x: int, y: int|
                0 <= x < r.x_len && 0 <= y < r.y_len ==> r.cell_at(x, y) == Some(sprite_cell),
    {
        let (x_len, y_len): (usize, usize) = geometry.grid_size;
        let mut cells: Vec<Vec<Option<SpriteCell>>> = Vec::new();
        let mut i: usize = 0;
        while i < x_len
            invariant
                i <= x_len,
                cells@.len() == i,
                forall|k: int| 0 <= k < i ==> (#[trigger] cells@[k])@.len() == y_len,
                forall|k: int, j: int|
                    0 <= k < i && 0 <= j < y_len ==> (#[trigger] cells@[k]@[j]) == Some(sprite_cell),
            decreases x_len - i,
        {
            let mut row: Vec<Option<SpriteCell>> = Vec::new();
            let mut j: usize = 0;
            while j < y_len
                invariant
                    j <= y_len,
                    row@.len() == j,
                    forall|l: int| 0 <= l < j ==> (#[trigger] row@[l]) == Some(sprite_cell),
                decreases y_len - j,
            {
                row.push(Some(sprite_cell));
                j = j + 1;
            }
            cells.push(row);
            i = i + 1;
        }
        SpriteGrid {
            sprite_cells: cells,
            alignment: geometry.alignment,
            x_len,
            y_len,
            cell_size: geometry.cell_size,
            culling: SpriteGridCulling::Enabled { margin: compute_default_margin(geometry.cell_size) },
        }
    }

    /// A grid whose slot `(x, y)` holds whatever the generator returns for
    /// `(x, y)`; the generator is consulted once for every index.
    pub fn from_fn<F: Fn((usize, usize)) -> Option<SpriteCell>>(
        geometry: SpriteGridGeometry,
        c: F,
    ) -> (r: Self)
        requires
            geometry.wf(),
            forall|x: usize, y: usize|
                x < geometry.grid_size.0 && y < geometry.grid_size.1 ==> c.requires(((x, y),)),
        ensures
            r.wf(),
            r.x_len == geometry.grid_size.0,
            r.y_len == geometry.grid_size.1,
            r.cell_size == geometry.cell_size,
            r.alignment == geometry.alignment,
            r.culling == (SpriteGridCulling::Enabled { margin: default_margin(geometry.cell_size) }),
            forall|x: usize, y: usize|
                x < r.x_len && y < r.y_len ==> c.ensures(
                    ((x, y),),
                    #[trigger] r.cell_at(x as int, y as int),
                ),
    {
        let (x_len, y_len): (usize, usize) = geometry.grid_size;
        let mut cells: Vec<Vec<Option<SpriteCell>>> = Vec::new();
        let mut i: usize = 0;
        while i < x_len
            invariant
                i <= x_len,
                x_len == geometry.grid_size.0,
                y_len == geometry.grid_size.1,
                forall|x: usize, y: usize| x < x_len && y < y_len ==> c.requires(((x, y),)),
                cells@.len() == i,
                forall|k: int| 0 <= k < i ==> (#[trigger] cells@[k])@.len() == y_len,
                forall|x: usize, y: usize|
                    x < i && y < y_len ==> c.ensures(((x, y),), #[trigger] cells@[x as int]@[y as int]),
            decreases x_len - i,
        {
            let mut row: Vec<Option<SpriteCell>> = Vec::new();
            let mut j: usize = 0;
            while j < y_len
                invariant
                    j <= y_len,
                    i < x_len,
                    x_len == geometry.grid_size.0,
                    y_len == geometry.grid_size.1,
                    forall|x: usize, y: usize| x < x_len && y < y_len ==> c.requires(((x, y),)),
                    row@.len() == j,
                    forall|y: usize| y < j ==> c.ensures(((i, y),), #[trigger] row@[y as int]),
                decreases y_len - j,
            {
                let cell = c((i, j));
                row.push(cell);
                j = j + 1;
            }
            cells.push(row);
            i = i + 1;
        }
        SpriteGrid {
            sprite_cells: cells,
            alignment: geometry.alignment,
            x_len,
            y_len,
            cell_size: geometry.cell_size,
            culling: SpriteGridCulling::Enabled { margin: compute_default_margin(geometry.cell_size) },
        }
    }

    /// The grid's world-space extent: `(x_len, y_len) * cell_size`.
    pub fn grid_size(&self) -> (r: ScaledVec2)
        requires
            self.wf(),
        ensures
            r.x == self.gs_x(),
            r.y == self.gs_y(),
    {
        ScaledVec2 { x: self.x_len as i64 * self.cell_size.x, y: self.y_len as i64 * self.cell_size.y }
    }

    /// Reads slot `(x, y)`. The index must be in range; an out-of-range
    /// index is a caller bug, not a runtime condition.
    pub fn get(&self, index: (usize, usize)) -> (r: Option<SpriteCell>)
        requires
            self.wf(),
            index.0 < self.x_len,
            index.1 < self.y_len,
        ensures
            r == self.cell_at(index.0 as int, index.1 as int),
    {
        self.sprite_cells[index.0][index.1]
    }

    /// Fills slot `(x, y)` with `cell`, leaving every other slot and all
    /// geometry unchanged.
    pub fn set(&mut self, index: (usize, usize), cell: SpriteCell)
        requires
            old(self).wf(),
            index.0 < old(self).x_len,
            index.1 < old(self).y_len,
        ensures
            final(self).wf(),
            final(self).x_len == old(self).x_len,
            final(self).y_len == old(self).y_len,
            final(self).cell_size == old(self).cell_size,
            final(self).alignment == old(self).alignment,
            final(self).culling == old(self).culling,
            final(self).cell_at(index.0 as int, index.1 as int) == Some(cell),
            forall|i: int, j: int|
                0 <= i < old(self).x_len && 0 <= j < old(self).y_len && !(i == index.0 && j
                    == index.1) ==> final(self).cell_at(i, j) == old(self).cell_at(i, j),
    {
        self.sprite_cells[index.0][index.1] = Some(cell);
    }

    /// The pairs a traversal of column `x` yields for rows `yb..yt`:
    /// the occupied slots, in increasing row order.
    pub open spec fn row_seq(self, x: int, yb: int, yt: int) -> Seq<((usize, usize), SpriteCell)>
        decreases yt - yb,
    {
        if yt <= yb {
            Seq::empty()
        } else {
            self.row_seq(x, yb, yt - 1) + match self.cell_at(x, yt - 1) {
                Some(c) => seq![(((x as usize), ((yt - 1) as usize)), c)],
                None => Seq::empty(),
            }
        }
    }

    /// The pairs a traversal of columns `xl..xr` yields, column by column.
    pub open spec fn cols_seq(self, xl: int, xr: int, yb: int, yt: int) -> Seq<
        ((usize, usize), SpriteCell),
    >
        decreases xr - xl,
    {
        if xr <= xl {
            Seq::empty()
        } else {
            self.cols_seq(xl, xr - 1, yb, yt) + self.row_seq(xr - 1, yb, yt)
        }
    }

    /// What a traversal over the half-open ranges `xl..xr` x `yb..yt`
    /// yields: the occupied slots inside the ranges clamped to the grid, in
    /// column-major order (all of column `xl` first, rows ascending).
    pub open spec fn iter_seq(self, xl: int, xr: int, yb: int, yt: int) -> Seq<
        ((usize, usize), SpriteCell),
    > {
        let xr_c = if xr > self.x_len { self.x_len as int } else { xr };
        let yt_c = if yt > self.y_len { self.y_len as int } else { yt };
        self.cols_seq(xl, xr_c, yb, yt_c)
    }

    /// Traverses the sub-grid given by the half-open index ranges `xs` and
    /// `ys` (clamped to the grid's extents) and returns the occupied slots
    /// with their indices, in column-major order. Empty slots are skipped;
    /// ranges beyond the grid yield nothing.
    pub fn iter(&self, xs: (usize, usize), ys: (usize, usize)) -> (r: Vec<
        ((usize, usize), SpriteCell),
    >)
        requires
            self.wf(),
        ensures
            r@ == self.iter_seq(xs.0 as int, xs.1 as int, ys.0 as int, ys.1 as int),
    {
        let xr: usize = if xs.1 > self.x_len {
            self.x_len
        } else {
            xs.1
        };
        let yt: usize = if ys.1 > self.y_len {
            self.y_len
        } else {
            ys.1
        };
        let mut out: Vec<((usize, usize), SpriteCell)> = Vec::new();
        let mut x: usize = xs.0;
        proof {
            assert(out@ =~= self.cols_seq(xs.0 as int, x as int, ys.0 as int, yt as int));
        }
        while x < xr
            invariant
                self.wf(),
                xr <= self.x_len,
                yt <= self.y_len,
                xs.0 <= x,
                x <= xr || x == xs.0,
                out@ == self.cols_seq(xs.0 as int, x as int, ys.0 as int, yt as int),
            decreases xr - x,
        {
            let mut y: usize = ys.0;
            proof {
                assert(self.row_seq(x as int, ys.0 as int, y as int) =~= Seq::empty());
                assert(out@ =~= self.cols_seq(xs.0 as int, x as int, ys.0 as int, yt as int)
                    + self.row_seq(x as int, ys.0 as int, y as int));
            }
            while y < yt
                invariant
                    self.wf(),
                    x < xr,
                    xr <= self.x_len,
                    yt <= self.y_len,
                    ys.0 <= y,
                    y <= yt || y == ys.0,
                    out@ == self.cols_seq(xs.0 as int, x as int, ys.0 as int, yt as int)
                        + self.row_seq(x as int, ys.0 as int, y as int),
                decreases yt - y,
            {
                match self.sprite_cells[x][y] {
                    Some(c) => {
                        out.push(((x, y), c));
                    },
                    None => {},
                }
                proof {
                    assert(out@ =~= self.cols_seq(xs.0 as int, x as int, ys.0 as int, yt as int)
                        + self.row_seq(x as int, ys.0 as int, y + 1));
                }
                y = y + 1;
            }
            proof {
                if ys.0 > yt {
                    assert(self.row_seq(x as int, ys.0 as int, yt as int) =~= Seq::empty());
                    assert(self.row_seq(x as int, ys.0 as int, y as int) =~= Seq::empty());
                }
                assert(out@ =~= self.cols_seq(xs.0 as int, x + 1, ys.0 as int, yt as int));
            }
            x = x + 1;
        }
        proof {
            if xs.0 > xr {
                assert(self.cols_seq(xs.0 as int, xr as int, ys.0 as int, yt as int)
                    =~= Seq::empty());
                assert(self.cols_seq(xs.0 as int, x as int, ys.0 as int, yt as int)
                    =~= Seq::empty());
            }
            assert(out@ =~= self.iter_seq(xs.0 as int, xs.1 as int, ys.0 as int, ys.1 as int));
        }
        out
    }

    /// Every pair in a column's traversal lies in that column's range and
    /// names an occupied slot with its content.
    proof fn lemma_row_seq_sound(self, x: int, yb: int, yt: int, k: int)
        requires
            self.wf(),
            0 <= x < self.x_len,
            0 <= yb,
            yt <= self.y_len,
            0 <= k < self.row_seq(x, yb, yt).len(),
        ensures
            self.row_seq(x, yb, yt)[k].0.0 == x,
            yb <= self.row_seq(x, yb, yt)[k].0.1 < yt,
            self.cell_at(x, self.row_seq(x, yb, yt)[k].0.1 as int) == Some(
                self.row_seq(x, yb, yt)[k].1,
            ),
        decreases yt - yb,
    {
        if yt > yb {
            let prefix = self.row_seq(x, yb, yt - 1);
            if k < prefix.len() {
                self.lemma_row_seq_sound(x, yb, yt - 1, k);
            }
        }
    }

    /// A column's traversal lists rows in strictly increasing order.
    proof fn lemma_row_seq_ordered(self, x: int, yb: int, yt: int, k1: int, k2: int)
        requires
            self.wf(),
            0 <= x < self.x_len,
            0 <= yb,
            yt <= self.y_len,
            0 <= k1 < k2 < self.row_seq(x, yb, yt).len(),
        ensures
            self.row_seq(x, yb, yt)[k1].0.1 < self.row_seq(x, yb, yt)[k2].0.1,
        decreases yt - yb,
    {
        if yt > yb {
            let prefix = self.row_seq(x, yb, yt - 1);
            if k2 < prefix.len() {
                self.lemma_row_seq_ordered(x, yb, yt - 1, k1, k2);
            } else {
                self.lemma_row_seq_sound(x, yb, yt - 1, k1);
            }
        }
    }

    /// Every occupied slot in a column's range appears in its traversal.
    proof fn lemma_row_seq_covers(self, x: int, yb: int, yt: int, y: int)
        requires
            self.wf(),
            0 <= x < self.x_len,
            0 <= yb,
            yt <= self.y_len,
            yb <= y < yt,
            self.cell_at(x, y) is Some,
        ensures
            exists|k: int|
                0 <= k < self.row_seq(x, yb, yt).len() && self.row_seq(x, yb, yt)[k] == (
                    ((x as usize), (y as usize)),
                    self.cell_at(x, y)->Some_0,
                ),
        decreases yt - yb,
    {
        let prefix = self.row_seq(x, yb, yt - 1);
        if y == yt - 1 {
            assert(self.row_seq(x, yb, yt)[prefix.len() as int] == (
                ((x as usize), (y as usize)),
                self.cell_at(x, y)->Some_0,
            ));
        } else {
            self.lemma_row_seq_covers(x, yb, yt - 1, y);
            let k = choose|k: int|
                0 <= k < prefix.len() && prefix[k] == (
                    ((x as usize), (y as usize)),
                    self.cell_at(x, y)->Some_0,
                );
            assert(self.row_seq(x, yb, yt)[k] == prefix[k]);
        }
    }

    /// Every pair in a traversal lies inside the traversed ranges and names
    /// an occupied slot with its content.
    proof fn lemma_cols_seq_sound(self, xl: int, xr: int, yb: int, yt: int, k: int)
        requires
            self.wf(),
            0 <= xl,
            xr <= self.x_len,
            0 <= yb,
            yt <= self.y_len,
            0 <= k < self.cols_seq(xl, xr, yb, yt).len(),
        ensures
            xl <= self.cols_seq(xl, xr, yb, yt)[k].0.0 < xr,
            yb <= self.cols_seq(xl, xr, yb, yt)[k].0.1 < yt,
            self.cell_at(
                self.cols_seq(xl, xr, yb, yt)[k].0.0 as int,
                self.cols_seq(xl, xr, yb, yt)[k].0.1 as int,
            ) == Some(self.cols_seq(xl, xr, yb, yt)[k].1),
        decreases xr - xl,
    {
        if xr > xl {
            let prefix = self.cols_seq(xl, xr - 1, yb, yt);
            if k < prefix.len() {
                self.lemma_cols_seq_sound(xl, xr - 1, yb, yt, k);
            } else {
                self.lemma_row_seq_sound(xr - 1, yb, yt, k - prefix.len());
            }
        }
    }

    /// A traversal lists indices in strictly increasing column-major order.
    proof fn lemma_cols_seq_ordered(self, xl: int, xr: int, yb: int, yt: int, k1: int, k2: int)
        requires
            self.wf(),
            0 <= xl,
            xr <= self.x_len,
            0 <= yb,
            yt <= self.y_len,
            0 <= k1 < k2 < self.cols_seq(xl, xr, yb, yt).len(),
        ensures
            self.cols_seq(xl, xr, yb, yt)[k1].0.0 < self.cols_seq(xl, xr, yb, yt)[k2].0.0 || (
            self.cols_seq(xl, xr, yb, yt)[k1].0.0 == self.cols_seq(xl, xr, yb, yt)[k2].0.0
                && self.cols_seq(xl, xr, yb, yt)[k1].0.1 < self.cols_seq(xl, xr, yb, yt)[k2].0.1),
        decreases xr - xl,
    {
        if xr > xl {
            let prefix = self.cols_seq(xl, xr - 1, yb, yt);
            if k2 < prefix.len() {
                self.lemma_cols_seq_ordered(xl, xr - 1, yb, yt, k1, k2);
            } else if k1 < prefix.len() {
                self.lemma_cols_seq_sound(xl, xr - 1, yb, yt, k1);
                self.lemma_row_seq_sound(xr - 1, yb, yt, k2 - prefix.len());
            } else {
                self.lemma_row_seq_sound(xr - 1, yb, yt, k1 - prefix.len());
                self.lemma_row_seq_sound(xr - 1, yb, yt, k2 - prefix.len());
                self.lemma_row_seq_ordered(xr - 1, yb, yt, k1 - prefix.len(), k2 - prefix.len());
            }
        }
    }

    /// Every occupied slot inside the traversed ranges appears in the
    /// traversal.
    proof fn lemma_cols_seq_covers(self, xl: int, xr: int, yb: int, yt: int, x: int, y: int)
        requires
            self.wf(),
            0 <= xl,
            xr <= self.x_len,
            0 <= yb,
            yt <= self.y_len,
            xl <= x < xr,
            yb <= y < yt,
            self.cell_at(x, y) is Some,
        ensures
            exists|k: int|
                0 <= k < self.cols_seq(xl, xr, yb, yt).len() && self.cols_seq(xl, xr, yb, yt)[k]
                    == (((x as usize), (y as usize)), self.cell_at(x, y)->Some_0),
        decreases xr - xl,
    {
        let prefix = self.cols_seq(xl, xr - 1, yb, yt);
        if x == xr - 1 {
            self.lemma_row_seq_covers(x, yb, yt, y);
            let k = choose|k: int|
                0 <= k < self.row_seq(x, yb, yt).len() && self.row_seq(x, yb, yt)[k] == (
                    ((x as usize), (y as usize)),
                    self.cell_at(x, y)->Some_0,
                );
            assert(self.cols_seq(xl, xr, yb, yt)[prefix.len() + k] == self.row_seq(x, yb, yt)[k]);
        } else {
            self.lemma_cols_seq_covers(xl, xr - 1, yb, yt, x, y);
            let k = choose|k: int|
                0 <= k < prefix.len() && prefix[k] == (
                    ((x as usize), (y as usize)),
                    self.cell_at(x, y)->Some_0,
                );
            assert(self.cols_seq(xl, xr, yb, yt)[k] == prefix[k]);
        }
    }

    /// Law: every pair a traversal yields lies inside the requested ranges
    /// (clamped to the grid) and names an occupied slot with its content.
    pub proof fn lemma_iter_yields_only_occupied(
        self,
        xs: (usize, usize),
        ys: (usize, usize),
        k: int,
    )
        requires
            self.wf(),
            0 <= k < self.iter_seq(xs.0 as int, xs.1 as int, ys.0 as int, ys.1 as int).len(),
        ensures
            ({
                let e = self.iter_seq(xs.0 as int, xs.1 as int, ys.0 as int, ys.1 as int)[k];
                &&& xs.0 <= e.0.0 < xs.1
                &&& e.0.0 < self.x_len
                &&& ys.0 <= e.0.1 < ys.1
                &&& e.0.1 < self.y_len
                &&& self.cell_at(e.0.0 as int, e.0.1 as int) == Some(e.1)
            }),
    {
        let xr_c: int = if xs.1 > self.x_len {
            self.x_len as int
        } else {
            xs.1 as int
        };
        let yt_c: int = if ys.1 > self.y_len {
            self.y_len as int
        } else {
            ys.1 as int
        };
        self.lemma_cols_seq_sound(xs.0 as int, xr_c, ys.0 as int, yt_c, k);
    }

    /// Law: every occupied slot inside the requested ranges appears in the
    /// traversal.
    pub proof fn lemma_iter_yields_all_occupied(
        self,
        xs: (usize, usize),
        ys: (usize, usize),
        x: usize,
        y: usize,
    )
        requires
            self.wf(),
            xs.0 <= x < xs.1,
            x < self.x_len,
            ys.0 <= y < ys.1,
            y < self.y_len,
            self.cell_at(x as int, y as int) is Some,
        ensures
            exists|k: int|
                0 <= k < self.iter_seq(xs.0 as int, xs.1 as int, ys.0 as int, ys.1 as int).len()
                    && self.iter_seq(xs.0 as int, xs.1 as int, ys.0 as int, ys.1 as int)[k] == (
                    (x, y),
                    self.cell_at(x as int, y as int)->Some_0,
                ),
    {
        let xr_c: int = if xs.1 > self.x_len {
            self.x_len as int
        } else {
            xs.1 as int
        };
        let yt_c: int = if ys.1 > self.y_len {
            self.y_len as int
        } else {
            ys.1 as int
        };
        self.lemma_cols_seq_covers(xs.0 as int, xr_c, ys.0 as int, yt_c, x as int, y as int);
        let s = self.cols_seq(xs.0 as int, xr_c, ys.0 as int, yt_c);
        let k = choose|k: int|
            0 <= k < s.len() && s[k] == (
                ((x as int as usize), (y as int as usize)),
                self.cell_at(x as int, y as int)->Some_0,
            );
        assert(self.iter_seq(xs.0 as int, xs.1 as int, ys.0 as int, ys.1 as int) == s);
        assert(self.iter_seq(xs.0 as int, xs.1 as int, ys.0 as int, ys.1 as int)[k] == (
            (x, y),
            self.cell_at(x as int, y as int)->Some_0,
        ));
    }

    /// Law: a traversal's order is stable — indices appear in strictly
    /// increasing column-major order.
    pub proof fn lemma_iter_order(self, xs: (usize, usize), ys: (usize, usize), k1: int, k2: int)
        requires
            self.wf(),
            0 <= k1 < k2 < self.iter_seq(xs.0 as int, xs.1 as int, ys.0 as int, ys.1 as int).len(),
        ensures
            ({
                let s = self.iter_seq(xs.0 as int, xs.1 as int, ys.0 as int, ys.1 as int);
                s[k1].0.0 < s[k2].0.0 || (s[k1].0.0 == s[k2].0.0 && s[k1].0.1 < s[k2].0.1)
            }),
    {
        let xr_c: int = if xs.1 > self.x_len {
            self.x_len as int
        } else {
            xs.1 as int
        };
        let yt_c: int = if ys.1 > self.y_len {
            self.y_len as int
        } else {
            ys.1 as int
        };
        self.lemma_cols_seq_ordered(xs.0 as int, xr_c, ys.0 as int, yt_c, k1, k2);
    }

    /// With all rows out of range, a traversal of any columns is empty.
    proof fn lemma_cols_seq_empty_rows(self, xl: int, xr: int, yb: int, yt: int)
        requires
            yt <= yb,
        ensures
            self.cols_seq(xl, xr, yb, yt) =~= Seq::empty(),
        decreases xr - xl,
    {
        if xr > xl {
            self.lemma_cols_seq_empty_rows(xl, xr - 1, yb, yt);
        }
    }

    /// Law: a traversal over an empty rect yields nothing.
    pub proof fn lemma_iter_empty_rect(self, xs: (usize, usize), ys: (usize, usize))
        requires
            xs.1 <= xs.0 || ys.1 <= ys.0,
        ensures
            self.iter_seq(xs.0 as int, xs.1 as int, ys.0 as int, ys.1 as int) =~= Seq::empty(),
    {
        let xr_c: int = if xs.1 > self.x_len {
            self.x_len as int
        } else {
            xs.1 as int
        };
        let yt_c: int = if ys.1 > self.y_len {
            self.y_len as int
        } else {
            ys.1 as int
        };
        if yt_c <= ys.0 as int {
            self.lemma_cols_seq_empty_rows(xs.0 as int, xr_c, ys.0 as int, yt_c);
        }
    }

    /// Empties slot `(x, y)`, leaving every other slot and all geometry
    /// unchanged.
    pub fn clear(&mut self, index: (usize, usize))
        requires
            old(self).wf(),
            index.0 < old(self).x_len,
            index.1 < old(self).y_len,
        ensures
            final(self).wf(),
            final(self).x_len == old(self).x_len,
            final(self).y_len == old(self).y_len,
            final(self).cell_size == old(self).cell_size,
            final(self).alignment == old(self).alignment,
            final(self).culling == old(self).culling,
            final(self).cell_at(index.0 as int, index.1 as int) is None,
            forall|i: int, j: int|
                0 <= i < old(self).x_len && 0 <= j < old(self).y_len && !(i == index.0 && j
                    == index.1) ==> final(self).cell_at(i, j) == old(self).cell_at(i, j),
    {
        self.sprite_cells[index.0][index.1] = None;
    }
}

impl Default for SpriteGrid {
    /// An empty zero-by-zero grid with default alignment and culling.
    fn default() -> (r: Self)
        ensures
            r.wf(),
            r.x_len == 0,
            r.y_len == 0,
            r.cell_size == (ScaledVec2 { x: 0i64, y: 0i64 }),
            r.alignment == SpriteGridAlignment(ScaledVec2 { x: 0i64, y: 0i64 }),
            r.culling == (SpriteGridCulling::Enabled {
                margin: ScaledVec2 { x: DEFAULT_CULLING_MARGIN, y: DEFAULT_CULLING_MARGIN },
            }),
    {
        SpriteGrid {
            sprite_cells: Vec::new(),
            alignment: SpriteGridAlignment(ScaledVec2 { x: 0, y: 0 }),
            x_len: 0,
            y_len: 0,
            cell_size: ScaledVec2 { x: 0, y: 0 },
            culling: SpriteGridCulling::Enabled {
                margin: ScaledVec2 { x: DEFAULT_CULLING_MARGIN, y: DEFAULT_CULLING_MARGIN },
            },
        }
    }
}

/// Computes `default_margin` exactly: `3 * cell_size / 2`, rounded down.
fn compute_default_margin(cell_size: ScaledVec2) -> (r: ScaledVec2)
    requires
        cell_size.bounded(),
    ensures
        r == default_margin(cell_size),
        -2 * COORD_MAX <= r.x <= 2 * COORD_MAX,
        -2 * COORD_MAX <= r.y <= 2 * COORD_MAX,
{
    let mx = div_floor_i128(3 * cell_size.x as i128, 2);
    let my = div_floor_i128(3 * cell_size.y as i128, 2);
    proof {
        crate::fixed::lemma_margin_bounds(cell_size.x as int);
        crate::fixed::lemma_margin_bounds(cell_size.y as int);
    }
    ScaledVec2 { x: mx as i64, y: my as i64 }
}

} // verus!
