//! The owner's world transform: an exact affine map on fixed-point
//! coordinates.
//!
//! The linear entries are fixed-point numbers at denominator `SCALE`, so the
//! map sends a world point `p` (also at denominator `SCALE`) to
//! `M * p / SCALE + t`. Arbitrary rotation, (possibly negative or zero)
//! scale and translation are all representable.

use crate::fixed::{COORD_MAX, MAT_MAX, ScaledVec2};
use vstd::prelude::*;

verus! {

/// An affine world transform `p -> M * p + t` over fixed-point coordinates,
/// with `M = [[m00, m01], [m10, m11]] / SCALE` and `t = (tx, ty) / SCALE`.
#[derive(Copy, Clone, Debug, PartialEq, Eq, Structural)]
pub struct WorldTransform {
    pub m00: i64,
    pub m01: i64,
    pub m10: i64,
    pub m11: i64,
    pub tx: i64,
    pub ty: i64,
}

impl WorldTransform {
    /// The (scaled) determinant of the linear part. The transform is
    /// invertible exactly when this is nonzero.
    pub open spec fn det(self) -> int {
        self.m00 * self.m11 - self.m01 * self.m10
    }

    /// Entries within the ranges the picking arithmetic accepts.
    pub open spec fn wf(self) -> bool {
        &&& -MAT_MAX <= self.m00 <= MAT_MAX
        &&& -MAT_MAX <= self.m01 <= MAT_MAX
        &&& -MAT_MAX <= self.m10 <= MAT_MAX
        &&& -MAT_MAX <= self.m11 <= MAT_MAX
        &&& -COORD_MAX <= self.tx <= COORD_MAX
        &&& -COORD_MAX <= self.ty <= COORD_MAX
    }

    /// The identity transform.
    pub fn identity() -> (r: Self)
        ensures
            r == (WorldTransform {
                m00: crate::fixed::SCALE,
                m01: 0i64,
                m10: 0i64,
                m11: crate::fixed::SCALE,
                tx: 0i64,
                ty: 0i64,
            }),
            r.wf(),
    {
        WorldTransform { m00: crate::fixed::SCALE, m01: 0, m10: 0, m11: crate::fixed::SCALE, tx: 0, ty: 0 }
    }

    /// A pure translation by `v`.
    pub fn from_translation(v: ScaledVec2) -> (r: Self)
        requires
            v.bounded(),
        ensures
            r == (WorldTransform {
                m00: crate::fixed::SCALE,
                m01: 0i64,
                m10: 0i64,
                m11: crate::fixed::SCALE,
                tx: v.x,
                ty: v.y,
            }),
            r.wf(),
    {
        WorldTransform { m00: crate::fixed::SCALE, m01: 0, m10: 0, m11: crate::fixed::SCALE, tx: v.x, ty: v.y }
    }
}

} // verus!
