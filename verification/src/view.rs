//! Half-open rectangles over grid indices, used to restrict which cells are
//! traversed or rendered, with an exact intersection algebra.

use vstd::prelude::*;

verus! {

/// A half-open rectangle `[left, right) x [bottom, top)` in grid-index space.
///
/// A rect is *valid* when it contains at least one index, i.e. when
/// `left < right` and `bottom < top`. Operations that would produce an
/// invalid rect return `None` instead.
#[derive(Copy, Clone, Debug, PartialEq, Eq, Structural)]
pub struct SpriteGridRect {
    pub left: usize,
    pub right: usize,
    pub bottom: usize,
    pub top: usize,
}

/// An externally imposed view restriction: only indices inside the wrapped
/// rect are ever traversed, independent of camera visibility.
#[derive(Copy, Clone, Debug, PartialEq, Eq, Structural)]
pub struct SpriteGridView(pub SpriteGridRect);

impl SpriteGridRect {
    /// A rect holds an index pair iff both coordinates fall in its half-open ranges.
    pub open spec fn contains(self, x: int, y: int) -> bool {
        self.left <= x < self.right && self.bottom <= y < self.top
    }

    /// A rect is valid when it is non-empty.
    pub open spec fn is_valid(self) -> bool {
        self.left < self.right && self.bottom < self.top
    }

    /// The intersection of two rects, or `None` when they share no index.
    pub open spec fn spec_intersect(self, other: Self) -> Option<Self> {
        let left = if self.left > other.left { self.left } else { other.left };
        let right = if self.right < other.right { self.right } else { other.right };
        let bottom = if self.bottom > other.bottom { self.bottom } else { other.bottom };
        let top = if self.top < other.top { self.top } else { other.top };
        if right <= left || top <= bottom {
            None
        } else {
            Some(SpriteGridRect { left, right, bottom, top })
        }
    }

    /// The half-open range of column indices covered by this rect.
    pub fn xs(self) -> (r: (usize, usize))
        ensures
            r.0 == self.left,
            r.1 == self.right,
    {
        (self.left, self.right)
    }

    /// The half-open range of row indices covered by this rect.
    pub fn ys(self) -> (r: (usize, usize))
        ensures
            r.0 == self.bottom,
            r.1 == self.top,
    {
        (self.bottom, self.top)
    }

    /// Intersects two rects; `None` means they share no index.
    pub fn intersect_with(self, other: Self) -> (r: Option<Self>)
        ensures
            r == self.spec_intersect(other),
            r is Some ==> r->Some_0.is_valid(),
            r is Some ==> forall|x: int, y: int|
                r->Some_0.contains(x, y) <==> self.contains(x, y) && other.contains(x, y),
            r is None ==> forall|x: int, y: int| !(self.contains(x, y) && other.contains(x, y)),
    {
        let left = if self.left > other.left { self.left } else { other.left };
        let right = if self.right < other.right { self.right } else { other.right };
        if right <= left {
            return None;
        }
        let bottom = if self.bottom > other.bottom { self.bottom } else { other.bottom };
        let top = if self.top < other.top { self.top } else { other.top };
        if top <= bottom {
            None
        } else {
            Some(SpriteGridRect { left, right, bottom, top })
        }
    }
}

/// Intersection lifted to optional rects, so that a chain of intersections
/// can be written as one expression; `None` absorbs.
pub open spec fn intersect_opt(a: Option<SpriteGridRect>, b: Option<SpriteGridRect>) -> Option<
    SpriteGridRect,
> {
    match (a, b) {
        (Some(x), Some(y)) => x.spec_intersect(y),
        _ => None,
    }
}

/// Law: intersection is commutative.
pub proof fn lemma_intersect_commutative(a: SpriteGridRect, b: SpriteGridRect)
    ensures
        a.spec_intersect(b) == b.spec_intersect(a),
{
}

/// Law: intersection is associative (with `None` absorbing).
pub proof fn lemma_intersect_associative(a: SpriteGridRect, b: SpriteGridRect, c: SpriteGridRect)
    ensures
        intersect_opt(a.spec_intersect(b), Some(c)) == intersect_opt(
            Some(a),
            b.spec_intersect(c),
        ),
{
}

/// Law: intersecting a valid rect with itself yields itself.
pub proof fn lemma_intersect_self(a: SpriteGridRect)
    requires
        a.is_valid(),
    ensures
        a.spec_intersect(a) == Some(a),
{
}

/// Law: rects that share no index intersect to `None`.
pub proof fn lemma_intersect_disjoint(a: SpriteGridRect, b: SpriteGridRect)
    requires
        forall|x: int, y: int| !(a.contains(x, y) && b.contains(x, y)),
    ensures
        a.spec_intersect(b) is None,
{
    if a.spec_intersect(b) is Some {
        let q = a.spec_intersect(b)->Some_0;
        assert(a.contains(q.left as int, q.bottom as int) && b.contains(
            q.left as int,
            q.bottom as int,
        ));
    }
}

} // verus!
