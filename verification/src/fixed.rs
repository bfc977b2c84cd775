//! Fixed-point scalars and the arithmetic facts the geometry needs.
//!
//! Every world-space quantity in this crate is carried as an integer count
//! of `1 / SCALE` units, so all geometric computations are exact. Bounds on
//! the inputs (see the `*_MAX` constants) keep every intermediate product
//! inside `i128`.

use vstd::arithmetic::div_mod::{
    lemma_div_is_ordered, lemma_div_pos_is_pos, lemma_fundamental_div_mod,
    lemma_fundamental_div_mod_converse,
};
use vstd::prelude::*;

verus! {

/// Denominator of the fixed-point representation: a coordinate value `v`
/// stands for `v / SCALE` world units.
pub const SCALE: i64 = 65536;

/// `SCALE / 2`, used for exact cell-center coordinates.
pub const HALF_SCALE: i64 = 32768;

/// Largest magnitude accepted for points, translations, cell sizes, culling
/// margins, query half-extents and whole-grid extents (about 16.7 million
/// world units).
pub const COORD_MAX: i64 = 0x100_0000_0000;

/// Largest magnitude accepted for the linear entries of a transform
/// (a scale/rotation coefficient of about 1024).
pub const MAT_MAX: i64 = 0x400_0000;

/// Largest magnitude accepted for an alignment anchor component (an anchor
/// fraction of about 16 grid extents).
pub const ALIGN_MAX: i64 = 0x10_0000;

/// Largest accepted grid dimension, per axis.
pub const DIM_MAX: usize = 0x4000_0000;

/// A 2D vector of fixed-point coordinates: `(x / SCALE, y / SCALE)` in world
/// units.
#[derive(Copy, Clone, Debug, PartialEq, Eq, Structural)]
pub struct ScaledVec2 {
    pub x: i64,
    pub y: i64,
}

impl ScaledVec2 {
    /// Both components lie within the coordinate range the geometry accepts.
    pub open spec fn bounded(self) -> bool {
        &&& -COORD_MAX <= self.x <= COORD_MAX
        &&& -COORD_MAX <= self.y <= COORD_MAX
    }

    pub fn new(x: i64, y: i64) -> (r: Self)
        ensures
            r == (ScaledVec2 { x, y }),
    {
        ScaledVec2 { x, y }
    }
}

/// Clamping of an arbitrary integer into the `i64` range.
pub open spec fn sat64(v: int) -> int {
    if v < i64::MIN {
        i64::MIN as int
    } else if v > i64::MAX {
        i64::MAX as int
    } else {
        v
    }
}

/// Saturating narrowing from `i128` to `i64`.
pub fn saturate_i64(v: i128) -> (r: i64)
    ensures
        r as int == sat64(v as int),
{
    if v < i64::MIN as i128 {
        i64::MIN
    } else if v > i64::MAX as i128 {
        i64::MAX
    } else {
        v as i64
    }
}

/// Floor division (the quotient of Euclidean division) on `i128`.
pub fn div_floor_i128(a: i128, b: i128) -> (q: i128)
    requires
        b > 0,
    ensures
        q == a as int / b as int,
{
    proof {
        lemma_div_in_i128_range(a as int, b as int);
    }
    match a.checked_div_euclid(b) {
        Some(q) => q,
        None => {
            proof {
                assert(false);
            }
            0
        },
    }
}

/// For a positive divisor, a quotient never exceeds the dividend's magnitude.
proof fn lemma_div_in_i128_range(a: int, b: int)
    requires
        i128::MIN <= a <= i128::MAX,
        b > 0,
    ensures
        i128::MIN <= a / b <= i128::MAX,
{
    if a >= 0 {
        lemma_div_pos_is_pos(a, b);
        lemma_div_is_ordered_by_1(a, b);
    } else {
        lemma_div_is_ordered(a, 0, b);
        lemma_div_nonneg_dividend_lower(a, b);
    }
}

/// For `a >= 0` and `b > 0`, `a / b <= a`.
proof fn lemma_div_is_ordered_by_1(a: int, b: int) by (nonlinear_arith)
    requires
        a >= 0,
        b > 0,
    ensures
        a / b <= a,
{
}

/// For `a <= 0` and `b > 0`, `a <= a / b`.
proof fn lemma_div_nonneg_dividend_lower(a: int, b: int) by (nonlinear_arith)
    requires
        a <= 0,
        b > 0,
    ensures
        a <= a / b,
{
}

/// Magnitude bound for a product, from magnitude bounds on its factors.
pub proof fn lemma_mul_bounds(a: int, b: int, aa: int, bb: int) by (nonlinear_arith)
    requires
        -aa <= a <= aa,
        -bb <= b <= bb,
    ensures
        -(aa * bb) <= a * b <= aa * bb,
{
}

/// Largest accepted magnitude for a query rectangle's half extent
/// (three times the coordinate range, so a camera extent within the
/// coordinate range can still be padded by any well-formed culling margin).
pub const HALF_EXTENT_MAX: i64 = 0x300_0000_0000;

/// A quotient with positive divisor stays below `l` when the dividend is
/// below `l` times the divisor.
pub proof fn lemma_div_below(n: int, d: int, l: int)
    requires
        d > 0,
        0 <= n,
        n < l * d,
    ensures
        0 <= n / d < l,
{
    lemma_div_pos_is_pos(n, d);
    assert(l * d - 1 == (l - 1) * d + (d - 1)) by (nonlinear_arith);
    lemma_fundamental_div_mod_converse(l * d - 1, d, l - 1, d - 1);
    lemma_div_is_ordered(n, l * d - 1, d);
}

/// A quotient with positive divisor reaches `l` when the dividend reaches
/// `l` times the divisor.
pub proof fn lemma_div_at_least(n: int, d: int, l: int)
    requires
        d > 0,
        l * d <= n,
    ensures
        l <= n / d,
{
    assert(l * d == l * d + 0) by (nonlinear_arith);
    lemma_fundamental_div_mod_converse(l * d, d, l, 0);
    lemma_div_is_ordered(l * d, n, d);
}

/// A negative dividend with positive divisor has a negative quotient.
pub proof fn lemma_div_negative(n: int, d: int)
    requires
        d > 0,
        n < 0,
    ensures
        n / d <= -1,
{
    lemma_fundamental_div_mod(n, d);
    assert(d * (n / d) + n % d == n);
    if n / d >= 0 {
        assert(d * (n / d) >= 0) by (nonlinear_arith)
            requires
                d > 0,
                n / d >= 0,
        ;
    }
}

/// Halving an odd number floors to the number it surrounds.
pub proof fn lemma_half_of_odd(x: int)
    ensures
        (2 * x + 1) / 2 == x,
{
    lemma_fundamental_div_mod_converse(2 * x + 1, 2, x, 1);
}

/// Range of the default culling margin `(3 * c) / 2` for a bounded cell
/// size component `c`.
pub proof fn lemma_margin_bounds(c: int)
    requires
        -COORD_MAX <= c <= COORD_MAX,
    ensures
        -2 * COORD_MAX <= (3 * c) / 2 <= 2 * COORD_MAX,
{
    lemma_div_is_ordered(-3 * COORD_MAX, 3 * c, 2);
    lemma_div_is_ordered(3 * c, 3 * COORD_MAX, 2);
}

/// A common positive factor of dividend and divisor cancels out of a quotient.
pub proof fn lemma_div_cancel_factor(n: int, d: int, k: int)
    requires
        d > 0,
        k > 0,
    ensures
        (n * k) / (d * k) == n / d,
{
    let q = n / d;
    let r = n % d;
    lemma_fundamental_div_mod(n, d);
    assert(n * k == q * (d * k) + r * k) by (nonlinear_arith)
        requires
            n == d * q + r,
    ;
    assert(0 <= r * k < d * k) by (nonlinear_arith)
        requires
            0 <= r < d,
            k > 0,
    ;
    lemma_fundamental_div_mod_converse(n * k, d * k, q, r * k);
}

} // verus!
