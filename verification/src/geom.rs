//! Exact plane-and-height geometry.
//!
//! Coordinates are kept in thousandths of a world unit, so a speed in whole
//! units per second times a frame time in milliseconds lands on the grid
//! exactly. The only irrational number WASD locomotion can produce is
//! `sqrt(2)/2`, the component magnitude of a normalized diagonal direction,
//! so a scalar is stored as `whole + diag * sqrt(2)/2` with both
//! coefficients integers. Since `sqrt(2)` is irrational, two scalars are
//! equal exactly when both coefficient pairs agree, and all arithmetic here
//! is exact integer arithmetic.

use vstd::prelude::*;

verus! {

/// Bound accepted by the geometric operations on coordinate coefficients;
/// generous enough for any plausible play field, small enough that every
/// intermediate sum fits in an `i64` and every squared length in an `i128`.
pub const POS_LIMIT: i64 = 2_000_000_000_000_000_000;

/// The scalar `whole + diag * sqrt(2)/2`, in thousandths of a world unit.
#[derive(Clone, Copy, PartialEq, Eq, Debug)]
pub struct Coord {
    pub whole: i64,
    pub diag: i64,
}

/// A point or direction: `x` and `z` span the ground plane, `y` is height.
#[derive(Clone, Copy, PartialEq, Eq, Debug)]
pub struct Vec3 {
    pub x: Coord,
    pub y: Coord,
    pub z: Coord,
}

pub open spec fn coord_zero() -> Coord {
    Coord { whole: 0, diag: 0 }
}

pub open spec fn vec3_zero() -> Vec3 {
    Vec3 { x: coord_zero(), y: coord_zero(), z: coord_zero() }
}

pub open spec fn coord_in_range(c: Coord) -> bool {
    &&& -POS_LIMIT <= c.whole <= POS_LIMIT
    &&& -POS_LIMIT <= c.diag <= POS_LIMIT
}

pub open spec fn vec_in_range(v: Vec3) -> bool {
    coord_in_range(v.x) && coord_in_range(v.y) && coord_in_range(v.z)
}

/// Componentwise difference `a - b`.
pub open spec fn coord_sub(a: Coord, b: Coord) -> Coord {
    Coord { whole: (a.whole - b.whole) as i64, diag: (a.diag - b.diag) as i64 }
}

pub open spec fn vec3_sub_spec(a: Vec3, b: Vec3) -> Vec3 {
    Vec3 { x: coord_sub(a.x, b.x), y: coord_sub(a.y, b.y), z: coord_sub(a.z, b.z) }
}

/// Rational part of twice the squared length: with `w_i + d_i * sqrt(2)/2`
/// the components of `v`, `2 * |v|^2 == norm_sq2_rat(v) + norm_sq2_irr(v) * sqrt(2)`.
pub open spec fn norm_sq2_rat(v: Vec3) -> int {
    2 * (v.x.whole * v.x.whole) + v.x.diag * v.x.diag
        + 2 * (v.y.whole * v.y.whole) + v.y.diag * v.y.diag
        + 2 * (v.z.whole * v.z.whole) + v.z.diag * v.z.diag
}

/// `sqrt(2)` coefficient of twice the squared length.
pub open spec fn norm_sq2_irr(v: Vec3) -> int {
    2 * (v.x.whole * v.x.diag + v.y.whole * v.y.diag + v.z.whole * v.z.diag)
}

/// `|v| == 1`, stated exactly: twice the squared length is `2 + 0 * sqrt(2)`.
pub open spec fn is_unit(v: Vec3) -> bool {
    norm_sq2_rat(v) == 2 && norm_sq2_irr(v) == 0
}

/// Componentwise difference of two in-range vectors.
pub fn vec3_sub(a: &Vec3, b: &Vec3) -> (r: Vec3)
    requires
        vec_in_range(*a),
        vec_in_range(*b),
    ensures
        r == vec3_sub_spec(*a, *b),
{
    Vec3 {
        x: Coord { whole: a.x.whole - b.x.whole, diag: a.x.diag - b.x.diag },
        y: Coord { whole: a.y.whole - b.y.whole, diag: a.y.diag - b.y.diag },
        z: Coord { whole: a.z.whole - b.z.whole, diag: a.z.diag - b.z.diag },
    }
}

/// Twice the squared length of `v`, as the pair
/// `(rational part, sqrt(2) coefficient)`.
pub fn norm_sq2_parts(v: &Vec3) -> (r: (i128, i128))
    requires
        vec_in_range(*v),
    ensures
        r.0 == norm_sq2_rat(*v),
        r.1 == norm_sq2_irr(*v),
{
    proof {
        lemma_sq_bound(v.x.whole as int);
        lemma_sq_bound(v.x.diag as int);
        lemma_sq_bound(v.y.whole as int);
        lemma_sq_bound(v.y.diag as int);
        lemma_sq_bound(v.z.whole as int);
        lemma_sq_bound(v.z.diag as int);
        lemma_prod_bound(v.x.whole as int, v.x.diag as int);
        lemma_prod_bound(v.y.whole as int, v.y.diag as int);
        lemma_prod_bound(v.z.whole as int, v.z.diag as int);
    }
    let xw = v.x.whole as i128;
    let xd = v.x.diag as i128;
    let yw = v.y.whole as i128;
    let yd = v.y.diag as i128;
    let zw = v.z.whole as i128;
    let zd = v.z.diag as i128;
    let rat = 2 * (xw * xw) + xd * xd + 2 * (yw * yw) + yd * yd + 2 * (zw * zw) + zd * zd;
    let irr = 2 * (xw * xd + yw * yd + zw * zd);
    (rat, irr)
}

/// A square of an in-range coefficient stays far inside `i128`.
proof fn lemma_sq_bound(a: int)
    by (nonlinear_arith)
    requires
        -POS_LIMIT <= a <= POS_LIMIT,
    ensures
        0 <= a * a <= POS_LIMIT * POS_LIMIT,
{
}

/// A product of two in-range coefficients stays far inside `i128`.
proof fn lemma_prod_bound(a: int, b: int)
    by (nonlinear_arith)
    requires
        -POS_LIMIT <= a <= POS_LIMIT,
        -POS_LIMIT <= b <= POS_LIMIT,
    ensures
        -(POS_LIMIT * POS_LIMIT) <= a * b <= POS_LIMIT * POS_LIMIT,
{
}

} // verus!
