//! Plane points in fixed-point coordinates.
//!
//! The only operations the gear generator needs are componentwise addition
//! and rotation about the origin, plus the mirror image across the x axis
//! used to produce the opposite tooth flank.

use vstd::prelude::*;
use crate::fixed::{FX_ONE, fx_mul, fx_mul_s, lemma_fx_mul_abs};
use crate::trig::{cos_fx, cos_fx_s, sin_fx, sin_fx_s};

verus! {

/// Coordinates such that a point stays representable through one rotation
/// and one translation.
pub const POINT_BOUND: i64 = 0x10_0000_0000_0000;

/// A point of the plane, in fixed-point units.
#[derive(Clone, Copy, PartialEq, Eq, Structural, Debug)]
pub struct Point2D {
    pub x: i64,
    pub y: i64,
}

impl View for Point2D {
    type V = (int, int);

    open spec fn view(&self) -> (int, int) {
        (self.x as int, self.y as int)
    }
}

/// Both coordinates within a symmetric bound.
pub open spec fn in_bounds(p: (int, int), m: int) -> bool {
    -m <= p.0 <= m && -m <= p.1 <= m
}

/// Componentwise sum.
pub open spec fn translate_s(p: (int, int), o: (int, int)) -> (int, int) {
    (p.0 + o.0, p.1 + o.1)
}

/// Mirror image across the x axis.
pub open spec fn mirror_s(p: (int, int)) -> (int, int) {
    (p.0, -p.1)
}

/// Rotation about the origin by a fixed-point angle, with each product
/// rounded as [`fx_mul_s`] rounds.
pub open spec fn rot_s(p: (int, int), a: int) -> (int, int) {
    (
        fx_mul_s(p.0, cos_fx_s(a)) - fx_mul_s(p.1, sin_fx_s(a)),
        fx_mul_s(p.0, sin_fx_s(a)) + fx_mul_s(p.1, cos_fx_s(a)),
    )
}

/// A rotated point grows by at most a factor of two (plus rounding).
pub proof fn lemma_rot_bounds(p: (int, int), a: int, m: int)
    requires
        0 <= m,
        in_bounds(p, m),
    ensures
        in_bounds(rot_s(p, a), 2 * m + 2),
{
    assert(-(FX_ONE as int) <= cos_fx_s(a) <= FX_ONE as int);
    assert(-(FX_ONE as int) <= sin_fx_s(a) <= FX_ONE as int);
    lemma_fx_mul_abs(p.0, cos_fx_s(a), m, FX_ONE as int);
    lemma_fx_mul_abs(p.1, sin_fx_s(a), m, FX_ONE as int);
    lemma_fx_mul_abs(p.0, sin_fx_s(a), m, FX_ONE as int);
    lemma_fx_mul_abs(p.1, cos_fx_s(a), m, FX_ONE as int);
    assert((m * FX_ONE) / (FX_ONE as int) == m) by {
        vstd::arithmetic::div_mod::lemma_div_multiples_vanish(m, FX_ONE as int);
        assert(m * FX_ONE == (FX_ONE as int) * m) by (nonlinear_arith);
    }
}

impl Point2D {
    /// Componentwise sum, as the original point type offered.
    pub fn add(self, other: Point2D) -> (r: Point2D)
        requires
            in_bounds(self@, 0x1000_0000_0000_0000),
            in_bounds(other@, 0x1000_0000_0000_0000),
        ensures
            r@ == translate_s(self@, other@),
    {
        Point2D { x: self.x + other.x, y: self.y + other.y }
    }

    /// Mirror image across the x axis (the opposite flank of a tooth).
    pub fn mirror(self) -> (r: Point2D)
        requires
            in_bounds(self@, 0x1000_0000_0000_0000),
        ensures
            r@ == mirror_s(self@),
    {
        Point2D { x: self.x, y: -self.y }
    }
}

/// Rotate a point about the origin by a fixed-point angle.
pub fn rotate_point(p: Point2D, angle: i64) -> (r: Point2D)
    requires
        in_bounds(p@, POINT_BOUND as int),
    ensures
        r@ == rot_s(p@, angle as int),
        in_bounds(r@, 2 * (POINT_BOUND as int) + 2),
{
    let c = cos_fx(angle);
    let s = sin_fx(angle);
    proof {
        lemma_fx_mul_abs(p.x as int, c as int, POINT_BOUND as int, FX_ONE as int);
        lemma_fx_mul_abs(p.y as int, s as int, POINT_BOUND as int, FX_ONE as int);
        lemma_fx_mul_abs(p.x as int, s as int, POINT_BOUND as int, FX_ONE as int);
        lemma_fx_mul_abs(p.y as int, c as int, POINT_BOUND as int, FX_ONE as int);
        assert(((POINT_BOUND as int) * FX_ONE) / (FX_ONE as int) == POINT_BOUND as int) by {
            vstd::arithmetic::div_mod::lemma_div_multiples_vanish(
                POINT_BOUND as int,
                FX_ONE as int,
            );
            assert((POINT_BOUND as int) * FX_ONE == (FX_ONE as int) * (POINT_BOUND as int))
                by (nonlinear_arith);
        }
    }
    let xc = fx_mul(p.x, c);
    let ys = fx_mul(p.y, s);
    let xs = fx_mul(p.x, s);
    let yc = fx_mul(p.y, c);
    Point2D { x: xc - ys, y: xs + yc }
}

} // verus!
