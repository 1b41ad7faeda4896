//! Two-dimensional fixed-point vectors.
//!
//! `Vector2` is the value type every scene entity is positioned with. Its
//! mathematical model is [`GVec`], a pair of unbounded integers; every
//! executable operation is proved equal to a spec-level counterpart over
//! that model.

use vstd::prelude::*;
use crate::fixp::{s_add, s_sub, s_fmul, s_fdiv, s_fsqrt, tdiv, sat_add, sat_sub, FX_SCALE};
use crate::fixp;

verus! {

/// A point or displacement in the scene, in fixed-point coordinates.
#[derive(Clone, Copy, PartialEq, Eq, Structural, Debug)]
pub struct Vector2 {
    pub x: i64,
    pub y: i64,
}

/// The mathematical model of a vector: unbounded integer coordinates.
pub ghost struct GVec {
    pub x: int,
    pub y: int,
}

impl View for Vector2 {
    type V = GVec;

    open spec fn view(&self) -> GVec {
        GVec { x: self.x as int, y: self.y as int }
    }
}

/// Componentwise saturating addition.
pub open spec fn s_vadd(a: GVec, b: GVec) -> GVec {
    GVec { x: s_add(a.x, b.x), y: s_add(a.y, b.y) }
}

/// Componentwise saturating subtraction.
pub open spec fn s_vsub(a: GVec, b: GVec) -> GVec {
    GVec { x: s_sub(a.x, b.x), y: s_sub(a.y, b.y) }
}

/// Both components scaled by a fixed-point factor.
pub open spec fn s_vscale(a: GVec, s: int) -> GVec {
    GVec { x: s_fmul(a.x, s), y: s_fmul(a.y, s) }
}

/// Squared distance between two points, over the saturating difference.
pub open spec fn s_dist_sq(a: GVec, b: GVec) -> int {
    let dx = s_sub(b.x, a.x);
    let dy = s_sub(b.y, a.y);
    s_add(s_fmul(dx, dx), s_fmul(dy, dy))
}

/// Distance between two points.
pub open spec fn s_dist(a: GVec, b: GVec) -> int {
    s_fsqrt(s_dist_sq(a, b))
}

/// The vector scaled to unit length: each component divided by the
/// vector's length. The zero vector (whose length is zero) maps to zero.
pub open spec fn s_vnormalize(v: GVec) -> GVec {
    let len = s_dist(GVec { x: 0, y: 0 }, v);
    GVec { x: s_fdiv(v.x, len), y: s_fdiv(v.y, len) }
}

/// A saturated square is never negative.
pub proof fn lemma_fmul_square_nonneg(x: int)
    ensures
        s_fmul(x, x) >= 0,
{
    assert(x * x >= 0) by (nonlinear_arith);
    assert(tdiv(x * x, FX_SCALE as int) >= 0) by {
        assert(x * x / (FX_SCALE as int) >= 0) by (nonlinear_arith)
            requires
                x * x >= 0,
                FX_SCALE as int > 0,
        ;
    };
}

/// A squared distance is never negative.
pub proof fn lemma_dist_sq_nonneg(a: GVec, b: GVec)
    ensures
        s_dist_sq(a, b) >= 0,
{
    lemma_fmul_square_nonneg(s_sub(b.x, a.x));
    lemma_fmul_square_nonneg(s_sub(b.y, a.y));
}

impl Vector2 {
    /// Build a vector from its fixed-point coordinates.
    pub fn new(x: i64, y: i64) -> (r: Vector2)
        ensures
            r@ == (GVec { x: x as int, y: y as int }),
    {
        Vector2 { x, y }
    }

    /// Componentwise saturating addition.
    pub fn plus(self, o: Vector2) -> (r: Vector2)
        ensures
            r@ == s_vadd(self@, o@),
    {
        Vector2 { x: sat_add(self.x, o.x), y: sat_add(self.y, o.y) }
    }

    /// Componentwise saturating subtraction.
    pub fn minus(self, o: Vector2) -> (r: Vector2)
        ensures
            r@ == s_vsub(self@, o@),
    {
        Vector2 { x: sat_sub(self.x, o.x), y: sat_sub(self.y, o.y) }
    }

    /// Both components scaled by a fixed-point factor.
    pub fn scaled(self, s: i64) -> (r: Vector2)
        ensures
            r@ == s_vscale(self@, s as int),
    {
        Vector2 { x: fixp::fx_mul(self.x, s), y: fixp::fx_mul(self.y, s) }
    }

    /// Squared distance to another point.
    pub fn dist_sq(self, o: Vector2) -> (r: i64)
        ensures
            r as int == s_dist_sq(self@, o@),
            r >= 0,
    {
        proof {
            lemma_dist_sq_nonneg(self@, o@);
        }
        let dx = sat_sub(o.x, self.x);
        let dy = sat_sub(o.y, self.y);
        sat_add(fixp::fx_mul(dx, dx), fixp::fx_mul(dy, dy))
    }

    /// Distance to another point.
    pub fn dist(self, o: Vector2) -> (r: i64)
        ensures
            r as int == s_dist(self@, o@),
            r >= 0,
    {
        let d2 = self.dist_sq(o);
        fixp::fx_sqrt(d2)
    }

    /// The vector scaled to unit length; the zero vector stays zero.
    pub fn normalized(self) -> (r: Vector2)
        ensures
            r@ == s_vnormalize(self@),
    {
        let len = Vector2::new(0, 0).dist(self);
        Vector2 { x: fixp::fx_div(self.x, len), y: fixp::fx_div(self.y, len) }
    }
}

} // verus!
