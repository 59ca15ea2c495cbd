//! Two-dimensional vectors in fixed-point milli-units.
//!
//! `Vec2` is the executable vector; its mathematical view `V2` carries the
//! components as unbounded integers, and every operation is specified
//! exactly over that view.

use vstd::prelude::*;
use crate::fixed::{is_sqrt, isqrt, muldiv, sat, sat128, sqrt_floor, tdiv, MAG_MAX};

verus! {

/// Mathematical view of a vector: exact integer components.
pub ghost struct V2 {
    pub x: int,
    pub y: int,
}

/// A fixed-point vector of two milli-unit components.
#[derive(Clone, Copy, Debug, PartialEq, Eq, Structural)]
pub struct Vec2 {
    pub x: i64,
    pub y: i64,
}

impl View for Vec2 {
    type V = V2;

    open spec fn view(&self) -> V2 {
        V2 { x: self.x as int, y: self.y as int }
    }
}

/// Both components lie within the engine's magnitude bound.
pub open spec fn bounded(v: V2) -> bool {
    -MAG_MAX <= v.x <= MAG_MAX && -MAG_MAX <= v.y <= MAG_MAX
}

/// Componentwise saturating sum.
pub open spec fn v2_add(a: V2, b: V2) -> V2 {
    V2 { x: sat(a.x + b.x), y: sat(a.y + b.y) }
}

/// Componentwise saturating difference.
pub open spec fn v2_sub(a: V2, b: V2) -> V2 {
    V2 { x: sat(a.x - b.x), y: sat(a.y - b.y) }
}

/// Componentwise saturating negation.
pub open spec fn v2_neg(a: V2) -> V2 {
    V2 { x: sat(-a.x), y: sat(-a.y) }
}

/// Componentwise `c * num / den`, truncating toward zero and saturating.
pub open spec fn v2_muldiv(a: V2, num: int, den: int) -> V2 {
    V2 { x: sat(tdiv(a.x * num, den)), y: sat(tdiv(a.y * num, den)) }
}

/// Saturating dot product.
pub open spec fn v2_dot(a: V2, b: V2) -> int {
    sat(a.x * b.x + a.y * b.y)
}

/// Euclidean norm: floor square root of the saturated squared norm.
pub open spec fn v2_norm(a: V2) -> int {
    sqrt_floor(v2_dot(a, a))
}

impl Vec2 {
    pub fn new(x: i64, y: i64) -> (r: Vec2)
        ensures
            r@ == (V2 { x: x as int, y: y as int }),
    {
        Vec2 { x, y }
    }

    pub fn zero() -> (r: Vec2)
        ensures
            r@ == (V2 { x: 0int, y: 0int }),
    {
        Vec2 { x: 0, y: 0 }
    }

    pub fn add(self, o: Vec2) -> (r: Vec2)
        ensures
            r@ == v2_add(self@, o@),
    {
        Vec2 { x: sat128(self.x as i128 + o.x as i128), y: sat128(self.y as i128 + o.y as i128) }
    }

    pub fn sub(self, o: Vec2) -> (r: Vec2)
        ensures
            r@ == v2_sub(self@, o@),
    {
        Vec2 { x: sat128(self.x as i128 - o.x as i128), y: sat128(self.y as i128 - o.y as i128) }
    }

    pub fn neg(self) -> (r: Vec2)
        ensures
            r@ == v2_neg(self@),
    {
        Vec2 { x: sat128(-(self.x as i128)), y: sat128(-(self.y as i128)) }
    }

    /// Scale by the ratio `num / den`.
    pub fn muldiv(self, num: i64, den: i64) -> (r: Vec2)
        requires
            den >= 1,
        ensures
            r@ == v2_muldiv(self@, num as int, den as int),
    {
        Vec2 { x: muldiv(self.x, num, den), y: muldiv(self.y, num, den) }
    }

    pub fn dot(self, o: Vec2) -> (r: i64)
        requires
            bounded(self@),
            bounded(o@),
        ensures
            r as int == v2_dot(self@, o@),
    {
        proof {
            assert(-0x1000_0000_0000_0000_0000_0000_0000_0000int <= self@.x * o@.x
                <= 0x1000_0000_0000_0000_0000_0000_0000_0000int
                && -0x1000_0000_0000_0000_0000_0000_0000_0000int <= self@.y * o@.y
                <= 0x1000_0000_0000_0000_0000_0000_0000_0000int) by (nonlinear_arith)
                requires
                    -(MAG_MAX as int) <= self@.x <= MAG_MAX as int,
                    -(MAG_MAX as int) <= self@.y <= MAG_MAX as int,
                    -(MAG_MAX as int) <= o@.x <= MAG_MAX as int,
                    -(MAG_MAX as int) <= o@.y <= MAG_MAX as int;
        }
        let p: i128 = (self.x as i128) * (o.x as i128) + (self.y as i128) * (o.y as i128);
        sat128(p)
    }

    /// Squared norm, saturated at `MAG_MAX`; never negative.
    pub fn norm_squared(self) -> (r: i64)
        requires
            bounded(self@),
        ensures
            r as int == v2_dot(self@, self@),
            0 <= r <= MAG_MAX,
    {
        proof {
            assert(0 <= self@.x * self@.x + self@.y * self@.y) by (nonlinear_arith);
        }
        self.dot(self)
    }

    /// Euclidean norm (floor of the exact square root of the saturated
    /// squared norm); never negative.
    pub fn norm(self) -> (r: i64)
        requires
            bounded(self@),
        ensures
            r as int == v2_norm(self@),
            0 <= r,
            is_sqrt(v2_dot(self@, self@), r as int),
    {
        let d2: i64 = self.norm_squared();
        let r: u64 = isqrt(d2 as u64);
        proof {
            assert(is_sqrt(d2 as int, r as int));
            assert(r as int <= MAG_MAX as int) by (nonlinear_arith)
                requires
                    0 <= r as int,
                    (r as int) * (r as int) <= MAG_MAX as int;
        }
        r as i64
    }
}

} // verus!
