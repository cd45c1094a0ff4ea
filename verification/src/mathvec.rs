//! Two-dimensional vectors of fixed-point scalars.
//!
//! Every operation is specified exactly by a spec-level twin, saturation
//! included, so the force and integration contracts can be stated as closed
//! formulas over these spec functions.

use vstd::prelude::*;

verus! {

use crate::fx;
use crate::fx::{sadd, ssub, smul, sdiv, sqrt_floor, SCALE};

/// A scalar of the simulation: an `i64` counting units of `1 / SCALE`.
pub type Scalar = i64;

/// A 2-D vector of fixed-point scalars.
#[derive(Copy, Clone, Debug, PartialEq, Eq, Structural)]
pub struct Vec2d {
    pub x: Scalar,
    pub y: Scalar,
}

/// Component-wise saturating sum.
pub open spec fn vadd(a: Vec2d, b: Vec2d) -> Vec2d {
    Vec2d { x: sadd(a.x as int, b.x as int) as i64, y: sadd(a.y as int, b.y as int) as i64 }
}

/// Component-wise saturating difference.
pub open spec fn vsub(a: Vec2d, b: Vec2d) -> Vec2d {
    Vec2d { x: ssub(a.x as int, b.x as int) as i64, y: ssub(a.y as int, b.y as int) as i64 }
}

/// Component-wise saturating product with a scalar.
pub open spec fn vscale(k: int, a: Vec2d) -> Vec2d {
    Vec2d { x: smul(k, a.x as int) as i64, y: smul(k, a.y as int) as i64 }
}

/// Component-wise saturating quotient by a positive scalar.
pub open spec fn vdiv(a: Vec2d, k: int) -> Vec2d {
    Vec2d { x: sdiv(a.x as int, k) as i64, y: sdiv(a.y as int, k) as i64 }
}

/// Saturating dot product.
pub open spec fn vdot(a: Vec2d, b: Vec2d) -> int {
    sadd(smul(a.x as int, b.x as int), smul(a.y as int, b.y as int))
}

/// Squared magnitude: the dot product of a vector with itself.
pub open spec fn vmag_squared(a: Vec2d) -> int {
    vdot(a, a)
}

/// Magnitude: the square root of the squared magnitude, on the fixed-point
/// grid.
pub open spec fn vmag(a: Vec2d) -> int {
    sqrt_floor(vmag_squared(a) * SCALE as int)
}

impl Vec2d {
    pub fn new(x: Scalar, y: Scalar) -> (r: Vec2d)
        ensures
            r == (Vec2d { x, y }),
    {
        Vec2d { x, y }
    }

    pub fn zero() -> (r: Vec2d)
        ensures
            r == (Vec2d { x: 0i64, y: 0i64 }),
    {
        Vec2d { x: 0, y: 0 }
    }

    /// Saturating sum of two vectors.
    pub fn plus(self, other: Vec2d) -> (r: Vec2d)
        ensures
            r == vadd(self, other),
    {
        Vec2d { x: fx::fx_add(self.x, other.x), y: fx::fx_add(self.y, other.y) }
    }

    /// Saturating difference of two vectors.
    pub fn minus(self, other: Vec2d) -> (r: Vec2d)
        ensures
            r == vsub(self, other),
    {
        Vec2d { x: fx::fx_sub(self.x, other.x), y: fx::fx_sub(self.y, other.y) }
    }

    /// Saturating product with a scalar.
    pub fn scale(self, k: Scalar) -> (r: Vec2d)
        ensures
            r == vscale(k as int, self),
    {
        Vec2d { x: fx::fx_mul(k, self.x), y: fx::fx_mul(k, self.y) }
    }

    /// Saturating quotient by a positive scalar.
    pub fn div_by(self, k: Scalar) -> (r: Vec2d)
        requires
            k > 0,
        ensures
            r == vdiv(self, k as int),
    {
        Vec2d { x: fx::fx_div(self.x, k), y: fx::fx_div(self.y, k) }
    }

    pub fn dot(self, other: Vec2d) -> (r: Scalar)
        ensures
            r == vdot(self, other),
    {
        fx::fx_add(fx::fx_mul(self.x, other.x), fx::fx_mul(self.y, other.y))
    }

    pub fn mag_squared(self) -> (r: Scalar)
        ensures
            r == vmag_squared(self),
    {
        self.dot(self)
    }

    pub fn mag(self) -> (r: Scalar)
        ensures
            r == vmag(self),
            r >= 0,
    {
        let sq = self.mag_squared();
        proof {
            lemma_vmag_squared_nonneg(self);
        }
        fx::fx_sqrt(sq)
    }

    /// The unit vector in this vector's direction, on the fixed-point grid;
    /// the magnitude must not round to zero.
    pub fn unit(self) -> (r: Vec2d)
        requires
            vmag(self) > 0,
        ensures
            r == vdiv(self, vmag(self)),
    {
        let m = self.mag();
        self.div_by(m)
    }

    /// The vector mirrored across the y axis.
    pub fn flip_x(self) -> (r: Vec2d)
        ensures
            r == (Vec2d { x: ssub(0, self.x as int) as i64, y: self.y }),
    {
        Vec2d { x: fx::fx_sub(0, self.x), y: self.y }
    }

    /// The vector mirrored across the x axis.
    pub fn flip_y(self) -> (r: Vec2d)
        ensures
            r == (Vec2d { x: self.x, y: ssub(0, self.y as int) as i64 }),
    {
        Vec2d { x: self.x, y: fx::fx_sub(0, self.y) }
    }

    /// The vector with its components exchanged.
    pub fn swap_xy(self) -> (r: Vec2d)
        ensures
            r == (Vec2d { x: self.y, y: self.x }),
    {
        Vec2d { x: self.y, y: self.x }
    }
}

/// A vector's dot product with itself never goes negative: each squared
/// component is floored and clamped but stays nonnegative, as does their sum.
pub proof fn lemma_vmag_squared_nonneg(a: Vec2d)
    ensures
        0 <= vmag_squared(a) <= i64::MAX,
{
    assert(0 <= a.x as int * a.x as int && 0 <= a.y as int * a.y as int) by (nonlinear_arith);
    assert(0 <= smul(a.x as int, a.x as int)) by {
        vstd::arithmetic::div_mod::lemma_div_pos_is_pos(a.x as int * a.x as int, SCALE as int);
    }
    assert(0 <= smul(a.y as int, a.y as int)) by {
        vstd::arithmetic::div_mod::lemma_div_pos_is_pos(a.y as int * a.y as int, SCALE as int);
    }
}

} // verus!
