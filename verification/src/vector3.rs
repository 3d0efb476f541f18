//! 3D vectors over fixed-point scalars.

use vstd::prelude::*;

use crate::fx::{Fx, fx_add, fx_div, fx_mul, fx_neg, fx_sqrt, fx_sub};

verus! {

/// Mathematical model of a vector: one integer of fixed-point bits per axis.
pub ghost struct Vec3V {
    pub x: int,
    pub y: int,
    pub z: int,
}

/// A 3D vector of fixed-point scalars.
#[derive(Clone, Copy, Debug, PartialEq, Eq, Structural)]
pub struct Vector3 {
    pub x: Fx,
    pub y: Fx,
    pub z: Fx,
}

impl View for Vector3 {
    type V = Vec3V;

    open spec fn view(&self) -> Vec3V {
        Vec3V { x: self.x@, y: self.y@, z: self.z@ }
    }
}

pub open spec fn v_zero() -> Vec3V {
    Vec3V { x: 0, y: 0, z: 0 }
}

pub open spec fn v_neg(v: Vec3V) -> Vec3V {
    Vec3V { x: fx_neg(v.x), y: fx_neg(v.y), z: fx_neg(v.z) }
}

pub open spec fn v_add(a: Vec3V, b: Vec3V) -> Vec3V {
    Vec3V { x: fx_add(a.x, b.x), y: fx_add(a.y, b.y), z: fx_add(a.z, b.z) }
}

pub open spec fn v_sub(a: Vec3V, b: Vec3V) -> Vec3V {
    Vec3V { x: fx_sub(a.x, b.x), y: fx_sub(a.y, b.y), z: fx_sub(a.z, b.z) }
}

pub open spec fn v_scale(v: Vec3V, s: int) -> Vec3V {
    Vec3V { x: fx_mul(v.x, s), y: fx_mul(v.y, s), z: fx_mul(v.z, s) }
}

pub open spec fn v_dot(a: Vec3V, b: Vec3V) -> int {
    fx_add(fx_add(fx_mul(a.x, b.x), fx_mul(a.y, b.y)), fx_mul(a.z, b.z))
}

pub open spec fn v_len(v: Vec3V) -> int {
    fx_sqrt(v_dot(v, v))
}

/// The vector divided by its length; each component becomes zero when the
/// computed length is zero (a degenerate input).
pub open spec fn v_normalize(v: Vec3V) -> Vec3V {
    let l = v_len(v);
    Vec3V { x: fx_div(v.x, l), y: fx_div(v.y, l), z: fx_div(v.z, l) }
}

impl Vector3 {
    pub fn zero() -> (r: Vector3)
        ensures
            r@ == v_zero(),
    {
        Vector3 { x: Fx { bits: 0 }, y: Fx { bits: 0 }, z: Fx { bits: 0 } }
    }

    /// Squared length.
    pub fn norm(&self) -> (r: Fx)
        ensures
            r@ == v_dot(self@, self@),
    {
        self.dot(self)
    }

    pub fn len(&self) -> (r: Fx)
        ensures
            r@ == v_len(self@),
    {
        self.norm().sqrt()
    }

    pub fn normalize(&self) -> (r: Vector3)
        ensures
            r@ == v_normalize(self@),
    {
        let a = self.len();
        Vector3 { x: self.x.div(a), y: self.y.div(a), z: self.z.div(a) }
    }

    pub fn dot(&self, oth: &Vector3) -> (r: Fx)
        ensures
            r@ == v_dot(self@, oth@),
    {
        self.x.mul(oth.x).add(self.y.mul(oth.y)).add(self.z.mul(oth.z))
    }

    pub fn neg(&self) -> (r: Vector3)
        ensures
            r@ == v_neg(self@),
    {
        Vector3 { x: self.x.neg(), y: self.y.neg(), z: self.z.neg() }
    }

    pub fn add(&self, oth: &Vector3) -> (r: Vector3)
        ensures
            r@ == v_add(self@, oth@),
    {
        Vector3 { x: self.x.add(oth.x), y: self.y.add(oth.y), z: self.z.add(oth.z) }
    }

    pub fn sub(&self, oth: &Vector3) -> (r: Vector3)
        ensures
            r@ == v_sub(self@, oth@),
    {
        Vector3 { x: self.x.sub(oth.x), y: self.y.sub(oth.y), z: self.z.sub(oth.z) }
    }

    /// The vector scaled by a scalar.
    pub fn mul(&self, s: Fx) -> (r: Vector3)
        ensures
            r@ == v_scale(self@, s@),
    {
        Vector3 { x: self.x.mul(s), y: self.y.mul(s), z: self.z.mul(s) }
    }
}

} // verus!
