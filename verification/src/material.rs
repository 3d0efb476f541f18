//! Surface appearance of a primitive.

use vstd::prelude::*;

use crate::color::Color;
use crate::fx::Fx;

verus! {

/// Whether a surface is purely diffuse or also mirrors incoming rays.
#[derive(Clone, Copy, Debug)]
pub enum SurfaceType {
    Diffuse,
    Reflective { reflectivity: Fx },
}

/// Surface appearance: base color, diffuse coefficient, and surface kind.
#[derive(Clone, Copy, Debug)]
pub struct Material {
    /// Scalar applied to all incoming diffuse light.
    pub reflection: Fx,
    pub color: Color,
    pub surface: SurfaceType,
}

} // verus!
