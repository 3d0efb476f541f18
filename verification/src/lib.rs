//! A recursive ray tracer over exact fixed-point arithmetic.
//!
//! A scene holds geometric primitives (spheres and single-sided planes),
//! each with a material, and a list of lights.  Rendering maps every pixel
//! of the output raster to a primary ray, finds the nearest primitive hit,
//! accumulates Lambertian lighting with shadow tests, and recurses for
//! specular reflection up to a fixed depth.  All geometry and color values
//! are fixed-point numbers, so every stage of the pipeline carries an exact
//! contract.

pub mod color;
pub mod fx;
pub mod lights;
pub mod material;
pub mod objects;
pub mod render;
pub mod scene;
pub mod vector3;
