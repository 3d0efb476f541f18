//! Light sources: directional, point, and ambient.

use vstd::prelude::*;

use crate::color::{Color, ColorV};
use crate::fx::{Fx, fx_div, fx_mul};
use crate::vector3::{v_dot, v_len, v_neg, v_normalize, v_sub, v_zero, Vec3V, Vector3};

verus! {

/// `4 * pi` in fixed point, rounded to the nearest representable step;
/// the denominator of the inverse-square falloff of a point light.
pub const FOUR_PI: i64 = 823550;

/// Stands in for an infinite distance: no occluder can be farther away.
pub const FAR: i64 = 0x7fff_ffff_ffff_ffff;

/// A light of constant direction and intensity, infinitely far away.
#[derive(Clone, Copy, Debug)]
pub struct DirectionalLight {
    /// Direction the light travels, i.e. from the light toward the scene.
    pub direction: Vector3,
    pub color: Color,
    pub intensity: Fx,
}

/// A light at a finite position with inverse-square falloff.
#[derive(Clone, Copy, Debug)]
pub struct PointLight {
    pub position: Vector3,
    pub color: Color,
    pub intensity: Fx,
}

/// A light with no position or direction at all.
#[derive(Clone, Copy, Debug)]
pub struct AmbientLight {
    pub color: Color,
    pub intensity: Fx,
}

#[derive(Clone, Copy, Debug)]
pub enum Light {
    DirectionalLight(DirectionalLight),
    PointLight(PointLight),
    AmbientLight(AmbientLight),
}

pub open spec fn light_color(l: Light) -> ColorV {
    match l {
        Light::DirectionalLight(d) => d.color@,
        Light::PointLight(p) => p.color@,
        Light::AmbientLight(a) => a.color@,
    }
}

/// Unit vector from the surface point toward the light; the zero vector for
/// an ambient light, which has no direction.
pub open spec fn light_direction(l: Light, hit: Vec3V) -> Vec3V {
    match l {
        Light::DirectionalLight(d) => v_neg(d.direction@),
        Light::PointLight(p) => v_normalize(v_sub(p.position@, hit)),
        Light::AmbientLight(_) => v_zero(),
    }
}

/// Intensity arriving at the surface point: constant for directional and
/// ambient lights, inverse-square falloff for a point light.
pub open spec fn light_intensity(l: Light, hit: Vec3V) -> int {
    match l {
        Light::DirectionalLight(d) => d.intensity@,
        Light::PointLight(p) => {
            let d2 = v_dot(v_sub(p.position@, hit), v_sub(p.position@, hit));
            fx_div(p.intensity@, fx_mul(FOUR_PI as int, d2))
        },
        Light::AmbientLight(a) => a.intensity@,
    }
}

/// Distance from the surface point to the light, the shadow-ray occlusion
/// cutoff; `FAR` for lights without a position.
pub open spec fn light_distance(l: Light, hit: Vec3V) -> int {
    match l {
        Light::DirectionalLight(_) => FAR as int,
        Light::PointLight(p) => v_len(v_sub(p.position@, hit)),
        Light::AmbientLight(_) => FAR as int,
    }
}

impl Light {
    pub fn get_color(&self) -> (r: &Color)
        ensures
            r@ == light_color(*self),
    {
        match self {
            Light::DirectionalLight(d) => &d.color,
            Light::PointLight(p) => &p.color,
            Light::AmbientLight(a) => &a.color,
        }
    }

    pub fn get_direction(&self, hit: &Vector3) -> (r: Vector3)
        ensures
            r@ == light_direction(*self, hit@),
    {
        match self {
            Light::DirectionalLight(d) => d.direction.neg(),
            Light::PointLight(p) => p.position.sub(hit).normalize(),
            Light::AmbientLight(_) => Vector3::zero(),
        }
    }

    pub fn get_intensity(&self, hit: &Vector3) -> (r: Fx)
        ensures
            r@ == light_intensity(*self, hit@),
    {
        match self {
            Light::DirectionalLight(d) => d.intensity,
            Light::PointLight(p) => {
                let squared_distance = p.position.sub(hit).norm();
                p.intensity.div(Fx { bits: FOUR_PI }.mul(squared_distance))
            },
            Light::AmbientLight(a) => a.intensity,
        }
    }

    pub fn get_distance(&self, hit: &Vector3) -> (r: Fx)
        ensures
            r@ == light_distance(*self, hit@),
    {
        match self {
            Light::DirectionalLight(_) => Fx { bits: FAR },
            Light::PointLight(p) => p.position.sub(hit).len(),
            Light::AmbientLight(_) => Fx { bits: FAR },
        }
    }
}

} // verus!
