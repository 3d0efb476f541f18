//! Geometric primitives: spheres and single-sided infinite planes.

use vstd::prelude::*;

use crate::fx::{fx_add, fx_div, fx_mul, fx_sqrt, fx_sub, lemma_fx_mul_exact, lemma_fx_sqrt_square, Fx, SCALE};
use crate::material::Material;
use crate::scene::{Ray, RayV};
use crate::vector3::{v_dot, v_len, v_neg, v_normalize, v_sub, Vec3V, Vector3};

verus! {

#[derive(Clone, Copy, Debug)]
pub struct Sphere {
    pub radius: Fx,
    pub center: Vector3,
    pub material: Material,
}

/// An infinite plane, intersectable only from the side its stored normal
/// points away from: a ray is accepted only when `normal . direction > 0`.
#[derive(Clone, Copy, Debug)]
pub struct Plane {
    pub point: Vector3,
    pub normal: Vector3,
    pub material: Material,
}

#[derive(Clone, Copy, Debug)]
pub enum Object {
    Sphere(Sphere),
    Plane(Plane),
}

/// Squared distance from the sphere's center to the ray's supporting line:
/// the squared length of the center offset minus the squared projection
/// onto the ray direction.
pub open spec fn sphere_d2(s: Sphere, r: RayV) -> int {
    let l = v_sub(s.center@, r.origin);
    let d = v_dot(l, r.direction);
    fx_sub(fx_mul(v_len(l), v_len(l)), fx_mul(d, d))
}

/// Nearest non-negative root of the sphere's quadratic, or `None` when the
/// ray's line misses the sphere or the sphere lies behind the origin.
pub open spec fn sphere_intersect(s: Sphere, r: RayV) -> Option<int> {
    let l = v_sub(s.center@, r.origin);
    let d = v_dot(l, r.direction);
    let d2 = sphere_d2(s, r);
    let r2 = fx_mul(s.radius@, s.radius@);
    if d2 > r2 {
        None
    } else {
        let root = fx_sqrt(fx_sub(r2, d2));
        let s1 = fx_sub(d, root);
        let s2 = fx_add(d, root);
        if s1 < 0 && s2 < 0 {
            None
        } else if s1 >= 0 {
            Some(s1)
        } else {
            Some(s2)
        }
    }
}

/// Parametric distance to the plane, or `None` when the ray approaches the
/// back side or runs parallel (`normal . direction <= 0`), or the plane
/// lies behind the origin.
pub open spec fn plane_intersect(p: Plane, r: RayV) -> Option<int> {
    let denom = v_dot(p.normal@, r.direction);
    if denom > 0 {
        let v = v_sub(p.point@, r.origin);
        let distance = fx_div(v_dot(v, p.normal@), denom);
        if distance >= 0 {
            Some(distance)
        } else {
            None
        }
    } else {
        None
    }
}

pub open spec fn obj_intersect(o: Object, r: RayV) -> Option<int> {
    match o {
        Object::Sphere(s) => sphere_intersect(s, r),
        Object::Plane(p) => plane_intersect(p, r),
    }
}

/// Outward surface normal at a point: for a sphere, away from the center;
/// for a plane, the stored normal negated, so it faces the incoming ray.
pub open spec fn obj_normal(o: Object, point: Vec3V) -> Vec3V {
    match o {
        Object::Sphere(s) => v_normalize(v_sub(point, s.center@)),
        Object::Plane(p) => v_neg(p.normal@),
    }
}

pub open spec fn obj_material(o: Object) -> Material {
    match o {
        Object::Sphere(s) => s.material,
        Object::Plane(p) => p.material,
    }
}

/// The intersection result seen as a mathematical option of bits.
pub open spec fn opt_view(o: Option<Fx>) -> Option<int> {
    match o {
        Some(f) => Some(f@),
        None => None,
    }
}

/// A ray whose line's closest approach to the center is farther than the
/// radius reports no intersection, whatever its direction.
pub proof fn lemma_sphere_miss(s: Sphere, r: RayV)
    requires
        sphere_d2(s, r) > fx_mul(s.radius@, s.radius@),
    ensures
        sphere_intersect(s, r) is None,
{
}

/// A unit ray cast along an axis toward a sphere of whole-valued radius `m`
/// centered on that axis at whole-valued distance `k > m` reports a hit at
/// exactly `k - m`.
pub proof fn lemma_sphere_axial_hit(s: Sphere, r: RayV, k: int, m: int)
    requires
        0 < m < k <= 40000,
        s.center@ == (Vec3V { x: 0, y: 0, z: -k * SCALE as int }),
        s.radius@ == m * SCALE as int,
        r.origin == (Vec3V { x: 0, y: 0, z: 0 }),
        r.direction == (Vec3V { x: 0, y: 0, z: -(SCALE as int) }),
    ensures
        sphere_intersect(s, r) == Some((k - m) * SCALE as int),
{
    let sc = SCALE as int;
    assert(k * k <= 40000 * 40000) by (nonlinear_arith)
        requires
            0 < k <= 40000,
    ;
    assert(1 <= m * m <= 40000 * 40000) by (nonlinear_arith)
        requires
            0 < m <= 40000,
    ;
    assert((-k) * (-k) == k * k) by (nonlinear_arith);
    let l = v_sub(s.center@, r.origin);
    assert(l == (Vec3V { x: 0, y: 0, z: -k * sc }));
    lemma_fx_mul_exact(0, 0);
    lemma_fx_mul_exact(-k, -1);
    assert(v_dot(l, r.direction) == k * sc);
    lemma_fx_mul_exact(-k, -k);
    assert(v_dot(l, l) == k * k * sc);
    lemma_fx_sqrt_square(k);
    assert(v_len(l) == k * sc);
    lemma_fx_mul_exact(k, k);
    assert(sphere_d2(s, r) == 0);
    lemma_fx_mul_exact(m, m);
    assert(fx_mul(s.radius@, s.radius@) == m * m * sc);
    lemma_fx_sqrt_square(m);
    assert(fx_sqrt(fx_sub(m * m * sc, 0)) == m * sc);
    assert(fx_sub(k * sc, m * sc) == (k - m) * sc);
}

/// A unit ray aimed straight away from a sphere that lies wholly behind its
/// origin reports no intersection.
pub proof fn lemma_sphere_axial_behind(s: Sphere, r: RayV, k: int, m: int)
    requires
        0 < m < k <= 40000,
        s.center@ == (Vec3V { x: 0, y: 0, z: k * SCALE as int }),
        s.radius@ == m * SCALE as int,
        r.origin == (Vec3V { x: 0, y: 0, z: 0 }),
        r.direction == (Vec3V { x: 0, y: 0, z: -(SCALE as int) }),
    ensures
        sphere_intersect(s, r) is None,
{
    let sc = SCALE as int;
    assert(k * k <= 40000 * 40000) by (nonlinear_arith)
        requires
            0 < k <= 40000,
    ;
    assert(1 <= m * m <= 40000 * 40000) by (nonlinear_arith)
        requires
            0 < m <= 40000,
    ;
    assert((-k) * (-k) == k * k) by (nonlinear_arith);
    let l = v_sub(s.center@, r.origin);
    assert(l == (Vec3V { x: 0, y: 0, z: k * sc }));
    lemma_fx_mul_exact(0, 0);
    lemma_fx_mul_exact(k, -1);
    assert(v_dot(l, r.direction) == -k * sc);
    lemma_fx_mul_exact(k, k);
    assert(v_dot(l, l) == k * k * sc);
    lemma_fx_sqrt_square(k);
    assert(v_len(l) == k * sc);
    lemma_fx_mul_exact(-k, -k);
    assert(sphere_d2(s, r) == 0);
    lemma_fx_mul_exact(m, m);
    assert(fx_mul(s.radius@, s.radius@) == m * m * sc);
    lemma_fx_sqrt_square(m);
    assert(fx_sqrt(fx_sub(m * m * sc, 0)) == m * sc);
    assert(fx_sub(-k * sc, m * sc) < 0);
    assert(fx_add(-k * sc, m * sc) < 0);
}

/// A ray parallel to a plane, or approaching it from behind, reports no
/// intersection: the plane is intersectable only from its front side.
pub proof fn lemma_plane_away(p: Plane, r: RayV)
    requires
        v_dot(p.normal@, r.direction) <= 0,
    ensures
        plane_intersect(p, r) is None,
{
}

/// A unit ray cast along an axis into a front-facing plane at whole-valued
/// distance `k` reports a hit at exactly `k`.
pub proof fn lemma_plane_axial_hit(p: Plane, r: RayV, k: int)
    requires
        0 <= k <= 40000,
        p.point@ == (Vec3V { x: 0, y: 0, z: -k * SCALE as int }),
        p.normal@ == (Vec3V { x: 0, y: 0, z: -(SCALE as int) }),
        r.origin == (Vec3V { x: 0, y: 0, z: 0 }),
        r.direction == (Vec3V { x: 0, y: 0, z: -(SCALE as int) }),
    ensures
        plane_intersect(p, r) == Some(k * SCALE as int),
{
    let sc = SCALE as int;
    lemma_fx_mul_exact(0, 0);
    lemma_fx_mul_exact(-1, -1);
    assert(v_dot(p.normal@, r.direction) == sc);
    let v = v_sub(p.point@, r.origin);
    assert(v == (Vec3V { x: 0, y: 0, z: -k * sc }));
    lemma_fx_mul_exact(-k, -1);
    assert(v_dot(v, p.normal@) == k * sc);
    crate::fx::lemma_fx_div_by_one(k * sc);
    assert(fx_div(k * sc, sc) == k * sc);
}

impl Object {
    /// Nearest strictly-forward intersection distance along the ray, if any.
    pub fn intersect(&self, ray: &Ray) -> (res: Option<Fx>)
        ensures
            opt_view(res) == obj_intersect(*self, ray@),
    {
        match self {
            Object::Sphere(sphere) => {
                let ray_to_center = sphere.center.sub(&ray.origin);
                let dot = ray_to_center.dot(&ray.direction);
                let length_to_center = ray_to_center.len();
                let squared_distance = length_to_center.mul(length_to_center).sub(dot.mul(dot));
                let squared_radius = sphere.radius.mul(sphere.radius);
                if squared_distance.bits > squared_radius.bits {
                    return None;
                }
                let root = squared_radius.sub(squared_distance).sqrt();
                let solution1 = dot.sub(root);
                let solution2 = dot.add(root);
                if solution1.bits < 0 && solution2.bits < 0 {
                    return None;
                }
                if solution1.bits >= 0 {
                    Some(solution1)
                } else {
                    Some(solution2)
                }
            },
            Object::Plane(plane) => {
                let denom = plane.normal.dot(&ray.direction);
                if denom.bits > 0 {
                    let v = plane.point.sub(&ray.origin);
                    let distance = v.dot(&plane.normal).div(denom);
                    if distance.bits >= 0 {
                        return Some(distance);
                    }
                }
                None
            },
        }
    }

    pub fn normal(&self, point: &Vector3) -> (r: Vector3)
        ensures
            r@ == obj_normal(*self, point@),
    {
        match self {
            Object::Sphere(sphere) => point.sub(&sphere.center).normalize(),
            Object::Plane(plane) => plane.normal.neg(),
        }
    }

    pub fn get_material(&self) -> (r: &Material)
        ensures
            *r == obj_material(*self),
    {
        match self {
            Object::Sphere(sphere) => &sphere.material,
            Object::Plane(plane) => &plane.material,
        }
    }
}

} // verus!
