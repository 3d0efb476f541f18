//! The ray-casting engine: diffuse shading with shadow tests, bounded
//! recursive reflection, and the per-pixel rasterization driver.

use vstd::prelude::*;

use crate::color::{c_add, c_clamp01, c_mul, c_scale, c_zero, pix_chan, Color, ColorV, Pixel};
use crate::fx::{fx_max0, fx_mul, fx_sub, Fx, SCALE};
use crate::lights::{light_color, light_direction, light_distance, light_intensity, Light};
use crate::material::{Material, SurfaceType};
use crate::objects::{obj_material, obj_normal};
use crate::scene::{nearest, Intersection, Ray, RayV, Scene};
use crate::vector3::{v_add, v_dot, v_scale, v_sub, v_zero, Vec3V, Vector3};

verus! {

/// Recursion bound on reflection: casts at this depth return black.
pub const MAX_DEPTH: u32 = 5;

/// Offset, in representable steps, applied along the surface normal to the
/// origin of shadow and reflection rays, so they do not hit the surface
/// they start from.
pub const EPS: i64 = 1;

/// Whether some primitive blocks the path from the surface point to the light:
/// the shadow ray hits at a distance no greater than the light's distance.
pub open spec fn light_blocked(s: Scene, hit: Vec3V, normal: Vec3V, l: Light) -> bool {
    let sr = RayV {
        origin: v_add(hit, v_scale(normal, EPS as int)),
        direction: light_direction(l, hit),
    };
    match nearest(s.items@, sr) {
        Some(p) => p.0 <= light_distance(l, hit),
        None => false,
    }
}

/// Power a light delivers to the surface point: zero when occluded, else the
/// Lambertian cosine factor times the light's intensity there.
pub open spec fn light_power(s: Scene, hit: Vec3V, normal: Vec3V, l: Light) -> int {
    if light_blocked(s, hit, normal, l) {
        0
    } else {
        fx_mul(fx_max0(v_dot(normal, light_direction(l, hit))), light_intensity(l, hit))
    }
}

/// One light's contribution to the diffuse term: its color scaled by its
/// power and the material's diffuse coefficient, filtered by the material's
/// own color.
pub open spec fn light_term(s: Scene, hit: Vec3V, normal: Vec3V, m: Material, l: Light) -> ColorV {
    c_mul(
        m.color@,
        c_scale(c_scale(light_color(l), light_power(s, hit, normal, l)), m.reflection@),
    )
}

/// Diffuse term accumulated over the first `n` lights.
pub open spec fn diffuse_upto(s: Scene, hit: Vec3V, normal: Vec3V, m: Material, n: int) -> ColorV
    decreases n,
{
    if n <= 0 {
        c_zero()
    } else {
        c_add(
            diffuse_upto(s, hit, normal, m, n - 1),
            light_term(s, hit, normal, m, s.lights@[n - 1]),
        )
    }
}

/// Diffuse (Lambertian) term over all lights of the scene, unclamped.
pub open spec fn diffuse_v(s: Scene, hit: Vec3V, normal: Vec3V, m: Material) -> ColorV {
    diffuse_upto(s, hit, normal, m, s.lights@.len() as int)
}

/// Mirror reflection of an incoming direction about a surface normal.
pub open spec fn reflect_dir(dir: Vec3V, normal: Vec3V) -> Vec3V {
    v_sub(dir, v_scale(v_scale(normal, v_dot(dir, normal)), 2 * SCALE as int))
}

/// Shaded color of the hit at parametric distance `dist` on the primitive at
/// `idx`: the diffuse term, blended with the recursively cast reflection for
/// a reflective surface, clamped into `[0, 1]` per channel.
pub open spec fn get_color_v(s: Scene, r: RayV, dist: int, idx: int, depth: int) -> ColorV
    decreases MAX_DEPTH as int - depth, 0int,
{
    if depth >= MAX_DEPTH as int {
        c_zero()
    } else {
        let o = s.items@[idx];
        let m = obj_material(o);
        let hit = v_add(r.origin, v_scale(r.direction, dist));
        let normal = obj_normal(o, hit);
        let base = diffuse_v(s, hit, normal, m);
        let col = match m.surface {
            SurfaceType::Diffuse => base,
            SurfaceType::Reflective { reflectivity } => {
                let rray = RayV {
                    origin: v_add(hit, v_scale(normal, EPS as int)),
                    direction: reflect_dir(r.direction, normal),
                };
                c_add(
                    c_scale(base, fx_sub(SCALE as int, reflectivity@)),
                    c_scale(cast_ray_v(s, rray, depth + 1), reflectivity@),
                )
            },
        };
        c_clamp01(col)
    }
}

/// Color carried by a ray: black at the recursion bound or when nothing is
/// hit, otherwise the shaded color of the nearest hit.
pub open spec fn cast_ray_v(s: Scene, r: RayV, depth: int) -> ColorV
    decreases MAX_DEPTH as int - depth, 1int,
{
    if depth >= MAX_DEPTH as int {
        c_zero()
    } else {
        match nearest(s.items@, r) {
            Some(p) => get_color_v(s, r, p.0, p.1, depth),
            None => c_zero(),
        }
    }
}

/// Diffuse (Lambertian) shading of a surface point: for every light, cast a
/// shadow ray and accumulate the unoccluded lights' contributions.
pub fn diffuse_color(scene: &Scene, hit: &Vector3, normal: &Vector3, material: &Material) -> (r:
    Color)
    ensures
        r@ == diffuse_v(*scene, hit@, normal@, *material),
{
    let mut color = Color { r: Fx { bits: 0 }, g: Fx { bits: 0 }, b: Fx { bits: 0 } };
    let mut idx: usize = 0;
    while idx < scene.lights.len()
        invariant
            idx <= scene.lights@.len(),
            color@ == diffuse_upto(*scene, hit@, normal@, *material, idx as int),
        decreases scene.lights@.len() - idx,
    {
        let light = scene.lights[idx];
        let light_direction = light.get_direction(hit);
        let shadow_ray = Ray {
            origin: hit.add(&normal.mul(Fx { bits: EPS })),
            direction: light_direction,
        };
        let between_light_and_object = scene.send_ray(&shadow_ray);
        let unblocked_power = normal.dot(&light_direction).max0().mul(light.get_intensity(hit));
        let power = match between_light_and_object {
            None => unblocked_power,
            Some(b) => if b.distance.bits > light.get_distance(hit).bits {
                unblocked_power
            } else {
                Fx { bits: 0 }
            },
        };
        let lcolor = light.get_color().scale(power).scale(material.reflection);
        color = color.add(material.color.mul(lcolor));
        idx = idx + 1;
    }
    color
}

/// Shade the given intersection: diffuse lighting plus, for a reflective
/// surface, the blended reflection cast at the next depth; the result is
/// clamped into `[0, 1]` per channel.
pub fn get_color(scene: &Scene, ray: &Ray, i: &Intersection, depth: u32) -> (r: Color)
    requires
        depth < MAX_DEPTH,
        i.item < scene.items@.len(),
    ensures
        r@ == get_color_v(*scene, ray@, i.distance@, i.item as int, depth as int),
        0 <= r@.r <= SCALE as int,
        0 <= r@.g <= SCALE as int,
        0 <= r@.b <= SCALE as int,
    decreases MAX_DEPTH - depth, 0int,
{
    let material = *scene.items[i.item].get_material();
    let hit = ray.origin.add(&ray.direction.mul(i.distance));
    let normal = scene.items[i.item].normal(&hit);
    let mut color = diffuse_color(scene, &hit, &normal, &material);
    match material.surface {
        SurfaceType::Diffuse => {},
        SurfaceType::Reflective { reflectivity } => {
            let reflection_ray = Ray {
                origin: hit.add(&normal.mul(Fx { bits: EPS })),
                direction: ray.direction.sub(
                    &normal.mul(ray.direction.dot(&normal)).mul(Fx { bits: 2 * SCALE }),
                ),
            };
            let reflected = cast_ray(scene, &reflection_ray, depth + 1);
            color = color.scale(Fx { bits: SCALE }.sub(reflectivity)).add(
                reflected.scale(reflectivity),
            );
        },
    }
    color.clamp()
}

/// Cast a ray into the scene: black at the recursion bound or when nothing
/// is hit, otherwise the shaded color of the nearest hit.
pub fn cast_ray(scene: &Scene, ray: &Ray, depth: u32) -> (r: Color)
    ensures
        r@ == cast_ray_v(*scene, ray@, depth as int),
        0 <= r@.r <= SCALE as int,
        0 <= r@.g <= SCALE as int,
        0 <= r@.b <= SCALE as int,
    decreases MAX_DEPTH - depth, 1int,
{
    if depth >= MAX_DEPTH {
        return Color { r: Fx { bits: 0 }, g: Fx { bits: 0 }, b: Fx { bits: 0 } };
    }
    match scene.send_ray(ray) {
        Some(i) => get_color(scene, ray, &i, depth),
        None => Color { r: Fx { bits: 0 }, g: Fx { bits: 0 }, b: Fx { bits: 0 } },
    }
}

/// Primary ray of the pixel at `(x, y)`: from the world origin through the
/// pixel's normalized device coordinate on the image plane at `z = -1`.
pub open spec fn ray_v(x: int, y: int, w: int, h: int) -> RayV {
    let s = SCALE as int;
    let dx = fx_sub(fx_mul(crate::fx::fx_div(x * s, w * s), 2 * s), s);
    let dy = fx_sub(fx_mul(crate::fx::fx_div(y * s, h * s), 2 * s), s);
    RayV { origin: v_zero(), direction: crate::vector3::v_normalize(Vec3V { x: dx, y: dy, z: -s }) }
}

pub fn create_ray(x: u32, y: u32, width: u32, height: u32) -> (r: Ray)
    ensures
        r@ == ray_v(x as int, y as int, width as int, height as int),
{
    let dir = Vector3 {
        x: Fx::of_u32(x).div(Fx::of_u32(width)).mul(Fx { bits: 2 * SCALE }).sub(
            Fx { bits: SCALE },
        ),
        y: Fx::of_u32(y).div(Fx::of_u32(height)).mul(Fx { bits: 2 * SCALE }).sub(
            Fx { bits: SCALE },
        ),
        z: Fx { bits: -SCALE },
    };
    Ray { origin: Vector3::zero(), direction: dir.normalize() }
}

/// The raster cell a color produces: clamped, byte-scaled channels.
pub open spec fn pixel_of(c: ColorV) -> Pixel {
    Pixel { r: pix_chan(c.r) as u8, g: pix_chan(c.g) as u8, b: pix_chan(c.b) as u8 }
}

/// Final value of the pixel at `(x, y)`: black when the primary ray hits
/// nothing, otherwise the shaded color of the nearest hit, as bytes.
pub open spec fn pixel_v(s: Scene, x: int, y: int) -> Pixel {
    let r = ray_v(x, y, s.width as int, s.height as int);
    match nearest(s.items@, r) {
        Some(p) => pixel_of(get_color_v(s, r, p.0, p.1, 0)),
        None => Pixel { r: 0, g: 0, b: 0 },
    }
}

/// Render the scene into a row-major raster of `width * height` pixels:
/// entry `y * width + x` is the pixel of `(x, y)`.
pub fn render(scene: &Scene) -> (buf: Vec<Pixel>)
    ensures
        buf@.len() == scene.height as int * scene.width as int,
        forall|k: int|
            0 <= k < buf@.len() ==> buf@[k] == pixel_v(
                *scene,
                k % (scene.width as int),
                k / (scene.width as int),
            ),
{
    let mut buf: Vec<Pixel> = Vec::new();
    let mut y: u32 = 0;
    while y < scene.height
        invariant
            y <= scene.height,
            buf@.len() == y as int * scene.width as int,
            forall|k: int|
                0 <= k < buf@.len() ==> buf@[k] == pixel_v(
                    *scene,
                    k % (scene.width as int),
                    k / (scene.width as int),
                ),
        decreases scene.height - y,
    {
        let mut x: u32 = 0;
        while x < scene.width
            invariant
                y < scene.height,
                x <= scene.width,
                buf@.len() == y as int * scene.width as int + x as int,
                forall|k: int|
                    0 <= k < buf@.len() ==> buf@[k] == pixel_v(
                        *scene,
                        k % (scene.width as int),
                        k / (scene.width as int),
                    ),
            decreases scene.width - x,
        {
            let ray = create_ray(x, y, scene.width, scene.height);
            let px = match scene.send_ray(&ray) {
                Some(i) => get_color(scene, &ray, &i, 0).to_pixel(),
                None => Pixel { r: 0, g: 0, b: 0 },
            };
            buf.push(px);
            proof {
                let w = scene.width as int;
                let k = y as int * w + x as int;
                vstd::arithmetic::div_mod::lemma_fundamental_div_mod_converse(
                    k,
                    w,
                    y as int,
                    x as int,
                );
                assert(buf@[k] == pixel_v(*scene, x as int, y as int));
            }
            x = x + 1;
        }
        proof {
            assert((y as int + 1) * (scene.width as int) == y as int * scene.width as int
                + scene.width as int) by (nonlinear_arith);
        }
        y = y + 1;
    }
    buf
}

/// The cutoff that bounds reflection: a cast at the maximum depth is black,
/// whatever the scene and ray.
pub proof fn lemma_depth_cutoff(s: Scene, r: RayV, depth: int)
    requires
        depth >= MAX_DEPTH as int,
    ensures
        cast_ray_v(s, r, depth) == c_zero(),
{
}

/// Every cast ray yields a color already clamped into `[0, 1]` per channel,
/// however overlit the scene: intermediate accumulation is unclamped, but
/// shading clamps before returning.
pub proof fn lemma_cast_ray_clamped(s: Scene, r: RayV, depth: int)
    ensures
        0 <= cast_ray_v(s, r, depth).r <= SCALE as int,
        0 <= cast_ray_v(s, r, depth).g <= SCALE as int,
        0 <= cast_ray_v(s, r, depth).b <= SCALE as int,
{
}

/// Every shaded hit yields a color already clamped into `[0, 1]` per
/// channel, at any depth.
pub proof fn lemma_get_color_clamped(s: Scene, r: RayV, dist: int, idx: int, depth: int)
    ensures
        0 <= get_color_v(s, r, dist, idx, depth).r <= SCALE as int,
        0 <= get_color_v(s, r, dist, idx, depth).g <= SCALE as int,
        0 <= get_color_v(s, r, dist, idx, depth).b <= SCALE as int,
{
}

/// A light whose shadow ray is blocked within its distance contributes
/// exactly black to the diffuse term; an unblocked light contributes
/// exactly the Lambertian formula.
pub proof fn lemma_light_term_cases(s: Scene, hit: Vec3V, normal: Vec3V, m: Material, l: Light)
    ensures
        light_blocked(s, hit, normal, l) ==> light_term(s, hit, normal, m, l) == c_zero(),
        !light_blocked(s, hit, normal, l) ==> light_term(s, hit, normal, m, l) == c_mul(
            m.color@,
            c_scale(
                c_scale(
                    light_color(l),
                    fx_mul(fx_max0(v_dot(normal, light_direction(l, hit))), light_intensity(l, hit)),
                ),
                m.reflection@,
            ),
        ),
{
    if light_blocked(s, hit, normal, l) {
        let lc = light_color(l);
        assert(lc.r * 0 == 0);
        assert(lc.g * 0 == 0);
        assert(lc.b * 0 == 0);
        assert(c_scale(lc, 0) == c_zero());
        assert(c_scale(c_zero(), m.reflection@) == c_zero());
        assert(m.color@.r * 0 == 0);
        assert(m.color@.g * 0 == 0);
        assert(m.color@.b * 0 == 0);
        assert(c_mul(m.color@, c_zero()) == c_zero());
    }
}

} // verus!
