use raytracer::color::{Color, Pixel};
use raytracer::fx::{Fx, SCALE};
use raytracer::lights::{AmbientLight, DirectionalLight, Light, PointLight};
use raytracer::material::{Material, SurfaceType};
use raytracer::objects::{Object, Plane, Sphere};
use raytracer::render::{cast_ray, create_ray, diffuse_color, render, MAX_DEPTH};
use raytracer::scene::{Ray, Scene};
use raytracer::vector3::Vector3;

fn fx(bits: i64) -> Fx {
    Fx { bits }
}

fn vec3(x: i64, y: i64, z: i64) -> Vector3 {
    Vector3 { x: fx(x * SCALE), y: fx(y * SCALE), z: fx(z * SCALE) }
}

fn white() -> Color {
    Color { r: fx(SCALE), g: fx(SCALE), b: fx(SCALE) }
}

fn black() -> Pixel {
    Pixel { r: 0, g: 0, b: 0 }
}

fn white_diffuse() -> Material {
    Material { reflection: fx(SCALE), color: white(), surface: SurfaceType::Diffuse }
}

fn sun() -> Light {
    // shines straight down the -z axis
    Light::DirectionalLight(DirectionalLight {
        direction: vec3(0, 0, -1),
        color: white(),
        intensity: fx(SCALE),
    })
}

fn occluder_at(z: i64) -> Object {
    Object::Sphere(Sphere {
        radius: Fx::of_i32(1),
        center: vec3(0, 0, z),
        material: white_diffuse(),
    })
}

fn axial_ray() -> Ray {
    Ray { origin: Vector3::zero(), direction: vec3(0, 0, -1) }
}

#[test]
fn occluded_light_contributes_nothing() {
    // surface point at z = -4 lit from +z; an opaque sphere at z = -2 blocks it
    let scene = Scene { width: 1, height: 1, lights: vec![sun()], items: vec![occluder_at(-2)] };
    let c = diffuse_color(&scene, &vec3(0, 0, -4), &vec3(0, 0, 1), &white_diffuse());
    assert_eq!((c.r.bits, c.g.bits, c.b.bits), (0, 0, 0));
}

#[test]
fn unoccluded_light_contributes_full_formula() {
    // same surface point without the blocker: cosine 1, intensity 1, white
    let scene = Scene { width: 1, height: 1, lights: vec![sun()], items: vec![] };
    let c = diffuse_color(&scene, &vec3(0, 0, -4), &vec3(0, 0, 1), &white_diffuse());
    assert_eq!((c.r.bits, c.g.bits, c.b.bits), (SCALE, SCALE, SCALE));
}

#[test]
fn ambient_light_adds_no_diffuse() {
    // an ambient light has no direction, so the cosine term is zero
    let ambient = Light::AmbientLight(AmbientLight { color: white(), intensity: fx(SCALE) });
    let scene = Scene { width: 1, height: 1, lights: vec![ambient], items: vec![] };
    let c = diffuse_color(&scene, &vec3(0, 0, -4), &vec3(0, 0, 1), &white_diffuse());
    assert_eq!((c.r.bits, c.g.bits, c.b.bits), (0, 0, 0));
}

fn lamp() -> Light {
    // a point light of intensity 100 at the origin
    Light::PointLight(PointLight {
        position: Vector3::zero(),
        color: white(),
        intensity: Fx::of_i32(100),
    })
}

#[test]
fn occluded_point_light_contributes_nothing() {
    // an opaque sphere sits between the point light and the surface point
    let scene = Scene { width: 1, height: 1, lights: vec![lamp()], items: vec![occluder_at(-2)] };
    let c = diffuse_color(&scene, &vec3(0, 0, -4), &vec3(0, 0, 1), &white_diffuse());
    assert_eq!((c.r.bits, c.g.bits, c.b.bits), (0, 0, 0));
}

#[test]
fn unoccluded_point_light_restores_falloff_formula() {
    // without the blocker, the contribution is intensity over 4*pi*distance^2,
    // scaled by a cosine of one: 100 / (4*pi*16), in fixed point
    let scene = Scene { width: 1, height: 1, lights: vec![lamp()], items: vec![] };
    let c = diffuse_color(&scene, &vec3(0, 0, -4), &vec3(0, 0, 1), &white_diffuse());
    assert_eq!((c.r.bits, c.g.bits, c.b.bits), (32594, 32594, 32594));
    assert!(c.r.bits > 0);
}

fn mirror() -> Material {
    Material {
        reflection: fx(SCALE),
        color: white(),
        surface: SurfaceType::Reflective { reflectivity: fx(SCALE) },
    }
}

#[test]
fn parallel_mirrors_terminate_black() {
    // two fully reflective planes facing each other; the ray bounces between
    // them until the depth cutoff fires and the cast comes back black
    let scene = Scene {
        width: 1,
        height: 1,
        lights: vec![],
        items: vec![
            Object::Plane(Plane {
                point: vec3(0, 0, -2),
                normal: vec3(0, 0, -1),
                material: mirror(),
            }),
            Object::Plane(Plane {
                point: vec3(0, 0, 2),
                normal: vec3(0, 0, 1),
                material: mirror(),
            }),
        ],
    };
    let c = cast_ray(&scene, &axial_ray(), 0);
    assert_eq!((c.r.bits, c.g.bits, c.b.bits), (0, 0, 0));
}

#[test]
fn cast_at_depth_bound_is_black() {
    let scene = Scene { width: 1, height: 1, lights: vec![sun()], items: vec![occluder_at(-5)] };
    let c = cast_ray(&scene, &axial_ray(), MAX_DEPTH);
    assert_eq!((c.r.bits, c.g.bits, c.b.bits), (0, 0, 0));
}

#[test]
fn overlit_scene_is_clamped() {
    // three white lights of intensity 10 shining on a white sphere: the raw
    // diffuse sum is 30, the shaded result exactly 1 per channel
    let hot = Light::DirectionalLight(DirectionalLight {
        direction: vec3(0, 0, -1),
        color: white(),
        intensity: Fx::of_i32(10),
    });
    let scene = Scene {
        width: 1,
        height: 1,
        lights: vec![hot, hot, hot],
        items: vec![occluder_at(-5)],
    };
    let c = cast_ray(&scene, &axial_ray(), 0);
    assert_eq!((c.r.bits, c.g.bits, c.b.bits), (SCALE, SCALE, SCALE));
    assert_eq!(c.to_pixel(), Pixel { r: 255, g: 255, b: 255 });
}

#[test]
fn create_ray_center_pixel_is_axial() {
    let r = create_ray(1, 1, 2, 2);
    assert_eq!((r.direction.x.bits, r.direction.y.bits, r.direction.z.bits), (0, 0, -SCALE));
    assert_eq!((r.origin.x.bits, r.origin.y.bits, r.origin.z.bits), (0, 0, 0));
}

#[test]
fn render_red_sphere_scene() {
    // 2x2 raster over a red sphere 5 ahead: only the pixel whose primary ray
    // runs straight down the axis hits it, and comes out pure red
    let red = Material {
        reflection: fx(SCALE),
        color: Color { r: fx(SCALE), g: fx(0), b: fx(0) },
        surface: SurfaceType::Diffuse,
    };
    let scene = Scene {
        width: 2,
        height: 2,
        lights: vec![sun()],
        items: vec![
            Object::Sphere(Sphere { radius: Fx::of_i32(1), center: vec3(0, 0, -5), material: red }),
        ],
    };
    let buf = render(&scene);
    assert_eq!(buf.len(), 4);
    assert_eq!(buf[0], black());
    assert_eq!(buf[1], black());
    assert_eq!(buf[2], black());
    assert_eq!(buf[3], Pixel { r: 255, g: 0, b: 0 });
}

#[test]
fn render_empty_scene_is_black() {
    let scene = Scene { width: 2, height: 2, lights: vec![sun()], items: vec![] };
    let buf = render(&scene);
    assert_eq!(buf.len(), 4);
    for p in buf {
        assert_eq!(p, black());
    }
}
