use raytracer::color::{Color, Pixel};
use raytracer::fx::{Fx, SCALE};
use raytracer::vector3::Vector3;

fn fx(bits: i64) -> Fx {
    Fx { bits }
}

fn vec3(x: i64, y: i64, z: i64) -> Vector3 {
    Vector3 { x: fx(x * SCALE), y: fx(y * SCALE), z: fx(z * SCALE) }
}

#[test]
fn fx_mul_exact_and_truncating() {
    // 1.5 * 1.5 == 2.25 exactly
    assert_eq!(fx(98304).mul(fx(98304)).bits, 147456);
    // the smallest step squared truncates to zero
    assert_eq!(fx(1).mul(fx(1)).bits, 0);
    // sign handling rounds toward zero
    assert_eq!(fx(-98304).mul(fx(98304)).bits, -147456);
    assert_eq!(fx(-1).mul(fx(1)).bits, 0);
}

#[test]
fn fx_mul_saturates() {
    assert_eq!(fx(i64::MAX).mul(fx(i64::MAX)).bits, i64::MAX);
    assert_eq!(fx(i64::MIN).mul(fx(i64::MAX)).bits, i64::MIN);
}

#[test]
fn fx_div_truncates_toward_zero() {
    assert_eq!(Fx::of_i32(1).div(Fx::of_i32(3)).bits, 21845);
    assert_eq!(Fx::of_i32(-1).div(Fx::of_i32(3)).bits, -21845);
    assert_eq!(Fx::of_i32(6).div(Fx::of_i32(2)).bits, 3 * SCALE);
}

#[test]
fn fx_div_by_zero_is_zero() {
    assert_eq!(Fx::of_i32(7).div(fx(0)).bits, 0);
}

#[test]
fn fx_sqrt_values() {
    assert_eq!(Fx::of_i32(4).sqrt().bits, 2 * SCALE);
    assert_eq!(Fx::of_i32(25).sqrt().bits, 5 * SCALE);
    // sqrt(2) rounded down to the nearest representable step
    assert_eq!(Fx::of_i32(2).sqrt().bits, 92681);
    assert_eq!(Fx::of_i32(-4).sqrt().bits, 0);
    assert_eq!(fx(0).sqrt().bits, 0);
}

#[test]
fn fx_add_sub_neg_saturate() {
    assert_eq!(fx(i64::MAX).add(fx(1)).bits, i64::MAX);
    assert_eq!(fx(i64::MIN).sub(fx(1)).bits, i64::MIN);
    assert_eq!(fx(i64::MIN).neg().bits, i64::MAX);
    assert_eq!(fx(5).neg().bits, -5);
}

#[test]
fn fx_max0_and_clamp01() {
    assert_eq!(fx(-3).max0().bits, 0);
    assert_eq!(fx(3).max0().bits, 3);
    assert_eq!(Fx::of_i32(2).clamp01().bits, SCALE);
    assert_eq!(fx(-7).clamp01().bits, 0);
    assert_eq!(fx(12345).clamp01().bits, 12345);
}

#[test]
fn vector_dot_and_norm() {
    let v = vec3(3, 4, 0);
    assert_eq!(v.norm().bits, 25 * SCALE);
    assert_eq!(v.len().bits, 5 * SCALE);
    assert_eq!(v.dot(&vec3(1, 1, 1)).bits, 7 * SCALE);
}

#[test]
fn vector_normalize() {
    let n = vec3(3, 4, 0).normalize();
    assert_eq!(n.x.bits, 39321);
    assert_eq!(n.y.bits, 52428);
    assert_eq!(n.z.bits, 0);
    let axis = vec3(0, 0, -7).normalize();
    assert_eq!(axis.x.bits, 0);
    assert_eq!(axis.y.bits, 0);
    assert_eq!(axis.z.bits, -SCALE);
}

#[test]
fn vector_normalize_zero_is_zero() {
    let n = Vector3::zero().normalize();
    assert_eq!((n.x.bits, n.y.bits, n.z.bits), (0, 0, 0));
}

#[test]
fn vector_componentwise_ops() {
    let a = vec3(1, -2, 3);
    let b = vec3(4, 5, -6);
    let s = a.add(&b);
    assert_eq!((s.x.bits, s.y.bits, s.z.bits), (5 * SCALE, 3 * SCALE, -3 * SCALE));
    let d = a.sub(&b);
    assert_eq!((d.x.bits, d.y.bits, d.z.bits), (-3 * SCALE, -7 * SCALE, 9 * SCALE));
    let n = a.neg();
    assert_eq!((n.x.bits, n.y.bits, n.z.bits), (-SCALE, 2 * SCALE, -3 * SCALE));
    let m = a.mul(Fx::of_i32(2));
    assert_eq!((m.x.bits, m.y.bits, m.z.bits), (2 * SCALE, -4 * SCALE, 6 * SCALE));
}

#[test]
fn color_componentwise_ops() {
    let a = Color { r: fx(SCALE), g: fx(SCALE / 2), b: fx(0) };
    let b = Color { r: fx(SCALE / 2), g: fx(SCALE), b: fx(SCALE) };
    let s = a.add(b);
    assert_eq!((s.r.bits, s.g.bits, s.b.bits), (3 * SCALE / 2, 3 * SCALE / 2, SCALE));
    let m = a.mul(b);
    assert_eq!((m.r.bits, m.g.bits, m.b.bits), (SCALE / 2, SCALE / 2, 0));
    let c = a.scale(Fx::of_i32(2));
    assert_eq!((c.r.bits, c.g.bits, c.b.bits), (2 * SCALE, SCALE, 0));
}

#[test]
fn color_clamp() {
    let c = Color { r: Fx::of_i32(2), g: Fx::of_i32(-1), b: fx(SCALE / 2) };
    let k = c.clamp();
    assert_eq!((k.r.bits, k.g.bits, k.b.bits), (SCALE, 0, SCALE / 2));
}

#[test]
fn color_to_pixel() {
    let one = Color { r: fx(SCALE), g: fx(SCALE / 2), b: fx(0) };
    assert_eq!(one.to_pixel(), Pixel { r: 255, g: 127, b: 0 });
    // unclamped inputs saturate at the byte range
    let hot = Color { r: Fx::of_i32(2), g: Fx::of_i32(-1), b: fx(SCALE) };
    assert_eq!(hot.to_pixel(), Pixel { r: 255, g: 0, b: 255 });
}
