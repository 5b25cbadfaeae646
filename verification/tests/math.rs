use raytracer_ramel::color::ColorRgb;
use raytracer_ramel::fixed::{fx_div, fx_mul, fx_sqrt, FX_ONE};
use raytracer_ramel::geometry::Aabb;
use raytracer_ramel::mat4::Mat4d;
use raytracer_ramel::trig::{acos, atan2, cos, sin, HALF_PI_FX, PI_FX};
use raytracer_ramel::vec3::Vec3d;

fn v(x: i64, y: i64, z: i64) -> Vec3d {
    Vec3d { x, y, z }
}

#[test]
fn fixed_mul_and_div_round_toward_zero() {
    assert_eq!(fx_mul(FX_ONE, FX_ONE), FX_ONE);
    assert_eq!(fx_mul(3 * FX_ONE, 2 * FX_ONE), 6 * FX_ONE);
    assert_eq!(fx_mul(-3 * FX_ONE, 2 * FX_ONE), -6 * FX_ONE);
    assert_eq!(fx_div(FX_ONE, 2 * FX_ONE), FX_ONE / 2);
    assert_eq!(fx_div(-FX_ONE, 2 * FX_ONE), -FX_ONE / 2);
    // one third rounds toward zero on both signs
    assert_eq!(fx_div(FX_ONE, 3 * FX_ONE), 21845);
    assert_eq!(fx_div(-FX_ONE, 3 * FX_ONE), -21845);
}

#[test]
fn fixed_sqrt_exact_squares() {
    assert_eq!(fx_sqrt(0), 0);
    assert_eq!(fx_sqrt(FX_ONE), FX_ONE);
    assert_eq!(fx_sqrt(4 * FX_ONE), 2 * FX_ONE);
    assert_eq!(fx_sqrt(9 * FX_ONE), 3 * FX_ONE);
    // sqrt(2) to the floor of the scale
    assert_eq!(fx_sqrt(2 * FX_ONE), 92681);
}

#[test]
fn vector_dot_cross_normalize() {
    let a = v(FX_ONE, 0, 0);
    let b = v(0, FX_ONE, 0);
    assert_eq!(a.dot(&b), 0);
    assert_eq!(a.dot(&a), FX_ONE);
    let c = a.cross(&b);
    assert_eq!(c, v(0, 0, FX_ONE));
    let d = v(3 * FX_ONE, 6 * FX_ONE, -9 * FX_ONE).div(3 * FX_ONE);
    assert_eq!(d, v(FX_ONE, 2 * FX_ONE, -3 * FX_ONE));
    let n = v(3 * FX_ONE, 4 * FX_ONE, 0).normalize();
    // 3-4-5 triangle: components 3/5 and 4/5
    assert_eq!(n.x, 39321);
    assert_eq!(n.y, 52428);
    assert_eq!(n.z, 0);
    assert_eq!(v(0, 0, 0).normalize(), v(0, 0, 0));
}

#[test]
fn aabb_union_is_commutative_associative_absorbing() {
    let a = Aabb { min: v(-FX_ONE, 0, 0), max: v(FX_ONE, FX_ONE, FX_ONE) };
    let b = Aabb { min: v(-2 * FX_ONE, -FX_ONE, 0), max: v(0, 2 * FX_ONE, FX_ONE) };
    let c = Aabb { min: v(0, 0, -FX_ONE), max: v(3 * FX_ONE, 0, 0) };
    assert_eq!(Aabb::union(a, b), Aabb::union(b, a));
    assert_eq!(
        Aabb::union(Aabb::union(a, b), c),
        Aabb::union(a, Aabb::union(b, c))
    );
    let d = Aabb::default();
    assert_eq!(Aabb::union(d, a), a);
    assert_eq!(Aabb::union(a, d), a);
}

#[test]
fn aabb_longest_axis_prefers_x_then_y() {
    // an exact tie between x and y resolves to x (x before y before z)
    let b = Aabb { min: v(0, 0, 0), max: v(2 * FX_ONE, 2 * FX_ONE, FX_ONE) };
    assert_eq!(b.longest_axis(), 0);
    let by = Aabb { min: v(0, 0, 0), max: v(FX_ONE, 2 * FX_ONE, 2 * FX_ONE) };
    assert_eq!(by.longest_axis(), 1);
    let bx = Aabb { min: v(0, 0, 0), max: v(3 * FX_ONE, 2 * FX_ONE, FX_ONE) };
    assert_eq!(bx.longest_axis(), 0);
    let bz = Aabb { min: v(0, 0, 0), max: v(FX_ONE, FX_ONE, 2 * FX_ONE) };
    assert_eq!(bz.longest_axis(), 2);
}

#[test]
fn color_arithmetic() {
    let c1 = ColorRgb::new(FX_ONE / 2, FX_ONE, 0);
    let c2 = ColorRgb::new(FX_ONE / 2, FX_ONE / 2, FX_ONE);
    assert_eq!(c1.add(&c2), ColorRgb::new(FX_ONE, 3 * FX_ONE / 2, FX_ONE));
    assert_eq!(c1.mul(&c2), ColorRgb::new(FX_ONE / 4, FX_ONE / 2, 0));
    assert_eq!(c1.scale(2 * FX_ONE), ColorRgb::new(FX_ONE, 2 * FX_ONE, 0));
    assert_eq!(c1.div(2 * FX_ONE), ColorRgb::new(FX_ONE / 4, FX_ONE / 2, 0));
    // division by (numerically) zero yields black
    assert_eq!(c1.div(0), ColorRgb::new(0, 0, 0));
    assert!(ColorRgb::new(0, FX_ONE, FX_ONE / 2).check_valid());
    assert!(!ColorRgb::new(-1, 0, 0).check_valid());
    assert!(!ColorRgb::new(0, FX_ONE + 1, 0).check_valid());
    let l = ColorRgb::lerp(ColorRgb::new(0, 0, 0), ColorRgb::new(FX_ONE, FX_ONE, FX_ONE), 0);
    assert_eq!(l, ColorRgb::new(0, 0, 0));
    let l1 = ColorRgb::lerp(ColorRgb::new(0, 0, 0), ColorRgb::new(FX_ONE, FX_ONE, FX_ONE), FX_ONE);
    assert_eq!(l1, ColorRgb::new(FX_ONE, FX_ONE, FX_ONE));
}

#[test]
fn trig_ranges_and_landmarks() {
    assert_eq!(atan2(0, FX_ONE), 0);
    assert_eq!(atan2(FX_ONE, 0), HALF_PI_FX);
    assert_eq!(atan2(0, -FX_ONE), PI_FX);
    assert_eq!(acos(FX_ONE), 0);
    assert_eq!(acos(0), HALF_PI_FX);
    let a = acos(-FX_ONE);
    assert!(a >= PI_FX - 2 && a <= PI_FX);
}

#[test]
fn mix_samples_weighted_average() {
    let white = ColorRgb::new(FX_ONE, FX_ONE, FX_ONE);
    let black = ColorRgb::new(0, 0, 0);
    let mixed = ColorRgb::mix_samples(&vec![(white, FX_ONE), (black, FX_ONE)]);
    assert_eq!(mixed, ColorRgb::new(FX_ONE / 2, FX_ONE / 2, FX_ONE / 2));
    // one sample carries all the weight
    let solo = ColorRgb::mix_samples(&vec![(white, FX_ONE), (black, 0)]);
    assert_eq!(solo, white);
    // vanishing weights yield black
    assert_eq!(ColorRgb::mix_samples(&vec![(white, 0)]), black);
    assert_eq!(ColorRgb::mix_samples(&vec![]), black);
}

#[test]
fn matrix_transpose_swaps_rows_and_columns() {
    let m = Mat4d::from_translation(v(FX_ONE, 2 * FX_ONE, 3 * FX_ONE));
    let t = m.transpose();
    // the translation column becomes the bottom row
    assert_eq!(t.data[3], FX_ONE);
    assert_eq!(t.data[7], 2 * FX_ONE);
    assert_eq!(t.data[11], 3 * FX_ONE);
    assert_eq!(t.data[12], 0);
    assert_eq!(t.transpose().data, m.data);
}

#[test]
fn sine_and_cosine_landmarks() {
    assert_eq!(sin(0), 0);
    assert_eq!(sin(PI_FX), 0);
    assert_eq!(cos(0), sin(HALF_PI_FX));
    // a quarter turn: sine one, cosine zero, within the approximation's step
    let s = sin(HALF_PI_FX);
    assert!(s >= FX_ONE - 64 && s <= FX_ONE);
    let c = cos(HALF_PI_FX);
    assert!(c >= -64 && c <= 64);
    // the second half turn is negative
    assert!(sin(PI_FX + HALF_PI_FX) < -FX_ONE + 128);
    // rotation by a quarter turn carries x onto y, up to rounding
    let rot = Mat4d::from_rotation_z(HALF_PI_FX);
    let p = rot.transform_point(v(FX_ONE, 0, 0));
    assert!(p.x.abs() <= 64);
    assert!(p.y >= FX_ONE - 64 && p.y <= FX_ONE);
    assert_eq!(p.z, 0);
}
