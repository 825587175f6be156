use raytracer::vec3::Vec3;
use raytracer::SCALE;

const ONE: i64 = SCALE;

#[test]
fn new_and_zero() {
    let v = Vec3::new(1, 2, 3);
    assert_eq!(v.x, 1);
    assert_eq!(v.y, 2);
    assert_eq!(v.z, 3);
    let z = Vec3::zero();
    assert_eq!(z, Vec3::new(0, 0, 0));
}

#[test]
fn add_sub_componentwise() {
    let a = Vec3::new(ONE, 2 * ONE, -ONE);
    let b = Vec3::new(ONE, ONE, ONE);
    assert_eq!(a.add(b), Vec3::new(2 * ONE, 3 * ONE, 0));
    assert_eq!(a.sub(b), Vec3::new(0, ONE, -2 * ONE));
}

#[test]
fn mul_and_scale_fixed_point() {
    let a = Vec3::new(ONE, ONE / 2, 2 * ONE);
    let b = Vec3::new(2 * ONE, 2 * ONE, ONE / 2);
    // (1, 0.5, 2) * (2, 2, 0.5) = (2, 1, 1)
    assert_eq!(a.mul(b), Vec3::new(2 * ONE, ONE, ONE));
    // (1, 0.5, 2) * 3 = (3, 1.5, 6)
    assert_eq!(a.scale(3 * ONE), Vec3::new(3 * ONE, 3 * ONE / 2, 6 * ONE));
}

#[test]
fn div_by_scalar() {
    let a = Vec3::new(4 * ONE, 2 * ONE, ONE);
    assert_eq!(a.div(2 * ONE), Vec3::new(2 * ONE, ONE, ONE / 2));
}

#[test]
fn dot_product_exact() {
    let a = Vec3::new(ONE, 2 * ONE, 3 * ONE);
    let b = Vec3::new(4 * ONE, -5 * ONE, 6 * ONE);
    // 1*4 - 2*5 + 3*6 = 12
    assert_eq!(Vec3::dot(a, b), 12 * ONE);
}

#[test]
fn cross_product_exact() {
    let x = Vec3::new(ONE, 0, 0);
    let y = Vec3::new(0, ONE, 0);
    assert_eq!(Vec3::cross(x, y), Vec3::new(0, 0, ONE));
    assert_eq!(Vec3::cross(y, x), Vec3::new(0, 0, -ONE));
}

#[test]
fn reflect_about_normal() {
    // A ray going straight down reflects straight up about the z normal.
    let a = Vec3::new(0, 0, -ONE);
    let n = Vec3::new(0, 0, ONE);
    assert_eq!(Vec3::reflect(a, n), Vec3::new(0, 0, ONE));
    // A 45-degree incoming direction keeps its lateral component.
    let a = Vec3::new(ONE, 0, -ONE);
    assert_eq!(Vec3::reflect(a, n), Vec3::new(ONE, 0, ONE));
}

#[test]
fn refract_head_on_does_not_bend() {
    // Index ratio one, head-on: the refracted direction is the incoming one.
    let a = Vec3::new(0, 0, -ONE);
    let n = Vec3::new(0, 0, ONE);
    let r = Vec3::refract(a, n, ONE);
    assert_eq!(r, Some(a));
}

#[test]
fn refract_total_internal_reflection() {
    // 45 degrees against an index ratio of 1.5: sin(45) > 1/1.5, no
    // refracted ray exists.
    let a = Vec3::new(46341, 0, -46341);
    let n = Vec3::new(0, 0, ONE);
    assert_eq!(Vec3::refract(a, n, 3 * ONE / 2), None);
}

#[test]
fn length_and_normalized() {
    let v = Vec3::new(3 * ONE, 0, 0);
    assert_eq!(v.length(), 3 * ONE);
    assert_eq!(v.normalized(), Vec3::new(ONE, 0, 0));
    let v = Vec3::new(3 * ONE, 4 * ONE, 0);
    assert_eq!(v.length(), 5 * ONE);
}

#[test]
fn near_zero_only_at_zero() {
    assert!(Vec3::zero().near_zero());
    assert!(!Vec3::new(1, 0, 0).near_zero());
    assert!(!Vec3::new(0, -1, 0).near_zero());
}

#[test]
fn random_sample_lies_in_unit_ball() {
    // Would loop forever (and time out) if the generator ignored its range.
    for _ in 0..32 {
        let v = Vec3::random_in_unit_sphere();
        assert!(-SCALE <= v.x && v.x <= SCALE);
        assert!(-SCALE <= v.y && v.y <= SCALE);
        assert!(-SCALE <= v.z && v.z <= SCALE);
        assert!(Vec3::dot(v, v) < SCALE);
    }
}
