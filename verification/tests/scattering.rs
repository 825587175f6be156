use raytracer::materials::{schlick, Material};
use raytracer::ray::{Hit, Ray};
use raytracer::vec3::Vec3;
use raytracer::SCALE;

const ONE: i64 = SCALE;

fn head_on_hit() -> (Ray, Hit) {
    let ray = Ray::new(Vec3::zero(), Vec3::new(0, 0, -ONE));
    let hit = Hit::new(Vec3::new(0, 0, -2 * ONE), Vec3::new(0, 0, ONE));
    (ray, hit)
}

#[test]
fn diffuse_always_scatters() {
    let white = Vec3::new(ONE, ONE, ONE);
    let (ray, hit) = head_on_hit();
    for _ in 0..16 {
        let out = Material::Diffuse(white).scatter(&ray, hit);
        let (scattered, attenuation) = out.expect("diffuse must always continue");
        assert_eq!(attenuation, white);
        assert_eq!(scattered.origin, hit.point);
    }
}

#[test]
fn diffuse_direction_is_normal_plus_sample() {
    let white = Vec3::new(ONE, ONE, ONE);
    let (ray, hit) = head_on_hit();
    let sample = Vec3::new(100, -200, 300);
    let out = Material::Diffuse(white).scatter_with(&ray, hit, sample, 0);
    let (scattered, _) = out.unwrap();
    assert_eq!(scattered.direction, hit.normal.add(sample));
}

#[test]
fn metal_scatters_iff_reflection_leaves_surface() {
    let gray = Vec3::new(ONE / 2, ONE / 2, ONE / 2);
    let (ray, hit) = head_on_hit();
    // Fuzz zero, any sample: the reflection points along the normal.
    let out = Material::Metal(gray, 0).scatter_with(&ray, hit, Vec3::zero(), 0);
    let (scattered, attenuation) = out.expect("clean reflection must continue");
    assert_eq!(scattered.direction, Vec3::new(0, 0, ONE));
    assert_eq!(attenuation, gray);
    // A fuzz perturbation that drags the reflection back below the surface
    // absorbs the ray: dot(direction, normal) <= 0 exactly.
    let sample = Vec3::new(0, 0, -ONE);
    let out = Material::Metal(gray, ONE).scatter_with(&ray, hit, sample, 0);
    assert!(out.is_none());
}

#[test]
fn dielectric_always_scatters_with_unit_attenuation() {
    let glass = Material::Dielectric(3 * ONE / 2);
    let (ray, hit) = head_on_hit();
    for _ in 0..16 {
        let out = glass.scatter(&ray, hit);
        let (scattered, attenuation) = out.expect("dielectric must always continue");
        assert_eq!(attenuation, Vec3::new(ONE, ONE, ONE));
        assert_eq!(scattered.origin, hit.point);
    }
}

#[test]
fn dielectric_unity_index_head_on_does_not_bend() {
    // Refractive index one, head-on: reflectance is zero, so every coin
    // refracts, and the refracted direction is the incoming direction.
    let (ray, hit) = head_on_hit();
    for coin in [0, 1, ONE / 2, ONE - 1] {
        let out = Material::Dielectric(ONE).scatter_with(&ray, hit, Vec3::zero(), coin);
        let (scattered, _) = out.unwrap();
        assert_eq!(scattered.direction, ray.direction);
    }
}

#[test]
fn schlick_equals_r0_at_normal_incidence() {
    // r0 = ((1 - 1.5) / (1 + 1.5))^2 = 0.04, which truncates to 2621 units.
    assert_eq!(schlick(ONE, 3 * ONE / 2), 2621);
    // Index one reflects nothing head-on.
    assert_eq!(schlick(ONE, ONE), 0);
}

#[test]
fn schlick_grows_toward_grazing() {
    let idx = 3 * ONE / 2;
    let mut last = schlick(ONE, idx);
    let mut cos = ONE;
    while cos > 0 {
        cos -= ONE / 16;
        let cur = schlick(cos, idx);
        assert!(cur >= last, "reflectance must not drop as the angle grazes");
        last = cur;
    }
    assert!(schlick(0, idx) > schlick(ONE, idx));
}

#[test]
fn dielectric_total_internal_reflection_reflects() {
    // Leaving a dense medium at 45 degrees: no refracted ray exists, so the
    // ray must reflect, whatever the coin.
    let ray = Ray::new(Vec3::zero(), Vec3::new(46341, 0, 46341));
    let hit = Hit::new(Vec3::new(ONE, 0, ONE), Vec3::new(0, 0, ONE));
    let expected = Vec3::reflect(ray.direction, hit.normal);
    for coin in [0, ONE / 2, ONE - 1] {
        let out = Material::Dielectric(3 * ONE / 2).scatter_with(&ray, hit, Vec3::zero(), coin);
        let (scattered, attenuation) = out.unwrap();
        assert_eq!(scattered.direction, expected);
        assert_eq!(attenuation, Vec3::new(ONE, ONE, ONE));
    }
}
