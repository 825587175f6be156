use crate::fixed::{fdiv, fmul, lemma_mul_bound, lemma_tdiv_bound, lemma_tdiv_exact, lemma_tdiv_mono, tdiv, SCALE};
use crate::ray::{Hit, Ray};
use crate::rng::rand_in_range;
use crate::vec3::{
    addv, bounded3, dotv, in_unit_ball, lemma_dotv_bound, lemma_scalev_bound, min_i, negv,
    reflectv, refractv, scalev, Vec3,
};
use vstd::arithmetic::div_mod::{lemma_div_by_self, lemma_div_is_ordered, lemma_div_is_ordered_by_denominator};
use vstd::prelude::*;

verus! {

/// A surface material: behavior is selected by tag during scattering.
#[derive(Clone, Copy, Debug, PartialEq, Eq, Structural)]
pub enum Material {
    /// A clear medium with a fixed-point refractive index.
    Dielectric(i64),
    /// A reflector with an albedo color and a fuzz roughness in `[0, 1]`.
    Metal(Vec3, i64),
    /// A Lambertian surface with an albedo color.
    Diffuse(Vec3),
}

/// A color: every component within `[0, 1]` in fixed point.
pub open spec fn color_ok(c: (int, int, int)) -> bool {
    &&& 0 <= c.0 <= 65536
    &&& 0 <= c.1 <= 65536
    &&& 0 <= c.2 <= 65536
}

/// The fifth power of a fixed-point value, with the intermediate rescaling
/// the evaluation performs.
pub open spec fn pow5_fixed(x: int) -> int {
    let x2 = tdiv(x * x, 65536);
    let x4 = tdiv(x2 * x2, 65536);
    tdiv(x4 * x, 65536)
}

/// Normal-incidence reflectance: `((1 - n) / (1 + n))^2` in fixed point.
pub open spec fn r0_spec(n: int) -> int {
    let r = tdiv((65536 - n) * 65536, 65536 + n);
    tdiv(r * r, 65536)
}

/// Schlick's reflectance approximation, with the cosine clamped to at most
/// one before exponentiation: `r0 + (1 - r0) * (1 - cos)^5`.
pub open spec fn schlick_spec(cos: int, n: int) -> int {
    let c = min_i(cos, 65536);
    r0_spec(n) + tdiv((65536 - r0_spec(n)) * pow5_fixed(65536 - c), 65536)
}

/// Normal-incidence reflectance lies in `[0, 1]`.
pub proof fn lemma_r0_range(n: int)
    requires
        0 <= n,
    ensures
        0 <= r0_spec(n) <= 65536,
{
    let r = tdiv((65536 - n) * 65536, 65536 + n);
    lemma_mul_bound(65536 - n, 65536, 65536 + n, 65536);
    lemma_tdiv_bound((65536 - n) * 65536, 65536 + n, (65536 + n) * 65536);
    lemma_tdiv_exact(65536, 65536 + n);
    assert(-65536 <= r <= 65536);
    assert(0 <= r * r <= 0x100000000) by (nonlinear_arith)
        requires
            -65536 <= r <= 65536,
    ;
    lemma_tdiv_mono(0, r * r, 65536);
    lemma_tdiv_bound(r * r, 65536, 0x100000000);
}

/// The fifth power is monotone and stays within `[0, 1]` on `[0, 1]`.
pub proof fn lemma_pow5_mono(x1: int, x2: int)
    requires
        0 <= x1 <= x2 <= 65536,
    ensures
        0 <= pow5_fixed(x1) <= pow5_fixed(x2) <= 65536,
{
    let a1 = tdiv(x1 * x1, 65536);
    let a2 = tdiv(x2 * x2, 65536);
    assert(0 <= x1 * x1 <= x2 * x2 <= 0x100000000) by (nonlinear_arith)
        requires
            0 <= x1 <= x2 <= 65536,
    ;
    lemma_tdiv_mono(x1 * x1, x2 * x2, 65536);
    lemma_tdiv_mono(0, x1 * x1, 65536);
    lemma_tdiv_bound(x2 * x2, 65536, 0x100000000);
    assert(0 <= a1 * a1 <= a2 * a2 <= 0x100000000) by (nonlinear_arith)
        requires
            0 <= a1 <= a2 <= 65536,
    ;
    let b1 = tdiv(a1 * a1, 65536);
    let b2 = tdiv(a2 * a2, 65536);
    lemma_tdiv_mono(a1 * a1, a2 * a2, 65536);
    lemma_tdiv_mono(0, a1 * a1, 65536);
    lemma_tdiv_bound(a2 * a2, 65536, 0x100000000);
    assert(0 <= b1 * x1 <= b2 * x2 <= 0x100000000) by (nonlinear_arith)
        requires
            0 <= b1 <= b2 <= 65536,
            0 <= x1 <= x2 <= 65536,
    ;
    lemma_tdiv_mono(b1 * x1, b2 * x2, 65536);
    lemma_tdiv_mono(0, b1 * x1, 65536);
    lemma_tdiv_bound(b2 * x2, 65536, 0x100000000);
}

/// Schlick reflectance is monotonically non-decreasing as the cosine
/// decreases toward zero: grazing angles reflect at least as much.
pub proof fn lemma_schlick_monotone(cos1: int, cos2: int, n: int)
    requires
        0 <= cos2 <= cos1 <= 65536,
        0 <= n,
    ensures
        schlick_spec(cos1, n) <= schlick_spec(cos2, n),
{
    let r0 = r0_spec(n);
    lemma_r0_range(n);
    lemma_pow5_mono(65536 - cos1, 65536 - cos2);
    let p1 = pow5_fixed(65536 - cos1);
    let p2 = pow5_fixed(65536 - cos2);
    assert(0 <= (65536 - r0) * p1 <= (65536 - r0) * p2) by (nonlinear_arith)
        requires
            0 <= 65536 - r0,
            0 <= p1 <= p2,
    ;
    lemma_tdiv_mono((65536 - r0) * p1, (65536 - r0) * p2, 65536);
}

/// At normal incidence the Schlick reflectance is exactly `r0`.
pub proof fn lemma_schlick_at_one(n: int)
    requires
        0 <= n,
    ensures
        schlick_spec(65536, n) == r0_spec(n),
{
    assert(pow5_fixed(0) == 0);
    assert(tdiv((65536 - r0_spec(n)) * 0, 65536) == 0);
}

/// A ray entering a medium of refractive index one head-on reflects with
/// probability zero and refracts without bending: the refracted direction is
/// the incoming direction.
pub proof fn lemma_head_on_unity_index(a: (int, int, int), b: (int, int, int))
    requires
        a == negv(b),
        dotv(b, b) == 65536,
    ensures
        schlick_spec(65536, 65536) == 0,
        refractv(a, b, 65536) == Some(a),
{
    assert(schlick_spec(65536, 65536) == 0);
    assert(negv(a) == b);
    assert(dotv(negv(a), b) == 65536);
    lemma_tdiv_exact(b.0, 65536);
    lemma_tdiv_exact(b.1, 65536);
    lemma_tdiv_exact(b.2, 65536);
    assert(scalev(b, 65536) == b);
    assert(addv(a, b) == (0int, 0int, 0int));
    lemma_tdiv_exact(0, 65536);
    assert(scalev((0int, 0int, 0int), 65536) == (0int, 0int, 0int));
    assert(dotv((0int, 0int, 0int), (0int, 0int, 0int)) == 0);
    crate::fixed::lemma_sqrt_floor_unique(0x100000000, 65536);
    lemma_tdiv_exact(-b.0, 65536);
    lemma_tdiv_exact(-b.1, 65536);
    lemma_tdiv_exact(-b.2, 65536);
    assert(scalev(b, -65536) == negv(b));
    assert(addv(negv(b), (0int, 0int, 0int)) == a);
}

/// Schlick's reflectance approximation.
pub fn schlick(cos: i64, ref_idx: i64) -> (r: i64)
    requires
        0 <= cos <= 0x400000000,
        0 < ref_idx <= 0x4000000,
    ensures
        r == schlick_spec(cos as int, ref_idx as int),
        0 <= r <= 131072,
{
    proof {
        lemma_mul_bound(65536 - ref_idx, 65536, 65536 + ref_idx, 65536);
        lemma_tdiv_bound(
            (65536 - ref_idx) * 65536,
            65536 + ref_idx as int,
            (65536 + ref_idx) * 65536,
        );
        lemma_tdiv_exact(65536, 65536 + ref_idx as int);
    }
    let r0a = fdiv(SCALE - ref_idx, SCALE + ref_idx);
    proof {
        assert(0 <= r0a * r0a <= 0x100000000) by (nonlinear_arith)
            requires
                -65536 <= r0a <= 65536,
        ;
        lemma_tdiv_mono(0, r0a * r0a, 65536);
        lemma_tdiv_bound(r0a * r0a, 65536, 0x100000000);
    }
    let r0 = fmul(r0a, r0a);
    let c: i64 = if cos <= SCALE {
        cos
    } else {
        SCALE
    };
    let x = SCALE - c;
    proof {
        assert(0 <= x * x <= 0x100000000) by (nonlinear_arith)
            requires
                0 <= x <= 65536,
        ;
        lemma_tdiv_mono(0, x * x, 65536);
        lemma_tdiv_bound(x * x, 65536, 0x100000000);
    }
    let x2 = fmul(x, x);
    proof {
        assert(0 <= x2 * x2 <= 0x100000000) by (nonlinear_arith)
            requires
                0 <= x2 <= 65536,
        ;
        lemma_tdiv_mono(0, x2 * x2, 65536);
        lemma_tdiv_bound(x2 * x2, 65536, 0x100000000);
    }
    let x4 = fmul(x2, x2);
    proof {
        assert(0 <= x4 * x <= 0x100000000) by (nonlinear_arith)
            requires
                0 <= x4 <= 65536,
                0 <= x <= 65536,
        ;
        lemma_tdiv_mono(0, x4 * x, 65536);
        lemma_tdiv_bound(x4 * x, 65536, 0x100000000);
    }
    let x5 = fmul(x4, x);
    proof {
        assert(0 <= (65536 - r0) * x5 <= 0x100000000) by (nonlinear_arith)
            requires
                0 <= 65536 - r0 <= 65536,
                0 <= x5 <= 65536,
        ;
        lemma_tdiv_mono(0, (65536 - r0) * x5, 65536);
        lemma_tdiv_bound((65536 - r0) * x5, 65536, 0x100000000);
    }
    r0 + fmul(SCALE - r0, x5)
}

/// The direction a dielectric scatters into, as a function of the incoming
/// direction, the surface normal, and the reflect-or-refract coin: refract
/// when refraction exists and the coin clears the Schlick reflectance,
/// otherwise reflect.
pub open spec fn dielectric_scatter_dir(
    idx: int,
    dir: (int, int, int),
    n: (int, int, int),
    coin: int,
) -> (int, int, int) {
    let d = dotv(dir, n);
    let flipn = if d > 0 {
        negv(n)
    } else {
        n
    };
    let ni = if d > 0 {
        idx
    } else {
        tdiv(0x100000000, idx)
    };
    let cos = if d > 0 {
        tdiv(idx * d, 65536)
    } else {
        -d
    };
    match refractv(dir, flipn, ni) {
        Some(refr) => {
            if coin < schlick_spec(cos, idx) {
                reflectv(dir, n)
            } else {
                refr
            }
        },
        None => reflectv(dir, n),
    }
}

impl Material {
    /// The ranges under which scattering arithmetic is exact: a physically
    /// generous refractive-index window and colors within `[0, 1]`.
    pub open spec fn valid(self) -> bool {
        match self {
            Material::Dielectric(idx) => 64 <= idx <= 0x4000000,
            Material::Metal(albedo, fuzz) => color_ok(albedo@) && 0 <= fuzz <= 65536,
            Material::Diffuse(albedo) => color_ok(albedo@),
        }
    }

    /// The deterministic core of scattering: the unit-ball sample and the
    /// reflect-or-refract coin are taken as arguments, so this holds for
    /// every value the sampler can produce.
    pub fn scatter_with(self, ray: &Ray, hit: Hit, sample: Vec3, coin: i64) -> (r: Option<
        (Ray, Vec3),
    >)
        requires
            self.valid(),
            bounded3(ray.direction@, 0x40000),
            bounded3(hit.normal@, 0x40000),
            bounded3(hit.point@, 0x40000000),
            in_unit_ball(sample@),
            0 <= coin < 65536,
        ensures
            (self matches Material::Diffuse(albedo) ==> (r matches Some(rv) && rv.0.origin
                == hit.point && rv.0.direction@ == addv(hit.normal@, sample@) && rv.1 == albedo)),
            (self matches Material::Metal(albedo, fuzz) ==> ({
                let dir = addv(reflectv(ray.direction@, hit.normal@), scalev(sample@, fuzz as int));
                &&& (dotv(dir, hit.normal@) > 0 ==> (r matches Some(rv) && rv.0.origin == hit.point
                    && rv.0.direction@ == dir && rv.1 == albedo))
                &&& (dotv(dir, hit.normal@) <= 0 ==> r is None)
            })),
            (self matches Material::Dielectric(idx) ==> (r matches Some(rv) && rv.0.origin
                == hit.point && rv.0.direction@ == dielectric_scatter_dir(
                idx as int,
                ray.direction@,
                hit.normal@,
                coin as int,
            ) && rv.1@ == (65536int, 65536int, 65536int))),
    {
        match self {
            Material::Dielectric(ref_idx) => {
                let reflected = Vec3::reflect(ray.direction, hit.normal);
                let d = Vec3::dot(ray.direction, hit.normal);
                proof {
                    lemma_dotv_bound(ray.direction@, hit.normal@, 0x40000);
                }
                let normal: Vec3;
                let ni_over_nt: i64;
                let cos: i64;
                if d > 0 {
                    normal = Vec3::zero().sub(hit.normal);
                    ni_over_nt = ref_idx;
                    proof {
                        lemma_mul_bound(ref_idx as int, d as int, 0x4000000, 0x300000);
                        lemma_tdiv_mono(0, ref_idx * d, 65536);
                        lemma_tdiv_bound(ref_idx * d, 65536, 0x4000000 * 0x300000int);
                    }
                    cos = fmul(ref_idx, d);
                } else {
                    normal = hit.normal;
                    proof {
                        lemma_div_by_self(ref_idx as int);
                        lemma_div_is_ordered(ref_idx as int, 0x100000000, ref_idx as int);
                        lemma_div_is_ordered_by_denominator(0x100000000, 64, ref_idx as int);
                        lemma_tdiv_exact(0x4000000, 64);
                    }
                    ni_over_nt = fdiv(SCALE, ref_idx);
                    cos = -d;
                }
                let refracted = Vec3::refract(ray.direction, normal, ni_over_nt);
                let attenuation = Vec3::new(SCALE, SCALE, SCALE);
                match refracted {
                    Some(refr) => {
                        let refl_prob = schlick(cos, ref_idx);
                        if coin < refl_prob {
                            Some((Ray::new(hit.point, reflected), attenuation))
                        } else {
                            Some((Ray::new(hit.point, refr), attenuation))
                        }
                    },
                    None => Some((Ray::new(hit.point, reflected), attenuation)),
                }
            },
            Material::Metal(albedo, fuzz) => {
                let reflected = Vec3::reflect(ray.direction, hit.normal);
                proof {
                    lemma_dotv_bound(ray.direction@, hit.normal@, 0x40000);
                    lemma_scalev_bound(
                        hit.normal@,
                        dotv(ray.direction@, hit.normal@),
                        0x40000,
                        0x300000,
                    );
                    lemma_scalev_bound(
                        scalev(hit.normal@, dotv(ray.direction@, hit.normal@)),
                        131072,
                        0xc00000,
                        131072,
                    );
                    lemma_scalev_bound(sample@, fuzz as int, 65536, 65536);
                }
                let scattered = Ray::new(hit.point, reflected.add(sample.scale(fuzz)));
                let keep = Vec3::dot(scattered.direction, hit.normal);
                if keep > 0 {
                    Some((scattered, albedo))
                } else {
                    None
                }
            },
            Material::Diffuse(albedo) => {
                let target = hit.point.add(hit.normal).add(sample);
                Some((Ray::new(hit.point, target.sub(hit.point)), albedo))
            },
        }
    }

    /// Scatter an incoming ray at a surface interaction: decide whether
    /// light continues and with what attenuation. The unit-ball sample and
    /// the coin are drawn here, so the promises hold whatever came back.
    pub fn scatter(self, ray: &Ray, hit: Hit) -> (r: Option<(Ray, Vec3)>)
        requires
            self.valid(),
            bounded3(ray.direction@, 0x40000),
            bounded3(hit.normal@, 0x40000),
            bounded3(hit.point@, 0x40000000),
        ensures
            (self matches Material::Diffuse(albedo) ==> (r matches Some(rv) && rv.0.origin
                == hit.point && rv.1 == albedo)),
            (self matches Material::Dielectric(idx) ==> (r matches Some(rv) && rv.0.origin
                == hit.point && rv.1@ == (65536int, 65536int, 65536int))),
            (self matches Material::Metal(albedo, fuzz) ==> (r matches Some(rv) ==> (rv.0.origin
                == hit.point && rv.1 == albedo && dotv(rv.0.direction@, hit.normal@) > 0))),
    {
        let sample = Vec3::random_in_unit_sphere();
        let coin = rand_in_range(0, SCALE);
        self.scatter_with(ray, hit, sample, coin)
    }
}

} // verus!
