use crate::fixed::{
    fdiv, fmul, lemma_mul_bound, lemma_sqrt_floor_bounds, lemma_tdiv_bound, sqrt_fixed, sqrt_floor,
    tdiv, tdiv_i128, SCALE,
};
use crate::rng::rand_in_range;
use vstd::prelude::*;

verus! {

/// A 3-component vector of fixed-point reals: each field stands for the
/// real number `field / SCALE`.
#[derive(Clone, Copy, Debug, PartialEq, Eq, Structural)]
pub struct Vec3 {
    pub x: i64,
    pub y: i64,
    pub z: i64,
}

impl View for Vec3 {
    type V = (int, int, int);

    open spec fn view(&self) -> (int, int, int) {
        (self.x as int, self.y as int, self.z as int)
    }
}

/// Every component lies in `[-b, b]`.
pub open spec fn bounded3(v: (int, int, int), b: int) -> bool {
    &&& -b <= v.0 <= b
    &&& -b <= v.1 <= b
    &&& -b <= v.2 <= b
}

pub open spec fn addv(a: (int, int, int), b: (int, int, int)) -> (int, int, int) {
    (a.0 + b.0, a.1 + b.1, a.2 + b.2)
}

pub open spec fn subv(a: (int, int, int), b: (int, int, int)) -> (int, int, int) {
    (a.0 - b.0, a.1 - b.1, a.2 - b.2)
}

pub open spec fn negv(a: (int, int, int)) -> (int, int, int) {
    (-a.0, -a.1, -a.2)
}

/// Component-wise fixed-point product.
pub open spec fn mulv(a: (int, int, int), b: (int, int, int)) -> (int, int, int) {
    (tdiv(a.0 * b.0, 65536), tdiv(a.1 * b.1, 65536), tdiv(a.2 * b.2, 65536))
}

/// Scaling by a fixed-point scalar.
pub open spec fn scalev(a: (int, int, int), k: int) -> (int, int, int) {
    (tdiv(a.0 * k, 65536), tdiv(a.1 * k, 65536), tdiv(a.2 * k, 65536))
}

/// Component-wise fixed-point division by a positive fixed-point scalar.
pub open spec fn divv(a: (int, int, int), k: int) -> (int, int, int) {
    (tdiv(a.0 * 65536, k), tdiv(a.1 * 65536, k), tdiv(a.2 * 65536, k))
}

/// The fixed-point dot product.
pub open spec fn dotv(a: (int, int, int), b: (int, int, int)) -> int {
    tdiv(a.0 * b.0 + a.1 * b.1 + a.2 * b.2, 65536)
}

/// The fixed-point cross product.
pub open spec fn crossv(a: (int, int, int), b: (int, int, int)) -> (int, int, int) {
    (
        tdiv(a.1 * b.2, 65536) - tdiv(a.2 * b.1, 65536),
        tdiv(a.2 * b.0, 65536) - tdiv(a.0 * b.2, 65536),
        tdiv(a.0 * b.1, 65536) - tdiv(a.1 * b.0, 65536),
    )
}

/// Reflection of `a` about `b`: `a - b * dot(a, b) * 2`.
pub open spec fn reflectv(a: (int, int, int), b: (int, int, int)) -> (int, int, int) {
    subv(a, scalev(scalev(b, dotv(a, b)), 131072))
}

pub open spec fn min_i(a: int, b: int) -> int {
    if a <= b {
        a
    } else {
        b
    }
}

/// The cosine term of refraction: `dot(-a, b)` clamped to at most one.
pub open spec fn refract_cos(a: (int, int, int), b: (int, int, int)) -> int {
    min_i(dotv(negv(a), b), 65536)
}

/// The component of the refracted direction perpendicular to the normal.
pub open spec fn refract_perp(a: (int, int, int), b: (int, int, int), ni: int) -> (int, int, int) {
    scalev(addv(a, scalev(b, refract_cos(a, b))), ni)
}

/// The discriminant of refraction: negative exactly under total internal
/// reflection.
pub open spec fn refract_disc(a: (int, int, int), b: (int, int, int), ni: int) -> int {
    65536 - dotv(refract_perp(a, b, ni), refract_perp(a, b, ni))
}

/// Snell refraction of direction `a` about normal `b` with index ratio `ni`;
/// `None` exactly under total internal reflection.
pub open spec fn refractv(a: (int, int, int), b: (int, int, int), ni: int) -> Option<
    (int, int, int),
> {
    if refract_disc(a, b, ni) < 0 {
        None
    } else {
        Some(
            addv(
                scalev(b, -sqrt_floor(refract_disc(a, b, ni) * 65536)),
                refract_perp(a, b, ni),
            ),
        )
    }
}

/// Normalization: each component divided by the fixed-point length.
pub open spec fn normv(a: (int, int, int)) -> (int, int, int) {
    divv(a, sqrt_floor(dotv(a, a) * 65536))
}

/// Membership in the open unit ball, the condition the rejection sampler
/// establishes.
pub open spec fn in_unit_ball(v: (int, int, int)) -> bool {
    &&& bounded3(v, 65536)
    &&& dotv(v, v) < 65536
}

/// The dot product of vectors bounded by `bb` is bounded by `3 * bb * bb / SCALE`.
pub proof fn lemma_dotv_bound(a: (int, int, int), b: (int, int, int), bb: int)
    requires
        0 <= bb,
        bounded3(a, bb),
        bounded3(b, bb),
    ensures
        -(3 * (bb * bb) / 65536) <= dotv(a, b) <= 3 * (bb * bb) / 65536,
{
    lemma_mul_bound(a.0, b.0, bb, bb);
    lemma_mul_bound(a.1, b.1, bb, bb);
    lemma_mul_bound(a.2, b.2, bb, bb);
    lemma_tdiv_bound(a.0 * b.0 + a.1 * b.1 + a.2 * b.2, 65536, 3 * (bb * bb));
}

/// Scaling a vector bounded by `ab` with a scalar bounded by `kb` gives a
/// vector bounded by `ab * kb / SCALE`.
pub proof fn lemma_scalev_bound(a: (int, int, int), k: int, ab: int, kb: int)
    requires
        0 <= ab,
        0 <= kb,
        bounded3(a, ab),
        -kb <= k <= kb,
    ensures
        bounded3(scalev(a, k), ab * kb / 65536),
        -(ab * kb) <= a.0 * k <= ab * kb,
        -(ab * kb) <= a.1 * k <= ab * kb,
        -(ab * kb) <= a.2 * k <= ab * kb,
{
    lemma_mul_bound(a.0, k, ab, kb);
    lemma_mul_bound(a.1, k, ab, kb);
    lemma_mul_bound(a.2, k, ab, kb);
    lemma_tdiv_bound(a.0 * k, 65536, ab * kb);
    lemma_tdiv_bound(a.1 * k, 65536, ab * kb);
    lemma_tdiv_bound(a.2 * k, 65536, ab * kb);
}

impl Vec3 {
    pub fn new(x: i64, y: i64, z: i64) -> (r: Vec3)
        ensures
            r@ == (x as int, y as int, z as int),
    {
        Vec3 { x, y, z }
    }

    pub fn zero() -> (r: Vec3)
        ensures
            r@ == (0int, 0int, 0int),
    {
        Vec3 { x: 0, y: 0, z: 0 }
    }

    pub fn add(self, rhs: Vec3) -> (r: Vec3)
        requires
            -0x8000000000000000 <= self.x + rhs.x <= 0x7fffffffffffffff,
            -0x8000000000000000 <= self.y + rhs.y <= 0x7fffffffffffffff,
            -0x8000000000000000 <= self.z + rhs.z <= 0x7fffffffffffffff,
        ensures
            r@ == addv(self@, rhs@),
    {
        Vec3 { x: self.x + rhs.x, y: self.y + rhs.y, z: self.z + rhs.z }
    }

    pub fn sub(self, rhs: Vec3) -> (r: Vec3)
        requires
            -0x8000000000000000 <= self.x - rhs.x <= 0x7fffffffffffffff,
            -0x8000000000000000 <= self.y - rhs.y <= 0x7fffffffffffffff,
            -0x8000000000000000 <= self.z - rhs.z <= 0x7fffffffffffffff,
        ensures
            r@ == subv(self@, rhs@),
    {
        Vec3 { x: self.x - rhs.x, y: self.y - rhs.y, z: self.z - rhs.z }
    }

    /// Component-wise fixed-point product.
    pub fn mul(self, rhs: Vec3) -> (r: Vec3)
        requires
            -0x7fffffffffffffff * 0x10000 <= self.x * rhs.x <= 0x7fffffffffffffff * 0x10000,
            -0x7fffffffffffffff * 0x10000 <= self.y * rhs.y <= 0x7fffffffffffffff * 0x10000,
            -0x7fffffffffffffff * 0x10000 <= self.z * rhs.z <= 0x7fffffffffffffff * 0x10000,
        ensures
            r@ == mulv(self@, rhs@),
    {
        Vec3 { x: fmul(self.x, rhs.x), y: fmul(self.y, rhs.y), z: fmul(self.z, rhs.z) }
    }

    /// Scaling by a fixed-point scalar.
    pub fn scale(self, k: i64) -> (r: Vec3)
        requires
            -0x7fffffffffffffff * 0x10000 <= self.x * k <= 0x7fffffffffffffff * 0x10000,
            -0x7fffffffffffffff * 0x10000 <= self.y * k <= 0x7fffffffffffffff * 0x10000,
            -0x7fffffffffffffff * 0x10000 <= self.z * k <= 0x7fffffffffffffff * 0x10000,
        ensures
            r@ == scalev(self@, k as int),
    {
        Vec3 { x: fmul(self.x, k), y: fmul(self.y, k), z: fmul(self.z, k) }
    }

    /// Component-wise division by a positive fixed-point scalar.
    pub fn div(self, k: i64) -> (r: Vec3)
        requires
            0 < k,
            -0x7fffffffffffffff <= tdiv(self.x * 65536, k as int) <= 0x7fffffffffffffff,
            -0x7fffffffffffffff <= tdiv(self.y * 65536, k as int) <= 0x7fffffffffffffff,
            -0x7fffffffffffffff <= tdiv(self.z * 65536, k as int) <= 0x7fffffffffffffff,
        ensures
            r@ == divv(self@, k as int),
    {
        Vec3 { x: fdiv(self.x, k), y: fdiv(self.y, k), z: fdiv(self.z, k) }
    }

    pub fn dot(a: Vec3, b: Vec3) -> (r: i64)
        requires
            bounded3(a@, 0x4000000000),
            bounded3(b@, 0x4000000000),
        ensures
            r == dotv(a@, b@),
    {
        proof {
            lemma_mul_bound(a.x as int, b.x as int, 0x4000000000, 0x4000000000);
            lemma_mul_bound(a.y as int, b.y as int, 0x4000000000, 0x4000000000);
            lemma_mul_bound(a.z as int, b.z as int, 0x4000000000, 0x4000000000);
            lemma_tdiv_bound(
                a.x * b.x + a.y * b.y + a.z * b.z,
                65536,
                3 * (0x4000000000 * 0x4000000000int),
            );
        }
        let s: i128 = (a.x as i128) * (b.x as i128) + (a.y as i128) * (b.y as i128) + (a.z as i128)
            * (b.z as i128);
        tdiv_i128(s, 0x10000) as i64
    }

    pub fn cross(a: Vec3, b: Vec3) -> (r: Vec3)
        requires
            bounded3(a@, 0x4000000000),
            bounded3(b@, 0x4000000000),
        ensures
            r@ == crossv(a@, b@),
    {
        proof {
            lemma_mul_bound(a.y as int, b.z as int, 0x4000000000, 0x4000000000);
            lemma_mul_bound(a.z as int, b.y as int, 0x4000000000, 0x4000000000);
            lemma_mul_bound(a.z as int, b.x as int, 0x4000000000, 0x4000000000);
            lemma_mul_bound(a.x as int, b.z as int, 0x4000000000, 0x4000000000);
            lemma_mul_bound(a.x as int, b.y as int, 0x4000000000, 0x4000000000);
            lemma_mul_bound(a.y as int, b.x as int, 0x4000000000, 0x4000000000);
            lemma_tdiv_bound(a.y * b.z, 65536, 0x4000000000 * 0x4000000000int);
            lemma_tdiv_bound(a.z * b.y, 65536, 0x4000000000 * 0x4000000000int);
            lemma_tdiv_bound(a.z * b.x, 65536, 0x4000000000 * 0x4000000000int);
            lemma_tdiv_bound(a.x * b.z, 65536, 0x4000000000 * 0x4000000000int);
            lemma_tdiv_bound(a.x * b.y, 65536, 0x4000000000 * 0x4000000000int);
            lemma_tdiv_bound(a.y * b.x, 65536, 0x4000000000 * 0x4000000000int);
        }
        Vec3::new(
            fmul(a.y, b.z) - fmul(a.z, b.y),
            fmul(a.z, b.x) - fmul(a.x, b.z),
            fmul(a.x, b.y) - fmul(a.y, b.x),
        )
    }

    /// Reflection of `a` about `b`.
    pub fn reflect(a: Vec3, b: Vec3) -> (r: Vec3)
        requires
            bounded3(a@, 0x40000000),
            bounded3(b@, 0x40000000),
        ensures
            r@ == reflectv(a@, b@),
    {
        let d = Vec3::dot(a, b);
        proof {
            lemma_dotv_bound(a@, b@, 0x40000000);
            lemma_scalev_bound(b@, d as int, 0x40000000, 0x300000000000);
            lemma_scalev_bound(scalev(b@, d as int), 131072, 0xc00000000000000, 131072);
        }
        a.sub(b.scale(d).scale(131072))
    }

    /// Snell refraction of direction `a` about normal `b` with index ratio
    /// `ni`; `None` exactly under total internal reflection.
    pub fn refract(a: Vec3, b: Vec3, ni: i64) -> (r: Option<Vec3>)
        requires
            bounded3(a@, 0x40000),
            bounded3(b@, 0x40000),
            0 < ni <= 0x4000000,
        ensures
            r is Some <==> refract_disc(a@, b@, ni as int) >= 0,
            (r matches Some(v) ==> refractv(a@, b@, ni as int) == Some(v@)),
    {
        let na = Vec3::new(-a.x, -a.y, -a.z);
        let d = Vec3::dot(na, b);
        proof {
            lemma_dotv_bound(na@, b@, 0x40000);
        }
        let cos: i64 = if d <= SCALE {
            d
        } else {
            SCALE
        };
        proof {
            assert(cos == refract_cos(a@, b@));
            lemma_scalev_bound(b@, cos as int, 0x40000, 0x300000);
        }
        let bc = b.scale(cos);
        let inner = a.add(bc);
        proof {
            lemma_scalev_bound(inner@, ni as int, 0xc40000, 0x4000000);
            lemma_dotv_bound(
                refract_perp(a@, b@, ni as int),
                refract_perp(a@, b@, ni as int),
                0x310000000,
            );
        }
        let perp = inner.scale(ni);
        let dpp = Vec3::dot(perp, perp);
        let k = SCALE - dpp;
        proof {
            assert(k == refract_disc(a@, b@, ni as int));
        }
        if k < 0 {
            None
        } else {
            let s = sqrt_fixed(k);
            proof {
                lemma_sqrt_floor_bounds(k * 65536);
                assert(s * s <= k * 65536);
                assert(s <= 0x100000000000) by (nonlinear_arith)
                    requires
                        0 <= s,
                        s * s <= k * 65536,
                        k <= 0x7fffffffffffffff,
                ;
                lemma_scalev_bound(b@, -(s as int), 0x40000, 0x100000000000);
            }
            let par = b.scale(-s);
            Some(par.add(perp))
        }
    }

    /// The rejection sampler for the unit ball: draw each component uniformly
    /// in `[-1, 1)` and retry while the vector is not strictly inside the
    /// ball. A retry cap far beyond what rejection sampling ever needs keeps
    /// the loop provably finite; when it is exhausted the zero vector, a
    /// valid degenerate sample, is returned.
    pub fn random_in_unit_sphere() -> (v: Vec3)
        ensures
            in_unit_ball(v@),
    {
        let mut tries: u32 = 100000;
        while tries > 0
            decreases tries,
        {
            let x = rand_in_range(-65536, 65536);
            let y = rand_in_range(-65536, 65536);
            let z = rand_in_range(-65536, 65536);
            proof {
                assert(0 <= x * x <= 0x100000000 && 0 <= y * y <= 0x100000000 && 0 <= z * z
                    <= 0x100000000) by (nonlinear_arith)
                    requires
                        -65536 <= x <= 65536,
                        -65536 <= y <= 65536,
                        -65536 <= z <= 65536,
                ;
            }
            if x * x + y * y + z * z < SCALE * SCALE {
                let v = Vec3 { x, y, z };
                proof {
                    lemma_tdiv_bound(x * x + y * y + z * z, 65536, 0xffffffff);
                }
                return v;
            }
            tries = tries - 1;
        }
        Vec3::zero()
    }

    /// Whether every component is below the scattering noise floor; that
    /// floor lies far below one fixed-point unit, so only the exact zero
    /// vector satisfies it.
    pub fn near_zero(self) -> (r: bool)
        ensures
            r <==> self@ == (0int, 0int, 0int),
    {
        self.x == 0 && self.y == 0 && self.z == 0
    }

    /// The fixed-point Euclidean length.
    pub fn length(self) -> (r: i64)
        requires
            bounded3(self@, 0x4000000000),
        ensures
            r == sqrt_floor(dotv(self@, self@) * 65536),
            r >= 0,
    {
        let d = Vec3::dot(self, self);
        proof {
            assert(self.x * self.x >= 0) by (nonlinear_arith);
            assert(self.y * self.y >= 0) by (nonlinear_arith);
            assert(self.z * self.z >= 0) by (nonlinear_arith);
            lemma_mul_bound(self.x as int, self.x as int, 0x4000000000, 0x4000000000);
            lemma_mul_bound(self.y as int, self.y as int, 0x4000000000, 0x4000000000);
            lemma_mul_bound(self.z as int, self.z as int, 0x4000000000, 0x4000000000);
            lemma_tdiv_bound(
                self.x * self.x + self.y * self.y + self.z * self.z,
                65536,
                3 * (0x4000000000 * 0x4000000000int),
            );
        }
        sqrt_fixed(d)
    }

    /// The unit vector in the direction of `self`, for a vector of positive
    /// length.
    pub fn normalized(self) -> (r: Vec3)
        requires
            bounded3(self@, 0x4000000000),
            dotv(self@, self@) >= 1,
        ensures
            r@ == normv(self@),
    {
        let l = self.length();
        proof {
            lemma_sqrt_floor_bounds(dotv(self@, self@) * 65536);
            let n = dotv(self@, self@) * 65536;
            assert(l >= 1) by (nonlinear_arith)
                requires
                    n >= 65536,
                    l >= 0,
                    n < (l + 1) * (l + 1),
            ;
            lemma_mul_bound(self.x as int, 65536, 0x4000000000, 65536);
            lemma_mul_bound(self.y as int, 65536, 0x4000000000, 65536);
            lemma_mul_bound(self.z as int, 65536, 0x4000000000, 65536);
            lemma_tdiv_bound(self.x * 65536, l as int, 0x4000000000 * 65536int);
            lemma_tdiv_bound(self.y * 65536, l as int, 0x4000000000 * 65536int);
            lemma_tdiv_bound(self.z * 65536, l as int, 0x4000000000 * 65536int);
            assert(0x4000000000 * 65536int / (l as int) <= 0x4000000000 * 65536) by (nonlinear_arith)
                requires
                    l >= 1,
            ;
        }
        self.div(l)
    }
}

} // verus!
