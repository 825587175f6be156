use vstd::arithmetic::div_mod::lemma_div_is_ordered;
use vstd::prelude::*;

verus! {

/// Number of fixed-point units per whole unit: a stored value `v`
/// represents the real number `v / SCALE`.
pub const SCALE: i64 = 65536;

/// Truncated (round-toward-zero) division of `n` by a positive divisor `d`,
/// as Rust's `/` computes it on signed integers.
pub open spec fn tdiv(n: int, d: int) -> int
    recommends
        d > 0,
{
    if n >= 0 {
        n / d
    } else {
        -((-n) / d)
    }
}

/// Truncated division is bounded by the quotient of the magnitude bounds.
pub proof fn lemma_tdiv_bound(n: int, d: int, b: int)
    requires
        d > 0,
        0 <= b,
        -b <= n <= b,
    ensures
        -(b / d) <= tdiv(n, d) <= b / d,
{
    if n >= 0 {
        lemma_div_is_ordered(n, b, d);
        assert(0 <= n / d) by (nonlinear_arith)
            requires
                0 <= n,
                0 < d;
    } else {
        lemma_div_is_ordered(-n, b, d);
        assert(0 <= (-n) / d) by (nonlinear_arith)
            requires
                0 <= -n,
                0 < d;
    }
}

/// Truncated division is monotone in the numerator for non-negative numerators.
pub proof fn lemma_tdiv_mono(n1: int, n2: int, d: int)
    requires
        d > 0,
        0 <= n1 <= n2,
    ensures
        0 <= tdiv(n1, d) <= tdiv(n2, d),
{
    lemma_div_is_ordered(n1, n2, d);
    assert(0 <= n1 / d) by (nonlinear_arith)
        requires
            0 <= n1,
            0 < d;
}

/// A product of a multiple of the divisor divides exactly.
pub proof fn lemma_tdiv_exact(x: int, d: int)
    requires
        d > 0,
    ensures
        tdiv(x * d, d) == x,
{
    if x >= 0 {
        assert((x * d) / d == x) by (nonlinear_arith)
            requires
                d > 0,
                x >= 0;
    } else {
        assert(x * d < 0) by (nonlinear_arith)
            requires
                d > 0,
                x < 0;
        assert(-(x * d) == (-x) * d) by (nonlinear_arith);
        assert(((-x) * d) / d == -x) by (nonlinear_arith)
            requires
                d > 0,
                -x >= 0;
    }
}

/// Magnitudes of factors bound the magnitude of the product.
pub proof fn lemma_mul_bound(a: int, b: int, ab: int, bb: int)
    by (nonlinear_arith)
    requires
        0 <= ab,
        0 <= bb,
        -ab <= a <= ab,
        -bb <= b <= bb,
    ensures
        -(ab * bb) <= a * b <= ab * bb,
{
}

/// Truncated division of `n` by a positive divisor `d`, computed through
/// unsigned arithmetic.
pub fn tdiv_i128(n: i128, d: i128) -> (q: i128)
    requires
        0 < d,
        -0x40000000000000000000000000000000 < n < 0x40000000000000000000000000000000,
    ensures
        q == tdiv(n as int, d as int),
{
    if n >= 0 {
        proof {
            lemma_div_is_ordered(n as int, 0x3fffffffffffffffffffffffffffffff, d as int);
            assert(0 <= (n as int) / (d as int)) by (nonlinear_arith)
                requires
                    0 <= n,
                    0 < d;
        }
        (((n as u128) / (d as u128))) as i128
    } else {
        let m: u128 = (-n) as u128;
        proof {
            lemma_div_is_ordered(m as int, 0x3fffffffffffffffffffffffffffffff, d as int);
            assert(0 <= (m as int) / (d as int)) by (nonlinear_arith)
                requires
                    0 <= m,
                    0 < d;
        }
        -((m / (d as u128)) as i128)
    }
}

/// Fixed-point multiplication: the product of two fixed-point values,
/// rescaled by `SCALE` with truncation.
pub fn fmul(a: i64, b: i64) -> (r: i64)
    requires
        -0x7fffffffffffffff * 0x10000 <= a * b <= 0x7fffffffffffffff * 0x10000,
    ensures
        r == tdiv(a * b, SCALE as int),
{
    let p: i128 = (a as i128) * (b as i128);
    proof {
        lemma_tdiv_bound(p as int, 0x10000, 0x7fffffffffffffff * 0x10000int);
    }
    tdiv_i128(p, 0x10000) as i64
}

/// Fixed-point division: `a / b` as fixed-point values, for a positive
/// divisor, truncated toward zero.
pub fn fdiv(a: i64, b: i64) -> (r: i64)
    requires
        0 < b,
        -0x7fffffffffffffff <= tdiv(a * SCALE as int, b as int) <= 0x7fffffffffffffff,
    ensures
        r == tdiv(a * SCALE as int, b as int),
{
    let n: i128 = (a as i128) * 0x10000;
    tdiv_i128(n, b as i128) as i64
}

/// The integer square root, as a recursive specification: the largest `r`
/// with `r * r <= n`.
pub open spec fn sqrt_floor(n: int) -> int
    recommends
        n >= 0,
    decreases n,
{
    if n < 1 {
        0
    } else {
        let r = sqrt_floor(n - 1);
        if (r + 1) * (r + 1) <= n {
            r + 1
        } else {
            r
        }
    }
}

/// `sqrt_floor(n)` is the floor of the square root of `n`.
pub proof fn lemma_sqrt_floor_bounds(n: int)
    requires
        n >= 0,
    ensures
        0 <= sqrt_floor(n),
        sqrt_floor(n) * sqrt_floor(n) <= n,
        n < (sqrt_floor(n) + 1) * (sqrt_floor(n) + 1),
    decreases n,
{
    if n == 0 {
        assert(sqrt_floor(0) == 0);
    } else {
        lemma_sqrt_floor_bounds(n - 1);
        let r = sqrt_floor(n - 1);
        if (r + 1) * (r + 1) <= n {
            assert(n - 1 < (r + 1) * (r + 1));
            assert(n < (r + 2) * (r + 2)) by (nonlinear_arith)
                requires
                    n <= (r + 1) * (r + 1),
                    0 <= r;
        }
    }
}

/// Any integer bracketing the square root the way `sqrt_floor` does is
/// `sqrt_floor` itself.
pub proof fn lemma_sqrt_floor_unique(n: int, r: int)
    requires
        n >= 0,
        r >= 0,
        r * r <= n,
        n < (r + 1) * (r + 1),
    ensures
        r == sqrt_floor(n),
{
    lemma_sqrt_floor_bounds(n);
    let s = sqrt_floor(n);
    if r < s {
        assert((r + 1) * (r + 1) <= s * s) by (nonlinear_arith)
            requires
                0 <= r,
                r + 1 <= s;
    }
    if s < r {
        assert((s + 1) * (s + 1) <= r * r) by (nonlinear_arith)
            requires
                0 <= s,
                s + 1 <= r;
    }
}

/// Binary-search integer square root.
pub fn isqrt(n: u128) -> (r: u64)
    ensures
        r == sqrt_floor(n as int),
{
    let mut lo: u128 = 0;
    let mut hi: u128 = 0x10000000000000000;
    proof {
        assert((0x10000000000000000 as int) * 0x10000000000000000 > n as int);
    }
    while lo + 1 < hi
        invariant
            0 <= lo < hi <= 0x10000000000000000,
            lo * lo <= n,
            (n as int) < (hi as int) * (hi as int),
        decreases hi - lo,
    {
        let mid: u128 = lo + (hi - lo) / 2;
        proof {
            assert(lo < mid < hi);
            assert((mid as int) * (mid as int) < 0x100000000000000000000000000000000) by (nonlinear_arith)
                requires
                    0 <= mid < 0x10000000000000000;
        }
        if mid * mid <= n {
            lo = mid;
        } else {
            hi = mid;
        }
    }
    proof {
        lemma_sqrt_floor_unique(n as int, lo as int);
        assert(lo * lo <= n);
        assert(lo < 0x10000000000000000);
    }
    lo as u64
}

/// Square root of a non-negative fixed-point value: since the argument
/// stands for `x / SCALE`, the result is `sqrt_floor(x * SCALE) / SCALE`.
pub fn sqrt_fixed(x: i64) -> (r: i64)
    requires
        0 <= x,
    ensures
        r == sqrt_floor(x * SCALE as int),
        0 <= r,
{
    let n: u128 = (x as u128) * 0x10000;
    proof {
        lemma_sqrt_floor_bounds(n as int);
        let s = sqrt_floor(n as int);
        assert(s <= 0x7fffffffffffffff) by (nonlinear_arith)
            requires
                s >= 0,
                s * s <= n as int,
                n < 0x100000000000000000000,
        ;
    }
    isqrt(n) as i64
}

} // verus!
