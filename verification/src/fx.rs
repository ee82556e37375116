//! Signed 64-bit fixed-point scalars with 32 fractional bits.
//!
//! A scalar value `v` is stored as the integer `round(v * FX_ONE)`; all
//! arithmetic below states its exact integer result, with truncation
//! toward zero where a quotient is not exact.

use vstd::prelude::*;
use vstd::arithmetic::div_mod::{
    lemma_div_is_ordered, lemma_div_multiples_vanish, lemma_fundamental_div_mod,
    lemma_fundamental_div_mod_converse_mod, lemma_mod_multiples_basic,
};
use vstd::arithmetic::mul::lemma_mul_upper_bound;

verus! {

/// The fixed-point representation of 1.0: 2^32.
pub const FX_ONE: i64 = 4294967296;

/// The fixed-point representation of 2*pi (rounded to the nearest unit).
pub const FX_TAU: i64 = 26986075409;

/// The fixed-point representation of pi (rounded to the nearest unit).
pub const FX_PI: i64 = 13493037705;

/// The fixed-point representation of pi/2 (rounded to the nearest unit).
pub const FX_HALF_PI: i64 = 6746518852;

/// Absolute value of a mathematical integer.
pub open spec fn abs_s(a: int) -> int {
    if a < 0 {
        -a
    } else {
        a
    }
}

/// Exact fixed-point product: `a * b / 2^32`, truncated toward zero.
pub open spec fn fx_mul_s(a: int, b: int) -> int {
    let m = abs_s(a) * abs_s(b) / (FX_ONE as int);
    if (a < 0) == (b < 0) {
        m
    } else {
        -m
    }
}

/// Exact fixed-point quotient: `a * 2^32 / b`, truncated toward zero.
pub open spec fn fx_div_s(a: int, b: int) -> int
    recommends
        b != 0,
{
    let q = abs_s(a) * (FX_ONE as int) / abs_s(b);
    if (a < 0) == (b < 0) {
        q
    } else {
        -q
    }
}

/// The fixed-point product fits in an `i64`.
pub open spec fn fx_mul_fits(a: int, b: int) -> bool {
    i64::MIN <= fx_mul_s(a, b) <= i64::MAX
}

/// The fixed-point quotient fits in an `i64`.
pub open spec fn fx_div_fits(a: int, b: int) -> bool {
    i64::MIN <= fx_div_s(a, b) <= i64::MAX
}

/// Absolute value of an `i64`, widened so that `i64::MIN` is representable.
pub fn abs_u(a: i64) -> (r: u64)
    ensures
        r as int == abs_s(a as int),
{
    if a >= 0 {
        a as u64
    } else {
        (-(a as i128)) as u64
    }
}

/// Fixed-point multiplication; the result must fit in an `i64`.
pub fn fx_mul(a: i64, b: i64) -> (r: i64)
    requires
        i64::MIN <= fx_mul_s(a as int, b as int) <= i64::MAX,
    ensures
        r as int == fx_mul_s(a as int, b as int),
{
    let aa: u128 = abs_u(a) as u128;
    let bb: u128 = abs_u(b) as u128;
    proof {
        assert(aa * bb <= 0x8000000000000000u128 * 0x8000000000000000u128) by (nonlinear_arith)
            requires
                aa <= 0x8000000000000000u128,
                bb <= 0x8000000000000000u128,
        ;
    }
    let m: u128 = (aa * bb) / (FX_ONE as u128);
    if (a < 0) == (b < 0) {
        m as i64
    } else {
        (-(m as i128)) as i64
    }
}

/// Fixed-point division; the divisor must be nonzero and the result must
/// fit in an `i64`.
pub fn fx_div(a: i64, b: i64) -> (r: i64)
    requires
        b != 0,
        i64::MIN <= fx_div_s(a as int, b as int) <= i64::MAX,
    ensures
        r as int == fx_div_s(a as int, b as int),
{
    let num: u128 = (abs_u(a) as u128) * (FX_ONE as u128);
    let q: u128 = num / (abs_u(b) as u128);
    if (a < 0) == (b < 0) {
        q as i64
    } else {
        (-(q as i128)) as i64
    }
}

/// Multiplying by the fixed-point one on the right is exact.
pub broadcast proof fn lemma_fx_mul_one_right(a: int)
    ensures
        #[trigger] fx_mul_s(a, FX_ONE as int) == a,
{
    lemma_div_multiples_vanish(abs_s(a), FX_ONE as int);
    assert(abs_s(a) * (FX_ONE as int) == (FX_ONE as int) * abs_s(a)) by (nonlinear_arith);
}

/// Multiplying by the fixed-point one on the left is exact.
pub broadcast proof fn lemma_fx_mul_one_left(b: int)
    ensures
        #[trigger] fx_mul_s(FX_ONE as int, b) == b,
{
    lemma_div_multiples_vanish(abs_s(b), FX_ONE as int);
    assert(abs_s(b) * (FX_ONE as int) == (FX_ONE as int) * abs_s(b)) by (nonlinear_arith);
}

/// Multiplying by zero on the right gives zero.
pub broadcast proof fn lemma_fx_mul_zero_right(a: int)
    ensures
        #[trigger] fx_mul_s(a, 0) == 0,
{
    assert(abs_s(a) * 0 == 0) by (nonlinear_arith);
    vstd::arithmetic::div_mod::lemma_div_of0(FX_ONE as int);
}

/// Multiplying by zero on the left gives zero.
pub broadcast proof fn lemma_fx_mul_zero_left(b: int)
    ensures
        #[trigger] fx_mul_s(0, b) == 0,
{
    assert(0 * abs_s(b) == 0) by (nonlinear_arith);
    vstd::arithmetic::div_mod::lemma_div_of0(FX_ONE as int);
}

/// Clamping an integer into a closed interval.
pub open spec fn clamp_s(x: int, lo: int, hi: int) -> int
    recommends
        lo <= hi,
{
    if x < lo {
        lo
    } else if x > hi {
        hi
    } else {
        x
    }
}

/// Clamp a scalar into a closed interval.
pub fn fx_clamp(x: i64, lo: i64, hi: i64) -> (r: i64)
    requires
        lo <= hi,
    ensures
        r as int == clamp_s(x as int, lo as int, hi as int),
{
    if x < lo {
        lo
    } else if x > hi {
        hi
    } else {
        x
    }
}

/// `r` is the integer square root of `n`, rounded down.
pub open spec fn is_sqrt_floor(n: int, r: int) -> bool {
    0 <= r && r * r <= n && n < (r + 1) * (r + 1)
}

/// The integer square root of a nonnegative integer, rounded down.
pub open spec fn sqrt_floor(n: int) -> int
    recommends
        n >= 0,
{
    choose|r: int| is_sqrt_floor(n, r)
}

/// Any witness of `is_sqrt_floor` is the value of `sqrt_floor`.
pub proof fn lemma_sqrt_floor_unique(n: int, r: int)
    requires
        is_sqrt_floor(n, r),
    ensures
        sqrt_floor(n) == r,
{
    assert(is_sqrt_floor(n, sqrt_floor(n)));
    let s = sqrt_floor(n);
    if s < r {
        assert((s + 1) * (s + 1) <= r * r) by (nonlinear_arith)
            requires
                0 <= s,
                s + 1 <= r,
        ;
    }
    if r < s {
        assert((r + 1) * (r + 1) <= s * s) by (nonlinear_arith)
            requires
                0 <= r,
                r + 1 <= s,
        ;
    }
}

/// Integer square root by binary search.
pub fn isqrt(n: u128) -> (r: u64)
    ensures
        is_sqrt_floor(n as int, r as int),
        r as int == sqrt_floor(n as int),
{
    let mut lo: u128 = 0;
    let mut hi: u128 = 0x10000000000000000;
    proof {
        assert((0x10000000000000000 as int) * (0x10000000000000000 as int)
            == 0x100000000000000000000000000000000) by (nonlinear_arith);
    }
    while hi - lo > 1
        invariant
            lo < hi <= 0x10000000000000000u128,
            (lo as int) * (lo as int) <= n as int,
            (n as int) < (hi as int) * (hi as int),
        decreases hi - lo,
    {
        let mid: u128 = lo + (hi - lo) / 2;
        proof {
            assert(mid * mid < 0x100000000000000000000000000000000) by (nonlinear_arith)
                requires
                    mid < 0x10000000000000000u128,
            ;
        }
        if mid * mid <= n {
            lo = mid;
        } else {
            hi = mid;
        }
    }
    proof {
        lemma_sqrt_floor_unique(n as int, lo as int);
    }
    lo as u64
}

/// An angle reduced into `[0, 2*pi)`, as the Euclidean remainder by `FX_TAU`.
pub fn reduce_tau(a: i64) -> (r: u64)
    ensures
        r as int == (a as int) % (FX_TAU as int),
        0 <= r < FX_TAU,
{
    let t: u128 = FX_TAU as u128;
    if a >= 0 {
        let r = ((a as u128) % t) as u64;
        proof {
            assert((a as int) % (FX_TAU as int) == (a as u128 as int) % (t as int));
        }
        r
    } else {
        let na: u128 = (-(a as i128)) as u128;
        let m: u128 = na % t;
        proof {
            lemma_fundamental_div_mod(na as int, t as int);
        }
        let ghost q = na as int / t as int;
        if m == 0 {
            proof {
                assert(a as int == (-q) * (FX_TAU as int)) by (nonlinear_arith)
                    requires
                        na as int == (t as int) * q + 0,
                        a as int == -(na as int),
                        t as int == FX_TAU as int,
                ;
                lemma_mod_multiples_basic(-q, FX_TAU as int);
            }
            0
        } else {
            let r = (t - m) as u64;
            proof {
                assert(a as int == (-q - 1) * (FX_TAU as int) + (FX_TAU as int - m as int))
                    by (nonlinear_arith)
                    requires
                        na as int == (t as int) * q + m as int,
                        a as int == -(na as int),
                        t as int == FX_TAU as int,
                ;
                lemma_fundamental_div_mod_converse_mod(
                    a as int,
                    FX_TAU as int,
                    -q - 1,
                    FX_TAU as int - m as int,
                );
            }
            r
        }
    }
}

/// The truncated odd Taylor polynomial for the sine of `x`, valid as an
/// approximation for `x` in `[0, pi/2]` (a little slack above is allowed),
/// clamped into `[0, 1]`.
pub open spec fn sin_poly_s(x: int) -> int
    recommends
        0 <= x <= FX_HALF_PI + 1,
{
    let one = FX_ONE as int;
    let x2 = x * x / one;
    let x3 = x2 * x / one;
    let x5 = x3 * x2 / one;
    let x7 = x5 * x2 / one;
    let x9 = x7 * x2 / one;
    let pos = x + x5 / 120 + x9 / 362880;
    let neg = x3 / 6 + x7 / 5040;
    let d = if pos >= neg {
        pos - neg
    } else {
        0
    };
    if d > one {
        one
    } else {
        d
    }
}

/// The truncated even Taylor polynomial for the cosine of `x`, valid as an
/// approximation for `x` in `[0, pi/2]` (a little slack above is allowed),
/// clamped into `[0, 1]`.
pub open spec fn cos_poly_s(x: int) -> int
    recommends
        0 <= x <= FX_HALF_PI + 1,
{
    let one = FX_ONE as int;
    let x2 = x * x / one;
    let x4 = x2 * x2 / one;
    let x6 = x4 * x2 / one;
    let x8 = x6 * x2 / one;
    let pos = one + x4 / 24 + x8 / 40320;
    let neg = x2 / 2 + x6 / 720;
    let d = if pos >= neg {
        pos - neg
    } else {
        0
    };
    if d > one {
        one
    } else {
        d
    }
}

/// The fixed-point sine: the angle is reduced modulo `2*pi`, folded into
/// the first quadrant, and approximated by `sin_poly_s`.
pub open spec fn fx_sin_s(a: int) -> int {
    let r = a % (FX_TAU as int);
    if r < FX_PI {
        if r <= FX_HALF_PI {
            sin_poly_s(r)
        } else {
            sin_poly_s(FX_PI - r)
        }
    } else {
        let r2 = r - FX_PI;
        if r2 <= FX_HALF_PI {
            -sin_poly_s(r2)
        } else {
            -sin_poly_s(FX_PI - r2)
        }
    }
}

/// The fixed-point cosine: the angle is reduced modulo `2*pi`, folded into
/// the first quadrant, and approximated by `cos_poly_s`.
pub open spec fn fx_cos_s(a: int) -> int {
    let r0 = a % (FX_TAU as int);
    let r = if r0 >= FX_PI {
        FX_TAU - r0
    } else {
        r0
    };
    if r <= FX_HALF_PI {
        cos_poly_s(r)
    } else {
        -cos_poly_s(FX_PI - r)
    }
}

/// Bounds on two nonnegative factors carry over to their product and to
/// the product divided by a positive constant.
pub proof fn lemma_mul_div_bound(x: int, y: int, bx: int, by: int, d: int)
    requires
        0 <= x <= bx,
        0 <= y <= by,
        0 < d,
    ensures
        0 <= x * y <= bx * by,
        0 <= x * y / d <= bx * by / d,
{
    lemma_mul_upper_bound(x, bx, y, by);
    assert(0 <= x * y) by (nonlinear_arith)
        requires
            0 <= x,
            0 <= y,
    ;
    lemma_div_is_ordered(x * y, bx * by, d);
    vstd::arithmetic::div_mod::lemma_div_pos_is_pos(x * y, d);
}

fn sin_poly(x: u64) -> (r: u64)
    requires
        x as int <= FX_HALF_PI + 1,
    ensures
        r as int == sin_poly_s(x as int),
        r <= FX_ONE,
{
    let one: u128 = FX_ONE as u128;
    let xw: u128 = x as u128;
    proof {
        lemma_mul_div_bound(xw as int, xw as int, 0x200000000, 0x200000000, one as int);
    }
    let x2: u128 = xw * xw / one;
    proof {
        lemma_mul_div_bound(x2 as int, xw as int, 0x400000000, 0x200000000, one as int);
    }
    let x3: u128 = x2 * xw / one;
    proof {
        lemma_mul_div_bound(x3 as int, x2 as int, 0x800000000, 0x400000000, one as int);
    }
    let x5: u128 = x3 * x2 / one;
    proof {
        lemma_mul_div_bound(x5 as int, x2 as int, 0x2000000000, 0x400000000, one as int);
    }
    let x7: u128 = x5 * x2 / one;
    proof {
        lemma_mul_div_bound(x7 as int, x2 as int, 0x8000000000, 0x400000000, one as int);
    }
    let x9: u128 = x7 * x2 / one;
    let pos: u128 = xw + x5 / 120 + x9 / 362880;
    let neg: u128 = x3 / 6 + x7 / 5040;
    let d: u128 = if pos >= neg {
        pos - neg
    } else {
        0
    };
    if d > one {
        FX_ONE as u64
    } else {
        d as u64
    }
}

fn cos_poly(x: u64) -> (r: u64)
    requires
        x as int <= FX_HALF_PI + 1,
    ensures
        r as int == cos_poly_s(x as int),
        r <= FX_ONE,
{
    let one: u128 = FX_ONE as u128;
    let xw: u128 = x as u128;
    proof {
        lemma_mul_div_bound(xw as int, xw as int, 0x200000000, 0x200000000, one as int);
    }
    let x2: u128 = xw * xw / one;
    proof {
        lemma_mul_div_bound(x2 as int, x2 as int, 0x400000000, 0x400000000, one as int);
    }
    let x4: u128 = x2 * x2 / one;
    proof {
        lemma_mul_div_bound(x4 as int, x2 as int, 0x1000000000, 0x400000000, one as int);
    }
    let x6: u128 = x4 * x2 / one;
    proof {
        lemma_mul_div_bound(x6 as int, x2 as int, 0x4000000000, 0x400000000, one as int);
    }
    let x8: u128 = x6 * x2 / one;
    let pos: u128 = one + x4 / 24 + x8 / 40320;
    let neg: u128 = x2 / 2 + x6 / 720;
    let d: u128 = if pos >= neg {
        pos - neg
    } else {
        0
    };
    if d > one {
        FX_ONE as u64
    } else {
        d as u64
    }
}

/// The fixed-point sine of an angle in radians; always in `[-1, 1]`.
pub fn fx_sin(a: i64) -> (r: i64)
    ensures
        r as int == fx_sin_s(a as int),
        -FX_ONE <= r <= FX_ONE,
{
    let r0 = reduce_tau(a);
    if r0 < FX_PI as u64 {
        let x = if r0 <= FX_HALF_PI as u64 {
            r0
        } else {
            FX_PI as u64 - r0
        };
        sin_poly(x) as i64
    } else {
        let r2 = r0 - FX_PI as u64;
        let x = if r2 <= FX_HALF_PI as u64 {
            r2
        } else {
            FX_PI as u64 - r2
        };
        -(sin_poly(x) as i64)
    }
}

/// The fixed-point cosine of an angle in radians; always in `[-1, 1]`.
pub fn fx_cos(a: i64) -> (r: i64)
    ensures
        r as int == fx_cos_s(a as int),
        -FX_ONE <= r <= FX_ONE,
{
    let r0 = reduce_tau(a);
    let rf = if r0 >= FX_PI as u64 {
        FX_TAU as u64 - r0
    } else {
        r0
    };
    if rf <= FX_HALF_PI as u64 {
        cos_poly(rf) as i64
    } else {
        -(cos_poly(FX_PI as u64 - rf) as i64)
    }
}

/// An interval bound on a fixed-point product from bounds on its factors.
pub proof fn lemma_fx_mul_bound(a: int, b: int, bd_a: int, bd_b: int)
    requires
        abs_s(a) <= bd_a,
        abs_s(b) <= bd_b,
    ensures
        abs_s(fx_mul_s(a, b)) <= bd_a * bd_b / (FX_ONE as int),
{
    lemma_mul_upper_bound(abs_s(a), bd_a, abs_s(b), bd_b);
    lemma_div_is_ordered(abs_s(a) * abs_s(b), bd_a * bd_b, FX_ONE as int);
    assert(0 <= abs_s(a) * abs_s(b)) by (nonlinear_arith)
        requires
            abs_s(a) >= 0,
            abs_s(b) >= 0,
    ;
    assert(abs_s(a) * abs_s(b) / (FX_ONE as int) >= 0);
}


/// The fixed-point sine of angle zero is exactly zero.
pub proof fn lemma_fx_sin_zero()
    ensures
        fx_sin_s(0) == 0,
{
    vstd::arithmetic::div_mod::lemma_small_mod(0nat, FX_TAU as nat);
    vstd::arithmetic::div_mod::lemma_div_of0(FX_ONE as int);
    vstd::arithmetic::div_mod::lemma_div_of0(6);
    vstd::arithmetic::div_mod::lemma_div_of0(120);
    vstd::arithmetic::div_mod::lemma_div_of0(5040);
    vstd::arithmetic::div_mod::lemma_div_of0(362880);
    assert(sin_poly_s(0) == 0);
}

/// The fixed-point cosine of angle zero is exactly one.
pub proof fn lemma_fx_cos_zero()
    ensures
        fx_cos_s(0) == FX_ONE,
{
    vstd::arithmetic::div_mod::lemma_small_mod(0nat, FX_TAU as nat);
    vstd::arithmetic::div_mod::lemma_div_of0(FX_ONE as int);
    vstd::arithmetic::div_mod::lemma_div_of0(2);
    vstd::arithmetic::div_mod::lemma_div_of0(24);
    vstd::arithmetic::div_mod::lemma_div_of0(720);
    vstd::arithmetic::div_mod::lemma_div_of0(40320);
    assert(cos_poly_s(0) == FX_ONE as int);
}


} // verus!
