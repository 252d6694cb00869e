//! Fixed-point scalar arithmetic.
//!
//! Every quantity in the library is a real number represented in Q32.32
//! fixed point: an `i64` value `x` stands for the real `x / 2^32`.
//! All operations round toward zero and have exact integer contracts.

use vstd::prelude::*;
use vstd::arithmetic::div_mod::lemma_div_is_ordered;
use vstd::arithmetic::div_mod::lemma_div_multiples_vanish;

verus! {

/// The fixed-point representation of 1 (2^32).
pub const FX_ONE: i64 = 0x1_0000_0000;

/// The fixed-point representation of 1/2.
pub const FX_HALF: i64 = 0x8000_0000;

/// The fixed-point representation of the half turn (pi, rounded to nearest).
pub const FX_PI: i64 = 13493037705;

/// The fixed-point representation of the full turn, exactly `2 * FX_PI`.
pub const FX_TAU: i64 = 26986075410;

/// The fixed-point representation of the quarter turn.
pub const FX_HALF_PI: i64 = 6746518852;

/// Magnitude cap honoured by every scalar handed to the arithmetic helpers;
/// generous enough for all torus coordinates and corrections.
pub const FX_LIMIT: i64 = 0x4000_0000_0000_0000;

/// Absolute value over the mathematical integers.
pub open spec fn abs_i(x: int) -> int {
    if x < 0 {
        -x
    } else {
        x
    }
}

/// Quotient rounded toward zero, for a positive divisor.
pub open spec fn tdiv(n: int, d: int) -> int
    recommends
        d > 0,
{
    if n >= 0 {
        n / d
    } else {
        -((-n) / d)
    }
}

/// Product of two fixed-point values: `a * b / 2^32`, rounded toward zero.
pub open spec fn fx_mul_s(a: int, b: int) -> int {
    tdiv(a * b, FX_ONE as int)
}

/// Quotient of two fixed-point values: `a * 2^32 / c`, rounded toward zero.
pub open spec fn fx_div_s(a: int, c: int) -> int
    recommends
        c > 0,
{
    tdiv(a * FX_ONE, c)
}

/// Saturate a fixed-point value into the unit interval [-1, 1].
pub open spec fn sat_unit_s(x: int) -> int {
    if x > FX_ONE {
        FX_ONE as int
    } else if x < -FX_ONE {
        -(FX_ONE as int)
    } else {
        x
    }
}

/// Saturate a fixed-point value into the angle interval [-pi, pi].
pub open spec fn sat_angle_s(x: int) -> int {
    if x > FX_PI {
        FX_PI as int
    } else if x < -FX_PI {
        -(FX_PI as int)
    } else {
        x
    }
}

/// Saturate a fixed-point value into [-FX_LIMIT, FX_LIMIT].
pub open spec fn sat_limit_s(x: int) -> int {
    if x > FX_LIMIT {
        FX_LIMIT as int
    } else if x < -FX_LIMIT {
        -(FX_LIMIT as int)
    } else {
        x
    }
}

/// Saturate a fixed-point value into the unit interval [-1, 1].
pub fn sat_unit(x: i64) -> (r: i64)
    ensures
        r == sat_unit_s(x as int),
        -FX_ONE <= r <= FX_ONE,
{
    if x > FX_ONE {
        FX_ONE
    } else if x < -FX_ONE {
        -FX_ONE
    } else {
        x
    }
}

/// Saturate a fixed-point value into the angle interval [-pi, pi].
pub fn sat_angle(x: i64) -> (r: i64)
    ensures
        r == sat_angle_s(x as int),
        -FX_PI <= r <= FX_PI,
{
    if x > FX_PI {
        FX_PI
    } else if x < -FX_PI {
        -FX_PI
    } else {
        x
    }
}

/// Saturate a fixed-point value into [-FX_LIMIT, FX_LIMIT].
pub fn sat_limit(x: i64) -> (r: i64)
    ensures
        r == sat_limit_s(x as int),
        -FX_LIMIT <= r <= FX_LIMIT,
{
    if x > FX_LIMIT {
        FX_LIMIT
    } else if x < -FX_LIMIT {
        -FX_LIMIT
    } else {
        x
    }
}

/// Saturate a value into [-m, m].
pub open spec fn sat_to_s(x: int, m: int) -> int {
    if x > m {
        m
    } else if x < -m {
        -m
    } else {
        x
    }
}

/// Saturate a value into [-m, m].
pub fn sat_to(x: i64, m: i64) -> (r: i64)
    requires
        0 <= m,
    ensures
        r == sat_to_s(x as int, m as int),
        -m <= r <= m,
{
    if x > m {
        m
    } else if x < -m {
        -m
    } else {
        x
    }
}

proof fn lemma_mul_le_nonneg(a: int, ab: int, b: int, bb: int)
    by (nonlinear_arith)
    requires
        0 <= a <= ab,
        0 <= b <= bb,
    ensures
        a * b <= ab * bb,
        0 <= a * b,
{
}

proof fn lemma_abs_mul(a: int, b: int)
    by (nonlinear_arith)
    ensures
        abs_i(a * b) == abs_i(a) * abs_i(b),
{
}

proof fn lemma_mul_sign(a: int, b: int)
    by (nonlinear_arith)
    ensures
        a * b < 0 ==> ((a < 0) != (b < 0)),
        a * b > 0 ==> ((a < 0) == (b < 0)),
        (a == 0 || b == 0) ==> a * b == 0,
{
}

/// `a * b / c` rounded toward zero, exact, for `|a| <= c`.
///
/// This is the scaling primitive the whole library is built on: the result
/// magnitude never exceeds `|b|`, so overflow never arises along a chain of
/// scalings by unit-or-smaller ratios.
pub fn mul_div(a: i64, b: i64, c: i64) -> (r: i64)
    requires
        0 < c,
        -c <= a <= c,
        -FX_LIMIT <= b <= FX_LIMIT,
    ensures
        r == tdiv(a as int * b as int, c as int),
        -abs_i(b as int) <= r <= abs_i(b as int),
{
    let neg: bool = (a < 0) != (b < 0);
    let ma: u64 = if a < 0 {
        (-a) as u64
    } else {
        a as u64
    };
    let mb: u64 = if b < 0 {
        (-b) as u64
    } else {
        b as u64
    };
    proof {
        lemma_mul_le_nonneg(ma as int, 0x7fff_ffff_ffff_ffff, mb as int, FX_LIMIT as int);
    }
    let p: u128 = (ma as u128) * (mb as u128);
    let q: u128 = p / (c as u128);
    proof {
        // q <= mb because ma <= c.
        lemma_mul_le_nonneg(ma as int, c as int, mb as int, mb as int);
        lemma_div_is_ordered(p as int, c as int * mb as int, c as int);
        lemma_div_multiples_vanish(mb as int, c as int);
        // relate the sign-magnitude computation to tdiv of the real product
        lemma_abs_mul(a as int, b as int);
        lemma_mul_sign(a as int, b as int);
        assert(ma as int == abs_i(a as int));
        assert(mb as int == abs_i(b as int));
        assert(p as int == abs_i(a as int * b as int));
        let n = a as int * b as int;
        if n >= 0 {
            assert(n == p as int);
            assert(tdiv(n, c as int) == q as int);
        } else {
            assert(-n == p as int);
            assert(tdiv(n, c as int) == -(q as int));
        }
    }
    if neg {
        -(q as i64)
    } else {
        q as i64
    }
}

/// Multiply a fixed-point value by a unit-bounded fixed-point factor.
pub fn fx_mul_unit(a: i64, u: i64) -> (r: i64)
    requires
        -FX_ONE <= u <= FX_ONE,
        -FX_LIMIT <= a <= FX_LIMIT,
    ensures
        r == fx_mul_s(a as int, u as int),
        -abs_i(a as int) <= r <= abs_i(a as int),
{
    let r = mul_div(u, a, FX_ONE);
    proof {
        assert(u as int * a as int == a as int * u as int) by (nonlinear_arith);
    }
    r
}

/// Divide a fixed-point value by a larger-or-equal positive one; the
/// quotient is unit-bounded.
pub fn fx_div_le(a: i64, c: i64) -> (r: i64)
    requires
        0 < c,
        -c <= a <= c,
    ensures
        r == fx_div_s(a as int, c as int),
        -FX_ONE <= r <= FX_ONE,
{
    mul_div(a, FX_ONE, c)
}

/// Integer square root, rounded down.
pub open spec fn isqrt_s(n: int) -> int
    decreases n,
{
    if n < 1 {
        0
    } else {
        let p = isqrt_s(n - 1);
        if (p + 1) * (p + 1) <= n {
            p + 1
        } else {
            p
        }
    }
}

pub proof fn lemma_isqrt_s_props(n: int)
    requires
        n >= 0,
    ensures
        0 <= isqrt_s(n),
        isqrt_s(n) * isqrt_s(n) <= n,
        n < (isqrt_s(n) + 1) * (isqrt_s(n) + 1),
    decreases n,
{
    if n >= 1 {
        lemma_isqrt_s_props(n - 1);
        let p = isqrt_s(n - 1);
        if (p + 1) * (p + 1) <= n {
            assert(n < ((p + 1) + 1) * ((p + 1) + 1)) by (nonlinear_arith)
                requires
                    n - 1 < (p + 1) * (p + 1),
                    0 <= p,
            ;
        }
    }
}

pub proof fn lemma_isqrt_unique(n: int, r: int)
    requires
        n >= 0,
        0 <= r,
        r * r <= n,
        n < (r + 1) * (r + 1),
    ensures
        r == isqrt_s(n),
{
    lemma_isqrt_s_props(n);
    let s = isqrt_s(n);
    assert(r == s) by (nonlinear_arith)
        requires
            0 <= r,
            0 <= s,
            r * r <= n,
            n < (r + 1) * (r + 1),
            s * s <= n,
            n < (s + 1) * (s + 1),
    ;
}

/// Integer square root of a 128-bit value, rounded down.
pub fn isqrt_u128(s: u128) -> (r: u64)
    ensures
        r as int == isqrt_s(s as int),
        r as int * r as int <= s as int,
        (s as int) < (r as int + 1) * (r as int + 1),
{
    let mut lo: u128 = 0;
    let mut hi: u128 = 0x1_0000_0000_0000_0000;
    proof {
        assert((0x1_0000_0000_0000_0000 as int) * (0x1_0000_0000_0000_0000 as int)
            > u128::MAX as int) by (nonlinear_arith);
    }
    while lo + 1 < hi
        invariant
            0 <= lo < hi <= 0x1_0000_0000_0000_0000,
            lo as int * lo as int <= s as int,
            (s as int) < hi as int * hi as int,
        decreases hi - lo,
    {
        let mid: u128 = lo + (hi - lo) / 2;
        proof {
            assert(mid as int * mid as int <= u128::MAX as int) by (nonlinear_arith)
                requires
                    0 <= mid as int <= 0xffff_ffff_ffff_ffff,
            ;
        }
        if mid * mid <= s {
            lo = mid;
        } else {
            hi = mid;
        }
    }
    proof {
        lemma_isqrt_unique(s as int, lo as int);
    }
    lo as u64
}

/// Fixed-point square root: for `x >= 0`, the greatest fixed-point value
/// whose square (rounded down) does not exceed `x`.
pub open spec fn sqrt_fx_s(x: int) -> int {
    isqrt_s(x * FX_ONE)
}

/// Fixed-point square root of a non-negative value.
pub fn sqrt(x: i64) -> (r: i64)
    requires
        x >= 0,
    ensures
        r == sqrt_fx_s(x as int),
        0 <= r,
        r as int * r as int <= x as int * FX_ONE,
        x as int * FX_ONE < (r as int + 1) * (r as int + 1),
{
    proof {
        lemma_mul_le_nonneg(x as int, 0x7fff_ffff_ffff_ffff, FX_ONE as int, FX_ONE as int);
    }
    let wide: u128 = (x as u128) * (FX_ONE as u128);
    let r = isqrt_u128(wide);
    proof {
        assert(r as int <= 0xffff_ffff_ffff) by (nonlinear_arith)
            requires
                0 <= r as int,
                r as int * r as int <= 0x7fff_ffff_ffff_ffff * 0x1_0000_0000,
        ;
    }
    r as i64
}

} // verus!
