//! Trigonometric functions on Q32.32 fixed-point angles.
//!
//! Sine, cosine and arc-tangent come from the `cordic` crate, which computes
//! them by pure integer rotation on `fixed::types::I32F32` values — the same
//! bit layout as this library's scalars.  Their results are functions of the
//! argument bits alone, so they are named by uninterpreted spec functions.
//! The quadrant logic of `atan2` is this library's own, verified code.

use vstd::prelude::*;
use crate::fx::FX_ONE;
use crate::fx::FX_PI;
use crate::fx::FX_HALF_PI;
use crate::fx::FX_TAU;
use crate::fx::tdiv;

verus! {

/// Largest angle magnitude (sixteen turns) accepted by the sine and
/// cosine wrappers; every angle the library produces is far inside it.
pub const ANGLE_IN_LIMIT: i64 = 16 * FX_TAU;

/// Largest ratio magnitude handed to the arc-tangent wrapper.
pub const ATAN_IN_LIMIT: i64 = 0x2000_0000 * FX_ONE;

/// What `cordic::sin` returns on the given Q32.32 angle bits.
pub uninterp spec fn sin_of(x: int) -> int;

/// What `cordic::cos` returns on the given Q32.32 angle bits.
pub uninterp spec fn cos_of(x: int) -> int;

/// What `cordic::atan` returns on the given Q32.32 ratio bits.
pub uninterp spec fn atan_of(x: int) -> int;

/// Relies on `cordic::sin` over `fixed::types::I32F32`: a pure integer
/// computation whose result depends on the angle bits alone.
#[verifier::external_body]
pub fn sin(x: i64) -> (r: i64)
    requires
        -ANGLE_IN_LIMIT <= x <= ANGLE_IN_LIMIT,
    ensures
        r == sin_of(x as int),
{
    cordic::sin(fixed::types::I32F32::from_bits(x)).to_bits()
}

/// Relies on `cordic::cos` over `fixed::types::I32F32`: a pure integer
/// computation whose result depends on the angle bits alone.
#[verifier::external_body]
pub fn cos(x: i64) -> (r: i64)
    requires
        -ANGLE_IN_LIMIT <= x <= ANGLE_IN_LIMIT,
    ensures
        r == cos_of(x as int),
{
    cordic::cos(fixed::types::I32F32::from_bits(x)).to_bits()
}

/// Relies on `cordic::atan` over `fixed::types::I32F32`: a pure integer
/// computation whose result depends on the ratio bits alone.  The bound on
/// the argument keeps the rotation loop inside the range of the type.
#[verifier::external_body]
fn atan_raw(x: i64) -> (r: i64)
    requires
        0 <= x <= ATAN_IN_LIMIT,
    ensures
        r == atan_of(x as int),
{
    cordic::atan(fixed::types::I32F32::from_bits(x)).to_bits()
}

/// Arc-tangent of a non-negative ratio, saturated into the quarter turn
/// [0, pi/2] so that quadrant corrections stay in [-pi, pi].
pub open spec fn atan_qtr_s(m: int) -> int {
    if atan_of(m) < 0 {
        0
    } else if atan_of(m) > FX_HALF_PI {
        FX_HALF_PI as int
    } else {
        atan_of(m)
    }
}

/// The ratio `|y| / |x|` in Q32.32, rounded toward zero and saturated to
/// `ATAN_IN_LIMIT`.
pub open spec fn ratio_mag_s(y: int, x: int) -> int
    recommends
        x != 0,
{
    let q = tdiv(crate::fx::abs_i(y) * FX_ONE, crate::fx::abs_i(x));
    if q > ATAN_IN_LIMIT {
        ATAN_IN_LIMIT as int
    } else {
        q
    }
}

/// What `atan2` returns: the angle of the point `(x, y)`, in (-pi, pi],
/// computed from the saturated arc-tangent of the absolute ratio with
/// quadrant corrections.
pub open spec fn atan2_s(y: int, x: int) -> int {
    if x == 0 && y == 0 {
        0
    } else if x == 0 {
        if y > 0 {
            FX_HALF_PI as int
        } else {
            -FX_HALF_PI as int
        }
    } else if y == 0 {
        if x > 0 {
            0
        } else {
            FX_PI as int
        }
    } else {
        let t = atan_qtr_s(ratio_mag_s(y, x));
        if x > 0 && y > 0 {
            t
        } else if x > 0 && y < 0 {
            -t
        } else if x < 0 && y > 0 {
            FX_PI - t
        } else {
            t - FX_PI
        }
    }
}

/// The angle of the point `(x, y)`: quadrant-corrected arc-tangent, always
/// in [-pi, pi].
pub fn atan2(y: i64, x: i64) -> (r: i64)
    requires
        -crate::fx::FX_LIMIT <= y <= crate::fx::FX_LIMIT,
        -crate::fx::FX_LIMIT <= x <= crate::fx::FX_LIMIT,
    ensures
        r == atan2_s(y as int, x as int),
        -FX_PI <= r <= FX_PI,
{
    if x == 0 && y == 0 {
        0
    } else if x == 0 {
        if y > 0 {
            FX_HALF_PI
        } else {
            -FX_HALF_PI
        }
    } else if y == 0 {
        if x > 0 {
            0
        } else {
            FX_PI
        }
    } else {
        let my: u64 = if y < 0 {
            (-y) as u64
        } else {
            y as u64
        };
        let mx: u64 = if x < 0 {
            (-x) as u64
        } else {
            x as u64
        };
        proof {
            assert(my as int * FX_ONE <= 0x7fff_ffff_ffff_ffff * 0x1_0000_0000)
                by (nonlinear_arith)
                requires
                    0 <= my as int <= 0x7fff_ffff_ffff_ffff,
            ;
        }
        let wide: u128 = (my as u128) * (FX_ONE as u128);
        let q: u128 = wide / (mx as u128);
        let m: i64 = if q > ATAN_IN_LIMIT as u128 {
            ATAN_IN_LIMIT
        } else {
            q as i64
        };
        assert(m == ratio_mag_s(y as int, x as int));
        let t0 = atan_raw(m);
        let t: i64 = if t0 < 0 {
            0
        } else if t0 > FX_HALF_PI {
            FX_HALF_PI
        } else {
            t0
        };
        assert(t == atan_qtr_s(m as int));
        if x > 0 && y > 0 {
            t
        } else if x > 0 && y < 0 {
            -t
        } else if x < 0 && y > 0 {
            FX_PI - t
        } else {
            t - FX_PI
        }
    }
}

} // verus!
