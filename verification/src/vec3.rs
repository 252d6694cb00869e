//! Cartesian 3-vectors of Q32.32 fixed-point scalars.

use vstd::prelude::*;
use crate::fx::FX_ONE;
use crate::fx::FX_LIMIT;
use crate::fx::abs_i;
use crate::fx::tdiv;
use crate::fx::fx_mul_s;
use crate::fx::fx_div_s;
use crate::fx::isqrt_s;
use crate::fx::fx_mul_unit;
use crate::fx::fx_div_le;
use crate::fx::isqrt_u128;
use crate::fx::lemma_isqrt_s_props;

verus! {

/// A point or direction in Cartesian space, Q32.32 per component.
#[derive(Clone, Copy, Debug, PartialEq, Eq, Structural)]
pub struct V3 {
    pub x: i64,
    pub y: i64,
    pub z: i64,
}

/// The mathematical value of a [`V3`]: its components as integers.
pub ghost struct V3s {
    pub x: int,
    pub y: int,
    pub z: int,
}

impl View for V3 {
    type V = V3s;

    open spec fn view(&self) -> V3s {
        V3s { x: self.x as int, y: self.y as int, z: self.z as int }
    }
}

/// Component magnitudes all at most `m`.
pub open spec fn v3s_bounded(v: V3s, m: int) -> bool {
    -m <= v.x <= m && -m <= v.y <= m && -m <= v.z <= m
}

/// The zero vector.
pub open spec fn v3s_zero() -> V3s {
    V3s { x: 0, y: 0, z: 0 }
}

pub open spec fn v3s_add(a: V3s, b: V3s) -> V3s {
    V3s { x: a.x + b.x, y: a.y + b.y, z: a.z + b.z }
}

pub open spec fn v3s_sub(a: V3s, b: V3s) -> V3s {
    V3s { x: a.x - b.x, y: a.y - b.y, z: a.z - b.z }
}

/// Scale a vector by a fixed-point factor, component-wise.
pub open spec fn v3s_scale(d: int, v: V3s) -> V3s {
    V3s { x: fx_mul_s(d, v.x), y: fx_mul_s(d, v.y), z: fx_mul_s(d, v.z) }
}

/// Fixed-point dot product.
pub open spec fn v3s_dot(a: V3s, b: V3s) -> int {
    fx_mul_s(a.x, b.x) + fx_mul_s(a.y, b.y) + fx_mul_s(a.z, b.z)
}

/// Euclidean length: the bit representations square to `2^64` times the
/// squared real length, so the rounded-down integer square root of their sum
/// is exactly the Q32.32 length.
pub open spec fn v3s_len(v: V3s) -> int {
    isqrt_s(v.x * v.x + v.y * v.y + v.z * v.z)
}

/// Normalisation: each component divided by the length.
pub open spec fn v3s_norm(v: V3s) -> V3s
    recommends
        v3s_len(v) > 0,
{
    let l = v3s_len(v);
    V3s { x: fx_div_s(v.x, l), y: fx_div_s(v.y, l), z: fx_div_s(v.z, l) }
}

/// Component-wise vector addition.
pub fn v3_add(a: V3, b: V3) -> (r: V3)
    requires
        abs_i(a@.x) + abs_i(b@.x) <= FX_LIMIT,
        abs_i(a@.y) + abs_i(b@.y) <= FX_LIMIT,
        abs_i(a@.z) + abs_i(b@.z) <= FX_LIMIT,
    ensures
        r@ == v3s_add(a@, b@),
{
    V3 { x: a.x + b.x, y: a.y + b.y, z: a.z + b.z }
}

/// Component-wise vector subtraction.
pub fn v3_sub(a: V3, b: V3) -> (r: V3)
    requires
        abs_i(a@.x) + abs_i(b@.x) <= FX_LIMIT,
        abs_i(a@.y) + abs_i(b@.y) <= FX_LIMIT,
        abs_i(a@.z) + abs_i(b@.z) <= FX_LIMIT,
    ensures
        r@ == v3s_sub(a@, b@),
{
    V3 { x: a.x - b.x, y: a.y - b.y, z: a.z - b.z }
}

/// Scale a unit-bounded vector by a fixed-point factor.
pub fn v3_scale_unit(d: i64, v: V3) -> (r: V3)
    requires
        v3s_bounded(v@, FX_ONE as int),
        -FX_LIMIT <= d <= FX_LIMIT,
    ensures
        r@ == v3s_scale(d as int, v@),
        v3s_bounded(r@, abs_i(d as int)),
{
    V3 {
        x: fx_mul_unit(d, v.x),
        y: fx_mul_unit(d, v.y),
        z: fx_mul_unit(d, v.z),
    }
}

/// Dot product of a bounded vector with a unit-bounded one.
pub fn v3_dot_unit(a: V3, n: V3) -> (r: i64)
    requires
        v3s_bounded(a@, 0x2000_0000_0000_0000),
        v3s_bounded(n@, FX_ONE as int),
    ensures
        r == v3s_dot(a@, n@),
        -(abs_i(a@.x) + abs_i(a@.y) + abs_i(a@.z)) <= r <= abs_i(a@.x) + abs_i(a@.y) + abs_i(
        a@.z),
{
    fx_mul_unit(a.x, n.x) + fx_mul_unit(a.y, n.y) + fx_mul_unit(a.z, n.z)
}

/// Euclidean length of a vector.
pub fn v3_len(v: V3) -> (r: i64)
    requires
        v3s_bounded(v@, 0x4000_0000_0000_0000),
    ensures
        r == v3s_len(v@),
        0 <= r,
        abs_i(v@.x) <= r,
        abs_i(v@.y) <= r,
        abs_i(v@.z) <= r,
        r <= abs_i(v@.x) + abs_i(v@.y) + abs_i(v@.z),
{
    let mx: u64 = if v.x < 0 {
        (-v.x) as u64
    } else {
        v.x as u64
    };
    let my: u64 = if v.y < 0 {
        (-v.y) as u64
    } else {
        v.y as u64
    };
    let mz: u64 = if v.z < 0 {
        (-v.z) as u64
    } else {
        v.z as u64
    };
    proof {
        lemma_square_mag(v@.x, mx as int);
        lemma_square_mag(v@.y, my as int);
        lemma_square_mag(v@.z, mz as int);
    }
    let s: u128 = (mx as u128) * (mx as u128) + (my as u128) * (my as u128) + (mz as u128) * (
    mz as u128);
    let r = isqrt_u128(s);
    proof {
        let n = s as int;
        lemma_isqrt_s_props(n);
        lemma_comp_le_sqrt(v@.x, n, r as int);
        lemma_comp_le_sqrt(v@.y, n, r as int);
        lemma_comp_le_sqrt(v@.z, n, r as int);
        assert(r as int <= 0x7fff_ffff_ffff_ffff) by (nonlinear_arith)
            requires
                0 <= r as int,
                r as int * r as int <= n,
                n <= 3 * (0x4000_0000_0000_0000 * 0x4000_0000_0000_0000),
        ;
        lemma_len_le_mag_sum(v@.x, v@.y, v@.z, n, r as int);
    }
    r as i64
}

proof fn lemma_square_mag(a: int, m: int)
    by (nonlinear_arith)
    requires
        m == abs_i(a),
        -0x4000_0000_0000_0000 <= a <= 0x4000_0000_0000_0000,
    ensures
        m * m == a * a,
        a * a <= 0x4000_0000_0000_0000 * 0x4000_0000_0000_0000,
        0 <= a * a,
{
}

proof fn lemma_len_le_mag_sum(x: int, y: int, z: int, n: int, r: int)
    by (nonlinear_arith)
    requires
        n == x * x + y * y + z * z,
        0 <= r,
        r * r <= n,
    ensures
        r <= abs_i(x) + abs_i(y) + abs_i(z),
{
}

proof fn lemma_comp_le_sqrt(a: int, n: int, r: int)
    by (nonlinear_arith)
    requires
        a * a <= n,
        0 <= r,
        n < (r + 1) * (r + 1),
    ensures
        abs_i(a) <= r,
{
}

/// The squared bit-norm of a vector: `2^64` times its squared real length.
pub open spec fn v3s_norm_sq(v: V3s) -> int {
    v.x * v.x + v.y * v.y + v.z * v.z
}

proof fn lemma_sum_scale(a: int, b: int, c: int, d: int)
    by (nonlinear_arith)
    ensures
        (a + b + c) * d == a * d + b * d + c * d,
{
}

proof fn lemma_abs_div_mag(x: int, l: int)
    requires
        0 < l,
    ensures
        abs_i(fx_div_s(x, l)) == (abs_i(x) * FX_ONE) / l,
{
    assert(abs_i(x) * FX_ONE == abs_i(x * FX_ONE)) by (nonlinear_arith);
    let n = x * FX_ONE;
    if n >= 0 {
        vstd::arithmetic::div_mod::lemma_div_pos_is_pos(n, l);
    } else {
        vstd::arithmetic::div_mod::lemma_div_pos_is_pos(-n, l);
    }
}

proof fn lemma_div_window(m: int, l: int)
    requires
        0 <= m,
        0 < l,
    ensures
        (m / l) * l <= m,
        m < (m / l) * l + l,
{
    vstd::arithmetic::div_mod::lemma_fundamental_div_mod(m, l);
    vstd::arithmetic::div_mod::lemma_mod_bound(m, l);
    assert((m / l) * l == l * (m / l)) by (nonlinear_arith);
}

proof fn lemma_nonneg_div_sq(mx: int, l: int, mq: int)
    requires
        0 < l,
        0 <= mx,
        0 <= mq,
        mq * l <= mx * FX_ONE,
        mx * FX_ONE < mq * l + l,
    ensures
        (mq * mq) * (l * l) <= (mx * mx) * (FX_ONE * FX_ONE),
        (mq * mq) * (l * l) >= (mx * mx) * (FX_ONE * FX_ONE) - 2 * FX_ONE * (mx * l),
{
    assert((mq * mq) * (l * l) <= (mx * mx) * (FX_ONE * FX_ONE)) by (nonlinear_arith)
        requires
            0 <= mq,
            0 < l,
            0 <= mx,
            mq * l <= mx * FX_ONE,
    ;
    if mx * FX_ONE >= l {
        assert((mq * mq) * (l * l) >= (mx * mx) * (FX_ONE * FX_ONE) - 2 * FX_ONE * (mx * l))
            by (nonlinear_arith)
            requires
                0 < l,
                0 <= mx,
                0 <= mq,
                mx * FX_ONE - l >= 0,
                mx * FX_ONE - l < mq * l,
        ;
    } else {
        assert((mq * mq) * (l * l) >= (mx * mx) * (FX_ONE * FX_ONE) - 2 * FX_ONE * (mx * l))
            by (nonlinear_arith)
            requires
                0 < l,
                0 <= mx,
                0 <= mq,
                mx * FX_ONE < l,
        ;
    }
}

proof fn lemma_comp_near(x: int, l: int)
    requires
        0 < l,
        -l <= x <= l,
    ensures
        (fx_div_s(x, l) * fx_div_s(x, l)) * (l * l) <= (x * x) * (FX_ONE * FX_ONE),
        (fx_div_s(x, l) * fx_div_s(x, l)) * (l * l) >= (x * x) * (FX_ONE * FX_ONE) - 2 * FX_ONE
            * (abs_i(x) * l),
{
    let q = fx_div_s(x, l);
    let mx = abs_i(x);
    let mq = abs_i(q);
    lemma_abs_div_mag(x, l);
    assert(mx * FX_ONE >= 0) by (nonlinear_arith)
        requires
            0 <= mx,
    ;
    lemma_div_window(mx * FX_ONE, l);
    lemma_nonneg_div_sq(mx, l, mq);
    assert(q * q == mq * mq) by (nonlinear_arith)
        requires
            mq == abs_i(q),
    ;
    assert(x * x == mx * mx) by (nonlinear_arith)
        requires
            mx == abs_i(x),
    ;
}

/// LAW: a vector of at least unit length normalises to a vector whose
/// squared bit-norm deviates from exactly one by only a few units in the
/// last place: truncation loses at most `6 * FX_ONE` downward and
/// `2 * FX_ONE` upward out of `FX_ONE * FX_ONE`.
pub proof fn lemma_norm_near_unit(v: V3s)
    requires
        v3s_len(v) >= FX_ONE,
    ensures
        v3s_norm_sq(v3s_norm(v)) <= FX_ONE * FX_ONE + 2 * FX_ONE,
        v3s_norm_sq(v3s_norm(v)) >= FX_ONE * FX_ONE - 6 * FX_ONE,
{
    let l = v3s_len(v);
    let s = v3s_norm_sq(v);
    assert(0 <= v.x * v.x && 0 <= v.y * v.y && 0 <= v.z * v.z) by (nonlinear_arith);
    lemma_isqrt_s_props(s);
    let n = v3s_norm(v);
    let q2 = v3s_norm_sq(n);
    assert(abs_i(v.x) <= l && abs_i(v.y) <= l && abs_i(v.z) <= l) by (nonlinear_arith)
        requires
            0 <= l,
            v.x * v.x + v.y * v.y + v.z * v.z < (l + 1) * (l + 1),
            0 <= v.x * v.x,
            0 <= v.y * v.y,
            0 <= v.z * v.z,
    ;
    lemma_comp_near(v.x, l);
    lemma_comp_near(v.y, l);
    lemma_comp_near(v.z, l);
    lemma_sum_scale(n.x * n.x, n.y * n.y, n.z * n.z, l * l);
    lemma_sum_scale(v.x * v.x, v.y * v.y, v.z * v.z, FX_ONE * FX_ONE);
    assert(q2 * (l * l) == (n.x * n.x) * (l * l) + (n.y * n.y) * (l * l) + (n.z * n.z) * (l
        * l));
    assert(s * (FX_ONE * FX_ONE) == (v.x * v.x) * (FX_ONE * FX_ONE) + (v.y * v.y) * (FX_ONE
        * FX_ONE) + (v.z * v.z) * (FX_ONE * FX_ONE));
    assert(n.x == fx_div_s(v.x, l) && n.y == fx_div_s(v.y, l) && n.z == fx_div_s(v.z, l));
    // summed component bounds
    assert(q2 * (l * l) <= s * (FX_ONE * FX_ONE));
    assert(q2 * (l * l) >= s * (FX_ONE * FX_ONE) - 2 * FX_ONE * (abs_i(v.x) * l) - 2 * FX_ONE * (
    abs_i(v.y) * l) - 2 * FX_ONE * (abs_i(v.z) * l));
    // upper: s < (l+1)^2 and FX_ONE <= l give q2 strictly under (FX_ONE+1)^2
    assert(s * (FX_ONE * FX_ONE) < ((FX_ONE + 1) * (FX_ONE + 1)) * (l * l)) by (nonlinear_arith)
        requires
            s < (l + 1) * (l + 1),
            FX_ONE <= l,
    ;
    assert(q2 <= FX_ONE * FX_ONE + 2 * FX_ONE) by (nonlinear_arith)
        requires
            q2 * (l * l) < ((FX_ONE + 1) * (FX_ONE + 1)) * (l * l),
            0 < l,
    ;
    // lower: each |component| * l is at most l^2, and s is at least l^2
    assert(abs_i(v.x) * l <= l * l && abs_i(v.y) * l <= l * l && abs_i(v.z) * l <= l * l)
        by (nonlinear_arith)
        requires
            0 < l,
            abs_i(v.x) <= l,
            abs_i(v.y) <= l,
            abs_i(v.z) <= l,
            0 <= abs_i(v.x),
            0 <= abs_i(v.y),
            0 <= abs_i(v.z),
    ;
    assert(s * (FX_ONE * FX_ONE) >= (l * l) * (FX_ONE * FX_ONE)) by (nonlinear_arith)
        requires
            l * l <= s,
    ;
    assert(q2 * (l * l) >= (FX_ONE * FX_ONE - 6 * FX_ONE) * (l * l)) by (nonlinear_arith)
        requires
            q2 * (l * l) >= s * (FX_ONE * FX_ONE) - 2 * FX_ONE * (abs_i(v.x) * l) - 2 * FX_ONE * (
            abs_i(v.y) * l) - 2 * FX_ONE * (abs_i(v.z) * l),
            s * (FX_ONE * FX_ONE) >= (l * l) * (FX_ONE * FX_ONE),
            abs_i(v.x) * l <= l * l,
            abs_i(v.y) * l <= l * l,
            abs_i(v.z) * l <= l * l,
    ;
    assert(q2 >= FX_ONE * FX_ONE - 6 * FX_ONE) by (nonlinear_arith)
        requires
            q2 * (l * l) >= (FX_ONE * FX_ONE - 6 * FX_ONE) * (l * l),
            0 < l,
    ;
}

proof fn lemma_tdiv_rem(a: int, d: int)
    requires
        0 < d,
    ensures
        abs_i(a - d * tdiv(a, d)) <= d - 1,
{
    if a >= 0 {
        vstd::arithmetic::div_mod::lemma_fundamental_div_mod(a, d);
        vstd::arithmetic::div_mod::lemma_mod_bound(a, d);
        assert(a - d * tdiv(a, d) == a % d);
    } else {
        let m = -a;
        vstd::arithmetic::div_mod::lemma_fundamental_div_mod(m, d);
        vstd::arithmetic::div_mod::lemma_mod_bound(m, d);
        assert(tdiv(a, d) == -(m / d));
        assert(d * tdiv(a, d) == -(d * (m / d))) by (nonlinear_arith)
            requires
                tdiv(a, d) == -(m / d),
        ;
        assert(a - d * tdiv(a, d) == -(m % d));
    }
}

proof fn lemma_abs_prod_le(s: int, n: int, m: int)
    by (nonlinear_arith)
    requires
        abs_i(s) <= m,
        -FX_ONE <= n <= FX_ONE,
        0 <= m,
    ensures
        abs_i(s * n) <= m * FX_ONE,
{
}

/// LAW: projecting out the normal component really removes it, up to
/// truncation.  For a normal `n` whose squared bit-norm is within the
/// window that [`lemma_norm_near_unit`] guarantees, the fixed-point dot
/// product of `raw - (raw . n) * n` with `n` is bounded by a few units
/// plus `2^-29` of the removed component.
#[verifier::rlimit(100)]
pub proof fn lemma_retangent_orthogonal(raw: V3s, n: V3s)
    requires
        v3s_bounded(n, FX_ONE as int),
        FX_ONE * FX_ONE - 6 * FX_ONE <= v3s_norm_sq(n) <= FX_ONE * FX_ONE + 2 * FX_ONE,
    ensures
        ({
            let dt = v3s_dot(raw, n);
            let t = v3s_sub(raw, v3s_scale(dt, n));
            FX_ONE * abs_i(v3s_dot(t, n)) <= 6 * abs_i(dt) + 9 * FX_ONE
        }),
{
    let s0 = FX_ONE as int;
    let dt = v3s_dot(raw, n);
    let u = v3s_scale(dt, n);
    let t = v3s_sub(raw, u);
    let n2 = v3s_norm_sq(n);
    let q = v3s_dot(t, n);
    // truncation residues of the three layers of fixed-point products
    let tau1 = raw.x * n.x - s0 * tdiv(raw.x * n.x, s0);
    let tau2 = raw.y * n.y - s0 * tdiv(raw.y * n.y, s0);
    let tau3 = raw.z * n.z - s0 * tdiv(raw.z * n.z, s0);
    let sg1 = dt * n.x - s0 * u.x;
    let sg2 = dt * n.y - s0 * u.y;
    let sg3 = dt * n.z - s0 * u.z;
    let rho1 = t.x * n.x - s0 * tdiv(t.x * n.x, s0);
    let rho2 = t.y * n.y - s0 * tdiv(t.y * n.y, s0);
    let rho3 = t.z * n.z - s0 * tdiv(t.z * n.z, s0);
    lemma_tdiv_rem(raw.x * n.x, s0);
    lemma_tdiv_rem(raw.y * n.y, s0);
    lemma_tdiv_rem(raw.z * n.z, s0);
    lemma_tdiv_rem(dt * n.x, s0);
    lemma_tdiv_rem(dt * n.y, s0);
    lemma_tdiv_rem(dt * n.z, s0);
    lemma_tdiv_rem(t.x * n.x, s0);
    lemma_tdiv_rem(t.y * n.y, s0);
    lemma_tdiv_rem(t.z * n.z, s0);
    // the dot with the projected-out component, one component at a time:
    // s0^2 * q_i = s0 * raw_i * n_i - dt * n_i^2 + sg_i * n_i - s0 * rho_i
    assert(s0 * (s0 * tdiv(t.x * n.x, s0)) == s0 * (raw.x * n.x) - dt * (n.x * n.x) + sg1 * n.x
        - s0 * rho1) by (nonlinear_arith)
        requires
            s0 * tdiv(t.x * n.x, s0) == t.x * n.x - rho1,
            s0 * u.x == dt * n.x - sg1,
            t.x == raw.x - u.x,
    ;
    assert(s0 * (s0 * tdiv(t.y * n.y, s0)) == s0 * (raw.y * n.y) - dt * (n.y * n.y) + sg2 * n.y
        - s0 * rho2) by (nonlinear_arith)
        requires
            s0 * tdiv(t.y * n.y, s0) == t.y * n.y - rho2,
            s0 * u.y == dt * n.y - sg2,
            t.y == raw.y - u.y,
    ;
    assert(s0 * (s0 * tdiv(t.z * n.z, s0)) == s0 * (raw.z * n.z) - dt * (n.z * n.z) + sg3 * n.z
        - s0 * rho3) by (nonlinear_arith)
        requires
            s0 * tdiv(t.z * n.z, s0) == t.z * n.z - rho3,
            s0 * u.z == dt * n.z - sg3,
            t.z == raw.z - u.z,
    ;
    // fold the component sums: dt ties the raw products together, n2 the
    // squared normal components
    assert(dt * (n.x * n.x) + dt * (n.y * n.y) + dt * (n.z * n.z) == dt * n2) by (nonlinear_arith)
        requires
            n2 == n.x * n.x + n.y * n.y + n.z * n.z,
    ;
    assert(s0 * s0 * q == s0 * s0 * dt - dt * n2 + s0 * (tau1 + tau2 + tau3) + (sg1 * n.x + sg2
        * n.y + sg3 * n.z) - s0 * (rho1 + rho2 + rho3));
    // bound every residue term
    assert(abs_i(dt * n2 - s0 * s0 * dt) <= 6 * s0 * abs_i(dt)) by (nonlinear_arith)
        requires
            s0 == FX_ONE as int,
            FX_ONE * FX_ONE - 6 * FX_ONE <= n2 <= FX_ONE * FX_ONE + 2 * FX_ONE,
    ;
    lemma_abs_prod_le(sg1, n.x, s0 - 1);
    lemma_abs_prod_le(sg2, n.y, s0 - 1);
    lemma_abs_prod_le(sg3, n.z, s0 - 1);
    assert(abs_i(s0 * s0 * q) <= 6 * s0 * abs_i(dt) + 9 * (s0 * s0));
    assert(abs_i(s0 * s0 * q) == s0 * s0 * abs_i(q)) by (nonlinear_arith)
        requires
            s0 == FX_ONE as int,
    ;
    assert(FX_ONE * abs_i(q) <= 6 * abs_i(dt) + 9 * FX_ONE) by (nonlinear_arith)
        requires
            s0 * s0 * abs_i(q) <= 6 * s0 * abs_i(dt) + 9 * (s0 * s0),
            s0 == FX_ONE as int,
    ;
}

/// The normalisation of any vector is unit-bounded, component by
/// component.
pub proof fn lemma_norm_unit_bounded(v: V3s)
    requires
        v3s_len(v) > 0,
    ensures
        v3s_bounded(v3s_norm(v), FX_ONE as int),
{
    let l = v3s_len(v);
    let s = v.x * v.x + v.y * v.y + v.z * v.z;
    assert(0 <= v.x * v.x && 0 <= v.y * v.y && 0 <= v.z * v.z) by (nonlinear_arith);
    lemma_isqrt_s_props(s);
    assert(abs_i(v.x) <= l && abs_i(v.y) <= l && abs_i(v.z) <= l) by (nonlinear_arith)
        requires
            0 <= l,
            v.x * v.x + v.y * v.y + v.z * v.z < (l + 1) * (l + 1),
            0 <= v.x * v.x,
            0 <= v.y * v.y,
            0 <= v.z * v.z,
    ;
    lemma_norm_comp_bounded(v.x, l);
    lemma_norm_comp_bounded(v.y, l);
    lemma_norm_comp_bounded(v.z, l);
}

proof fn lemma_norm_comp_bounded(x: int, l: int)
    requires
        0 < l,
        -l <= x <= l,
    ensures
        -FX_ONE <= fx_div_s(x, l) <= FX_ONE,
{
    lemma_abs_div_mag(x, l);
    assert(abs_i(x) * FX_ONE <= l * FX_ONE) by (nonlinear_arith)
        requires
            abs_i(x) <= l,
    ;
    vstd::arithmetic::div_mod::lemma_div_is_ordered(abs_i(x) * FX_ONE, l * FX_ONE, l);
    vstd::arithmetic::div_mod::lemma_div_multiples_vanish(FX_ONE as int, l);
}

/// Normalise a vector to unit length; `None` exactly when it is zero.
pub fn v3_normalize(v: V3) -> (r: Option<V3>)
    requires
        v3s_bounded(v@, 0x4000_0000_0000_0000),
    ensures
        match r {
            Some(n) => {
                &&& v3s_len(v@) > 0
                &&& n@ == v3s_norm(v@)
                &&& v3s_bounded(n@, FX_ONE as int)
            },
            None => v3s_len(v@) == 0,
        },
{
    let l = v3_len(v);
    if l == 0 {
        None
    } else {
        Some(
            V3 {
                x: fx_div_le(v.x, l),
                y: fx_div_le(v.y, l),
                z: fx_div_le(v.z, l),
            },
        )
    }
}

} // verus!
