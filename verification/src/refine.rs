//! Adaptive step refinement and the per-pixel forward driver.
//!
//! When no trustworthy integration step length is known a priori, the
//! projection is repeated with the target step halved each round until two
//! consecutive outputs agree within a tolerance, with a hard cap on the
//! number of rounds.

use vstd::prelude::*;
use crate::fx::FX_ONE;
use crate::fx::FX_PI;
use crate::fx::FX_TAU;
use crate::fx::tdiv;
use crate::geom::TorusShape;
use crate::geom::TorusError;
use crate::geom::AngularCoord;
use crate::geom::AngS;
use crate::integrate::STEP_LIMIT;
use crate::project::PlanarOffset;
use crate::project::OffS;
use crate::project::OFFSET_LIMIT;
use crate::project::project_s;
use crate::project::project;

verus! {

/// Largest raster dimension (pixels per side) the drivers accept.
pub const MAX_DIM: u32 = 8192;

/// Largest pixel-to-arc-length scale factor, Q32.32.
pub const SCALE_LIMIT: i64 = 0x80_0000_0000;

/// How the step refiner searches: the first target step length, the
/// squared-distance tolerance on consecutive outputs, and the cap on the
/// number of halving rounds, after which refinement reports failure.
#[derive(Clone, Copy, Debug, PartialEq, Eq, Structural)]
pub struct RefineConfig {
    pub initial_step: i64,
    pub tolerance: i64,
    pub max_rounds: u32,
}

impl RefineConfig {
    pub open spec fn wf(self) -> bool {
        &&& 1 <= self.initial_step <= STEP_LIMIT
        &&& 0 <= self.tolerance <= FX_TAU
        &&& 1 <= self.max_rounds <= 64
    }
}

/// Squared planar distance between two angular coordinates.
pub open spec fn dist2_s(a: AngS, b: AngS) -> int {
    (a.theta - b.theta) * (a.theta - b.theta) + (a.phi - b.phi) * (a.phi - b.phi)
}

/// Half the step, but never below one representable unit.
pub open spec fn half_step_s(s: int) -> int {
    if s / 2 < 1 {
        1
    } else {
        s / 2
    }
}

/// What the refinement loop returns once a first output `last` at step
/// `stp` is in hand and `left` halving rounds remain.
pub open spec fn refine_from_s(
    shape: TorusShape,
    c: AngS,
    off: OffS,
    tol: int,
    stp: int,
    last: AngS,
    left: nat,
) -> Result<AngS, TorusError>
    decreases left,
{
    if left == 0 {
        Err(TorusError::NonConvergence)
    } else {
        let s2 = half_step_s(stp);
        match project_s(shape, c, off, s2) {
            Err(e) => Err(e),
            Ok(v) => {
                if dist2_s(v, last) < tol * tol {
                    Ok(v)
                } else {
                    refine_from_s(shape, c, off, tol, s2, v, (left - 1) as nat)
                }
            },
        }
    }
}

/// What `refine_project` returns: the first projection seeds the loop,
/// then the step is halved until two consecutive outputs agree.
pub open spec fn refine_s(shape: TorusShape, c: AngS, off: OffS, cfg: RefineConfig) -> Result<
    AngS,
    TorusError,
> {
    match project_s(shape, c, off, cfg.initial_step as int) {
        Err(e) => Err(e),
        Ok(v0) => refine_from_s(
            shape,
            c,
            off,
            cfg.tolerance as int,
            cfg.initial_step as int,
            v0,
            cfg.max_rounds as nat,
        ),
    }
}

/// Project `off` from `center`, halving the target step until consecutive
/// outputs differ by less than the tolerance; fails with
/// [`TorusError::NonConvergence`] when `cfg.max_rounds` halvings do not
/// stabilise the output.
pub fn refine_project(
    shape: TorusShape,
    center: AngularCoord,
    off: PlanarOffset,
    cfg: RefineConfig,
) -> (r: Result<AngularCoord, TorusError>)
    requires
        shape.wf(),
        cfg.wf(),
        -FX_PI <= center.theta <= FX_PI,
        -FX_PI <= center.phi <= FX_PI,
        -OFFSET_LIMIT <= off.dtheta <= OFFSET_LIMIT,
        -OFFSET_LIMIT <= off.dphi <= OFFSET_LIMIT,
    ensures
        match r {
            Ok(a) => {
                &&& refine_s(shape, center@, off@, cfg) == Ok::<AngS, TorusError>(a@)
                &&& -FX_PI <= a.theta <= FX_PI
                &&& -FX_PI <= a.phi <= FX_PI
            },
            Err(e) => refine_s(shape, center@, off@, cfg) == Err::<AngS, TorusError>(e),
        },
{
    let mut stp: i64 = cfg.initial_step;
    let mut last: AngularCoord = match project(shape, center, off, stp) {
        Ok(v) => v,
        Err(e) => {
            return Err(e);
        },
    };
    let ghost goal: Result<AngS, TorusError> = refine_s(shape, center@, off@, cfg);
    let mut k: u32 = 0;
    while k < cfg.max_rounds
        invariant
            shape.wf(),
            cfg.wf(),
            -FX_PI <= center.theta <= FX_PI,
            -FX_PI <= center.phi <= FX_PI,
            -OFFSET_LIMIT <= off.dtheta <= OFFSET_LIMIT,
            -OFFSET_LIMIT <= off.dphi <= OFFSET_LIMIT,
            0 <= k <= cfg.max_rounds,
            1 <= stp <= STEP_LIMIT,
            -FX_PI <= last.theta <= FX_PI,
            -FX_PI <= last.phi <= FX_PI,
            goal == refine_s(shape, center@, off@, cfg),
            goal == refine_from_s(
                shape,
                center@,
                off@,
                cfg.tolerance as int,
                stp as int,
                last@,
                (cfg.max_rounds - k) as nat,
            ),
        decreases cfg.max_rounds - k,
    {
        let s2: i64 = if stp / 2 < 1 {
            1
        } else {
            stp / 2
        };
        let v = match project(shape, center, off, s2) {
            Ok(v) => v,
            Err(e) => {
                return Err(e);
            },
        };
        let da: i128 = (v.theta as i128) - (last.theta as i128);
        let db: i128 = (v.phi as i128) - (last.phi as i128);
        proof {
            lemma_sq_bound(da as int, 2 * FX_PI);
            lemma_sq_bound(db as int, 2 * FX_PI);
            lemma_sq_bound(cfg.tolerance as int, FX_TAU as int);
        }
        let d2: i128 = da * da + db * db;
        let t2: i128 = (cfg.tolerance as i128) * (cfg.tolerance as i128);
        if d2 < t2 {
            return Ok(v);
        }
        stp = s2;
        last = v;
        k = k + 1;
    }
    Err(TorusError::NonConvergence)
}

/// The planar offset of an output pixel from the raster centre: pixel
/// displacement times the scale factor, per axis.
pub open spec fn offset_for_pixel_s(out_w: int, out_h: int, scale: int, x: int, y: int) -> OffS {
    OffS { dtheta: (x - out_w / 2) * scale, dphi: (y - out_h / 2) * scale }
}

/// Compute the planar offset of output pixel `(x, y)`.
pub fn offset_for_pixel(out_w: u32, out_h: u32, scale: i64, x: u32, y: u32) -> (r: PlanarOffset)
    requires
        0 < out_w <= MAX_DIM,
        0 < out_h <= MAX_DIM,
        x < out_w,
        y < out_h,
        1 <= scale <= SCALE_LIMIT,
    ensures
        r@ == offset_for_pixel_s(out_w as int, out_h as int, scale as int, x as int, y as int),
        -OFFSET_LIMIT <= r.dtheta <= OFFSET_LIMIT,
        -OFFSET_LIMIT <= r.dphi <= OFFSET_LIMIT,
{
    let xi: i64 = (x as i64) - ((out_w / 2) as i64);
    let yi: i64 = (y as i64) - ((out_h / 2) as i64);
    proof {
        lemma_small_prod(xi as int, scale as int);
        lemma_small_prod(yi as int, scale as int);
    }
    PlanarOffset { dtheta: xi * scale, dphi: yi * scale }
}

proof fn lemma_small_prod(a: int, s: int)
    by (nonlinear_arith)
    requires
        -0x2000 <= a <= 0x2000,
        1 <= s <= 0x80_0000_0000,
    ensures
        -0x10_0000_0000_0000 <= a * s <= 0x10_0000_0000_0000,
{
}

/// The source-raster coordinate of an angular value: the angle shifted by
/// a half turn, as a fraction of the full turn, scaled over `dim - 1`
/// texels, Q32.32.
pub open spec fn angle_to_source_s(a: int, dim: int) -> int {
    tdiv((a + FX_PI) * ((dim - 1) * FX_ONE), FX_TAU as int)
}

/// Map an angular coordinate to fixed-point source-raster coordinates.
pub fn angle_to_source(a: AngularCoord, src_w: u32, src_h: u32) -> (r: (i64, i64))
    requires
        0 < src_w <= MAX_DIM,
        0 < src_h <= MAX_DIM,
        -FX_PI <= a.theta <= FX_PI,
        -FX_PI <= a.phi <= FX_PI,
    ensures
        r.0 == angle_to_source_s(a.theta as int, src_w as int),
        r.1 == angle_to_source_s(a.phi as int, src_h as int),
        0 <= r.0 <= (src_w - 1) * FX_ONE,
        0 <= r.1 <= (src_h - 1) * FX_ONE,
{
    let bx: i64 = ((src_w - 1) as i64) * FX_ONE;
    let by: i64 = ((src_h - 1) as i64) * FX_ONE;
    let sx = crate::fx::mul_div(a.theta + FX_PI, bx, FX_TAU);
    let sy = crate::fx::mul_div(a.phi + FX_PI, by, FX_TAU);
    proof {
        lemma_tdiv_nonneg((a.theta + FX_PI) * (bx as int), FX_TAU as int);
        lemma_tdiv_nonneg((a.phi + FX_PI) * (by as int), FX_TAU as int);
        lemma_prod_nonneg(a.theta + FX_PI, bx as int);
        lemma_prod_nonneg(a.phi + FX_PI, by as int);
    }
    (sx, sy)
}

proof fn lemma_prod_nonneg(a: int, b: int)
    by (nonlinear_arith)
    requires
        0 <= a,
        0 <= b,
    ensures
        0 <= a * b,
{
}

proof fn lemma_sq_bound(a: int, m: int)
    by (nonlinear_arith)
    requires
        -m <= a <= m,
        0 <= m,
    ensures
        0 <= a * a <= m * m,
{
}

proof fn lemma_tdiv_nonneg(n: int, d: int)
    requires
        0 < d,
    ensures
        0 <= n ==> 0 <= tdiv(n, d),
{
    if 0 <= n {
        vstd::arithmetic::div_mod::lemma_div_pos_is_pos(n, d);
    }
}

/// What `pixel_for` returns: the refined projection of the pixel's planar
/// offset, mapped into source-raster coordinates.
pub open spec fn pixel_for_s(
    shape: TorusShape,
    cfg: RefineConfig,
    c: AngS,
    scale: int,
    out_w: int,
    out_h: int,
    src_w: int,
    src_h: int,
    x: int,
    y: int,
) -> Result<(int, int), TorusError> {
    match refine_s(shape, c, offset_for_pixel_s(out_w, out_h, scale, x, y), cfg) {
        Err(e) => Err(e),
        Ok(a) => Ok(
            (angle_to_source_s(a.theta, src_w), angle_to_source_s(a.phi, src_h)),
        ),
    }
}

/// Forward-project one output pixel: refine the projection of its planar
/// offset from `center` and map the reached angle to fixed-point source
/// coordinates.
pub fn pixel_for(
    shape: TorusShape,
    cfg: RefineConfig,
    center: AngularCoord,
    scale: i64,
    out_w: u32,
    out_h: u32,
    src_w: u32,
    src_h: u32,
    x: u32,
    y: u32,
) -> (r: Result<(i64, i64), TorusError>)
    requires
        shape.wf(),
        cfg.wf(),
        -FX_PI <= center.theta <= FX_PI,
        -FX_PI <= center.phi <= FX_PI,
        1 <= scale <= SCALE_LIMIT,
        0 < out_w <= MAX_DIM,
        0 < out_h <= MAX_DIM,
        0 < src_w <= MAX_DIM,
        0 < src_h <= MAX_DIM,
        x < out_w,
        y < out_h,
    ensures
        match r {
            Ok((sx, sy)) => {
                &&& pixel_for_s(
                    shape,
                    cfg,
                    center@,
                    scale as int,
                    out_w as int,
                    out_h as int,
                    src_w as int,
                    src_h as int,
                    x as int,
                    y as int,
                ) == Ok::<(int, int), TorusError>((sx as int, sy as int))
                &&& 0 <= sx <= (src_w - 1) * FX_ONE
                &&& 0 <= sy <= (src_h - 1) * FX_ONE
            },
            Err(e) => pixel_for_s(
                shape,
                cfg,
                center@,
                scale as int,
                out_w as int,
                out_h as int,
                src_w as int,
                src_h as int,
                x as int,
                y as int,
            ) == Err::<(int, int), TorusError>(e),
        },
{
    let off = offset_for_pixel(out_w, out_h, scale, x, y);
    match refine_project(shape, center, off, cfg) {
        Err(e) => Err(e),
        Ok(a) => {
            let (sx, sy) = angle_to_source(a, src_w, src_h);
            Ok((sx, sy))
        },
    }
}

} // verus!
