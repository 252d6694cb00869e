//! The geodesic integrator: one predictor-corrector sub-step along the
//! torus surface.

use vstd::prelude::*;
use crate::fx::FX_ONE;
use crate::fx::abs_i;
use crate::fx::sat_to_s;
use crate::fx::sat_to;
use crate::geom::TorusShape;
use crate::geom::TorusError;
use crate::geom::surface_s;
use crate::geom::surface;
use crate::vec3::V3;
use crate::vec3::V3s;
use crate::vec3::v3s_bounded;
use crate::vec3::v3s_add;
use crate::vec3::v3s_sub;
use crate::vec3::v3s_scale;
use crate::vec3::v3s_dot;
use crate::vec3::v3s_len;
use crate::vec3::v3s_norm;
use crate::vec3::v3_add;
use crate::vec3::v3_sub;
use crate::vec3::v3_scale_unit;
use crate::vec3::v3_dot_unit;
use crate::vec3::v3_normalize;

verus! {

/// Largest sub-step length `step` accepts, Q32.32.
pub const STEP_LIMIT: i64 = 0x80_0000_0000_0000;

/// Cap on the carried curvature correction, Q32.32.
pub const CORR_LIMIT: i64 = 0x8_0000_0000_0000;

/// The state of a geodesic walk: a surface position, a unit tangent
/// direction, and the curvature residual of the previous sub-step (already
/// scaled by the squared step, so it is added in unscaled).
#[derive(Clone, Copy, Debug, PartialEq, Eq, Structural)]
pub struct TangentState {
    pub pos: V3,
    pub dir: V3,
    pub corr: V3,
}

/// The mathematical value of a [`TangentState`].
pub ghost struct StateS {
    pub pos: V3s,
    pub dir: V3s,
    pub corr: V3s,
}

impl View for TangentState {
    type V = StateS;

    open spec fn view(&self) -> StateS {
        StateS { pos: self.pos@, dir: self.dir@, corr: self.corr@ }
    }
}

/// Well-formed integrator state for a given torus: the position lies within
/// the surface bound, the direction is unit-bounded, and the correction is
/// within its cap.
pub open spec fn state_wf(shape: TorusShape, s: StateS) -> bool {
    &&& v3s_bounded(s.pos, shape.rmaj + shape.rmin)
    &&& v3s_bounded(s.dir, FX_ONE as int)
    &&& v3s_bounded(s.corr, CORR_LIMIT as int)
}

/// The predicted point: the position advanced along the tangent, plus the
/// carried correction.
pub open spec fn step_pred_s(s: StateS, d: int) -> V3s {
    v3s_add(v3s_add(s.pos, v3s_scale(d, s.dir)), s.corr)
}

/// The re-tangented displacement of a step: what the walk actually moved,
/// with its component along the surface normal projected out.  Zero when
/// the predicted point cannot be surfaced.
pub open spec fn step_tangent_s(shape: TorusShape, s: StateS, d: int) -> V3s {
    match surface_s(shape, step_pred_s(s, d)) {
        None => crate::vec3::v3s_zero(),
        Some((sp, n)) => {
            let raw = v3s_sub(sp, s.pos);
            v3s_sub(raw, v3s_scale(v3s_dot(raw, n), n))
        },
    }
}

/// What `step` returns: predict along the tangent, snap back to the
/// surface, remember the snap as the next correction, and re-tangent the
/// actual displacement by projecting out its normal component.
pub open spec fn step_s(shape: TorusShape, s: StateS, d: int) -> Option<StateS> {
    let pred = step_pred_s(s, d);
    match surface_s(shape, pred) {
        None => None,
        Some((sp, n)) => {
            let corr2 = V3s {
                x: sat_to_s(sp.x - pred.x, CORR_LIMIT as int),
                y: sat_to_s(sp.y - pred.y, CORR_LIMIT as int),
                z: sat_to_s(sp.z - pred.z, CORR_LIMIT as int),
            };
            let tangent = step_tangent_s(shape, s, d);
            if v3s_len(tangent) == 0 {
                None
            } else {
                Some(StateS { pos: sp, dir: v3s_norm(tangent), corr: corr2 })
            }
        },
    }
}

/// LAW: the displacement a step re-tangents is orthogonal to the surface
/// normal up to truncation.  Whenever the predicted point can be surfaced
/// and sits at least one unit away from the major circle, the fixed-point
/// dot product of the re-tangented displacement with the normal is at
/// most `2^-29` of the removed normal component plus a few units in the
/// last place.
pub proof fn lemma_step_tangent_orthogonal(shape: TorusShape, s: StateS, d: int)
    requires
        surface_s(shape, step_pred_s(s, d)) is Some,
        v3s_len(crate::geom::surf_delta_s(shape, step_pred_s(s, d))) >= FX_ONE,
    ensures
        ({
            let pred = step_pred_s(s, d);
            let n = v3s_norm(crate::geom::surf_delta_s(shape, pred));
            let raw = v3s_sub(crate::geom::surf_point_s(shape, pred), s.pos);
            FX_ONE * crate::fx::abs_i(v3s_dot(step_tangent_s(shape, s, d), n)) <= 6
                * crate::fx::abs_i(v3s_dot(raw, n)) + 9 * FX_ONE
        }),
{
    let pred = step_pred_s(s, d);
    let delta = crate::geom::surf_delta_s(shape, pred);
    crate::vec3::lemma_norm_near_unit(delta);
    crate::vec3::lemma_norm_unit_bounded(delta);
    let n = v3s_norm(delta);
    let raw = v3s_sub(crate::geom::surf_point_s(shape, pred), s.pos);
    crate::vec3::lemma_retangent_orthogonal(raw, n);
}

/// LAW: whenever a step succeeds and the displacement it re-tangents is at
/// least one unit long, the direction it returns is unit length up to a
/// few units in the last place: its squared bit-norm lies within
/// `[FX_ONE^2 - 6 * FX_ONE, FX_ONE^2 + 2 * FX_ONE]`, a relative deviation
/// of about `2^-29`.
pub proof fn lemma_step_dir_near_unit(shape: TorusShape, s: StateS, d: int, s2: StateS)
    requires
        step_s(shape, s, d) == Some(s2),
        v3s_len(step_tangent_s(shape, s, d)) >= FX_ONE,
    ensures
        crate::vec3::v3s_norm_sq(s2.dir) <= FX_ONE * FX_ONE + 2 * FX_ONE,
        crate::vec3::v3s_norm_sq(s2.dir) >= FX_ONE * FX_ONE - 6 * FX_ONE,
{
    crate::vec3::lemma_norm_near_unit(step_tangent_s(shape, s, d));
}

/// Advance the walk by one sub-step of length `d`.
///
/// Fails with [`TorusError::DegenerateGeometry`] exactly when the predicted
/// point cannot be projected onto the surface or the displacement loses its
/// tangential component entirely.
#[verifier::rlimit(80)]
pub fn step(shape: TorusShape, st: TangentState, d: i64) -> (r: Result<
    TangentState,
    TorusError,
>)
    requires
        shape.wf(),
        state_wf(shape, st@),
        0 <= d <= STEP_LIMIT,
    ensures
        match r {
            Ok(s2) => {
                &&& step_s(shape, st@, d as int) == Some(s2@)
                &&& state_wf(shape, s2@)
            },
            Err(e) => {
                &&& step_s(shape, st@, d as int) is None
                &&& e == TorusError::DegenerateGeometry
            },
        },
{
    let vd = v3_scale_unit(d, st.dir);
    let pred = v3_add(v3_add(st.pos, vd), st.corr);
    let (sp, n) = match surface(shape, pred) {
        Ok(sn) => sn,
        Err(e) => {
            return Err(e);
        },
    };
    let corr2 = V3 {
        x: sat_to(sp.x - pred.x, CORR_LIMIT),
        y: sat_to(sp.y - pred.y, CORR_LIMIT),
        z: sat_to(sp.z - pred.z, CORR_LIMIT),
    };
    let raw = v3_sub(sp, st.pos);
    let dt = v3_dot_unit(raw, n);
    let tangent = v3_sub(raw, v3_scale_unit(dt, n));
    match v3_normalize(tangent) {
        Some(dir2) => Ok(TangentState { pos: sp, dir: dir2, corr: corr2 }),
        None => Err(TorusError::DegenerateGeometry),
    }
}

} // verus!
