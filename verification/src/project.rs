//! The projector: build an initial tangent from a planar offset and walk
//! the geodesic integrator to a final angular coordinate.

use vstd::prelude::*;
use crate::fx::FX_ONE;
use crate::fx::FX_PI;
use crate::fx::fx_mul_s;
use crate::fx::sat_unit_s;
use crate::fx::sat_unit;
use crate::fx::fx_mul_unit;
use crate::trig::ANGLE_IN_LIMIT;
use crate::trig::sin_of;
use crate::trig::cos_of;
use crate::trig::sin;
use crate::trig::cos;
use crate::geom::TorusShape;
use crate::geom::TorusError;
use crate::geom::AngularCoord;
use crate::geom::AngS;
use crate::geom::angle_to_r3_s;
use crate::geom::angle_to_r3;
use crate::geom::r3_to_angular_s;
use crate::geom::r3_to_angular;
use crate::integrate::TangentState;
use crate::integrate::StateS;
use crate::integrate::state_wf;
use crate::integrate::step_s;
use crate::integrate::step;
use crate::integrate::STEP_LIMIT;
use crate::vec3::V3;
use crate::vec3::V3s;
use crate::vec3::v3s_zero;
use crate::vec3::v3s_add;
use crate::vec3::v3s_scale;
use crate::vec3::v3s_len;
use crate::vec3::v3s_norm;
use crate::vec3::v3_add;
use crate::vec3::v3_scale_unit;
use crate::vec3::v3_len;
use crate::vec3::v3_normalize;

verus! {

/// Largest planar-offset component magnitude `project` accepts, Q32.32.
pub const OFFSET_LIMIT: i64 = 0x10_0000_0000_0000;

/// Largest centre-angle magnitude `project` accepts, Q32.32.
pub const CENTER_LIMIT: i64 = 2 * crate::fx::FX_TAU;

/// A 2-D offset in the projection plane centred on a reference angular
/// coordinate, interpreted as arc-length components along the two angular
/// directions.
#[derive(Clone, Copy, Debug, PartialEq, Eq, Structural)]
pub struct PlanarOffset {
    pub dtheta: i64,
    pub dphi: i64,
}

/// The mathematical value of a [`PlanarOffset`].
pub ghost struct OffS {
    pub dtheta: int,
    pub dphi: int,
}

impl View for PlanarOffset {
    type V = OffS;

    open spec fn view(&self) -> OffS {
        OffS { dtheta: self.dtheta as int, dphi: self.dphi as int }
    }
}

/// The unit tangent that increases `theta`: purely circumferential,
/// independent of `phi` and of the radius.
pub open spec fn tangent_theta_s(a: AngS) -> V3s {
    V3s {
        x: sat_unit_s(sin_of(a.theta)),
        y: -sat_unit_s(cos_of(a.theta)),
        z: 0,
    }
}

/// The direction that increases `phi`, before normalisation.
pub open spec fn tangent_phi_raw_s(a: AngS) -> V3s {
    V3s {
        x: -fx_mul_s(sat_unit_s(sin_of(a.phi)), sat_unit_s(cos_of(a.theta))),
        y: -fx_mul_s(sat_unit_s(sin_of(a.phi)), sat_unit_s(sin_of(a.theta))),
        z: sat_unit_s(cos_of(a.phi)),
    }
}

/// The number of sub-steps for arc length `l` and target step length `t`:
/// `l / t` rounded to nearest, and at least one.
pub open spec fn steps_of_s(l: int, t: int) -> int
    recommends
        t > 0,
{
    let s = (l + t / 2) / t;
    if s < 1 {
        1
    } else {
        s
    }
}

/// The state after `n` sub-steps of length `d` from `s`, if every step
/// succeeded.
pub open spec fn walk_s(shape: TorusShape, s: StateS, d: int, n: nat) -> Option<StateS>
    decreases n,
{
    if n == 0 {
        Some(s)
    } else {
        match walk_s(shape, s, d, (n - 1) as nat) {
            None => None,
            Some(s2) => step_s(shape, s2, d),
        }
    }
}

/// Once a step fails, every longer walk fails.
proof fn lemma_walk_none(shape: TorusShape, s: StateS, d: int, i: nat, n: nat)
    requires
        i < n,
        match walk_s(shape, s, d, i) {
            Some(st) => step_s(shape, st, d) is None,
            None => true,
        },
    ensures
        walk_s(shape, s, d, n) is None,
    decreases n,
{
    if i + 1 < n {
        lemma_walk_none(shape, s, d, i, (n - 1) as nat);
    }
}

/// What `project` returns.
///
/// A zero offset (or one whose initial velocity rounds to zero) is the
/// identity: the centre itself, exactly.  Otherwise the initial velocity is
/// assembled in the tangent basis at the centre, its length is the arc
/// length to travel, and the walk applies `steps_of_s` integrator steps of
/// equal length before converting the final position back to angles.
pub open spec fn project_s(shape: TorusShape, c: AngS, off: OffS, target: int) -> Result<
    AngS,
    TorusError,
> {
    if off.dtheta == 0 && off.dphi == 0 {
        Ok(c)
    } else {
        let pr = tangent_phi_raw_s(c);
        if v3s_len(pr) == 0 {
            Err(TorusError::DegenerateGeometry)
        } else {
            let v = v3s_add(
                v3s_scale(off.dtheta, tangent_theta_s(c)),
                v3s_scale(off.dphi, v3s_norm(pr)),
            );
            let l = v3s_len(v);
            if l == 0 {
                Ok(c)
            } else {
                let steps = steps_of_s(l, target);
                let d = l / steps;
                let s0 = StateS {
                    pos: angle_to_r3_s(shape, c),
                    dir: v3s_norm(v),
                    corr: v3s_zero(),
                };
                match walk_s(shape, s0, d, steps as nat) {
                    None => Err(TorusError::DegenerateGeometry),
                    Some(sf) => Ok(r3_to_angular_s(shape, sf.pos)),
                }
            }
        }
    }
}

/// Walk a geodesic from `center` along the planar offset `off`, taking
/// sub-steps of roughly `target_step` arc length, and return the angular
/// coordinate reached.
///
/// A zero offset returns `center` unchanged, exactly.
pub fn project(shape: TorusShape, center: AngularCoord, off: PlanarOffset, target_step: i64) -> (r:
    Result<AngularCoord, TorusError>)
    requires
        shape.wf(),
        -CENTER_LIMIT <= center.theta <= CENTER_LIMIT,
        -CENTER_LIMIT <= center.phi <= CENTER_LIMIT,
        -OFFSET_LIMIT <= off.dtheta <= OFFSET_LIMIT,
        -OFFSET_LIMIT <= off.dphi <= OFFSET_LIMIT,
        1 <= target_step <= STEP_LIMIT,
    ensures
        match r {
            Ok(a) => {
                &&& project_s(shape, center@, off@, target_step as int) == Ok::<
                    AngS,
                    TorusError,
                >(a@)
                &&& -CENTER_LIMIT <= a.theta <= CENTER_LIMIT
                &&& -CENTER_LIMIT <= a.phi <= CENTER_LIMIT
                &&& (-FX_PI <= center.theta <= FX_PI && -FX_PI <= center.phi <= FX_PI) ==> (-FX_PI
                    <= a.theta <= FX_PI && -FX_PI <= a.phi <= FX_PI)
            },
            Err(e) => project_s(shape, center@, off@, target_step as int) == Err::<
                AngS,
                TorusError,
            >(e),
        },
        off.dtheta == 0 && off.dphi == 0 ==> r == Ok::<AngularCoord, TorusError>(center),
{
    if off.dtheta == 0 && off.dphi == 0 {
        return Ok(center);
    }
    let s_th = sat_unit(sin(center.theta));
    let c_th = sat_unit(cos(center.theta));
    let s_ph = sat_unit(sin(center.phi));
    let c_ph = sat_unit(cos(center.phi));
    let vdtheta = V3 { x: s_th, y: -c_th, z: 0 };
    let pr = V3 {
        x: -fx_mul_unit(s_ph, c_th),
        y: -fx_mul_unit(s_ph, s_th),
        z: c_ph,
    };
    let vdphi = match v3_normalize(pr) {
        Some(n) => n,
        None => {
            return Err(TorusError::DegenerateGeometry);
        },
    };
    let v = v3_add(v3_scale_unit(off.dtheta, vdtheta), v3_scale_unit(off.dphi, vdphi));
    let l = v3_len(v);
    if l == 0 {
        return Ok(center);
    }
    let vn = match v3_normalize(v) {
        Some(n) => n,
        None => {
            // unreachable: a nonzero length was just checked
            proof {
                assert(false);
            }
            return Err(TorusError::DegenerateGeometry);
        },
    };
    let steps_raw: i64 = (l + target_step / 2) / target_step;
    let steps: i64 = if steps_raw < 1 {
        1
    } else {
        steps_raw
    };
    let d: i64 = l / steps;
    proof {
        lemma_div_le(l as int, steps as int);
    }
    let mut st = TangentState {
        pos: angle_to_r3(shape, center),
        dir: vn,
        corr: V3 { x: 0, y: 0, z: 0 },
    };
    let ghost gv: V3s = v@;
    let ghost s0: StateS = st@;
    let mut i: i64 = 0;
    while i < steps
        invariant
            shape.wf(),
            0 <= i <= steps,
            0 <= d <= STEP_LIMIT,
            state_wf(shape, st@),
            walk_s(shape, s0, d as int, i as nat) == Some(st@),
            !(off.dtheta == 0 && off.dphi == 0),
            v3s_len(tangent_phi_raw_s(center@)) > 0,
            gv == v3s_add(
                v3s_scale(off@.dtheta, tangent_theta_s(center@)),
                v3s_scale(off@.dphi, v3s_norm(tangent_phi_raw_s(center@))),
            ),
            l as int == v3s_len(gv),
            l != 0,
            steps as int == steps_of_s(l as int, target_step as int),
            d as int == l as int / steps as int,
            s0 == (StateS {
                pos: angle_to_r3_s(shape, center@),
                dir: v3s_norm(gv),
                corr: v3s_zero(),
            }),
        decreases steps - i,
    {
        match step(shape, st, d) {
            Ok(s2) => {
                st = s2;
            },
            Err(e) => {
                proof {
                    lemma_walk_none(shape, s0, d as int, i as nat, steps as nat);
                }
                return Err(e);
            },
        }
        i = i + 1;
    }
    Ok(r3_to_angular(shape, st.pos))
}

/// What `bearing` returns: the planar angle, at `a`, of the chord from
/// `a` to `b`, measured in `a`'s tangent basis.
pub open spec fn bearing_s(shape: TorusShape, a: AngS, b: AngS) -> Result<int, TorusError> {
    let pr = tangent_phi_raw_s(a);
    if v3s_len(pr) == 0 {
        Err(TorusError::DegenerateGeometry)
    } else {
        let t2 = v3s_norm(pr);
        let delta = crate::vec3::v3s_sub(angle_to_r3_s(shape, b), angle_to_r3_s(shape, a));
        let d1 = crate::vec3::v3s_dot(delta, tangent_theta_s(a));
        let d2 = crate::vec3::v3s_dot(delta, t2);
        Ok(crate::trig::atan2_s(d2, d1))
    }
}

/// The direction from one angular coordinate to another, as an angle in
/// the tangent plane at the first: the chord between their Cartesian
/// positions is decomposed along the theta and phi tangents and fed to
/// the arc-tangent.
#[verifier::rlimit(100)]
pub fn bearing(shape: TorusShape, a: AngularCoord, b: AngularCoord) -> (r: Result<
    i64,
    TorusError,
>)
    requires
        shape.wf(),
        -CENTER_LIMIT <= a.theta <= CENTER_LIMIT,
        -CENTER_LIMIT <= a.phi <= CENTER_LIMIT,
        -CENTER_LIMIT <= b.theta <= CENTER_LIMIT,
        -CENTER_LIMIT <= b.phi <= CENTER_LIMIT,
    ensures
        match r {
            Ok(v) => bearing_s(shape, a@, b@) == Ok::<int, TorusError>(v as int) && -FX_PI <= v
                <= FX_PI,
            Err(e) => bearing_s(shape, a@, b@) == Err::<int, TorusError>(e),
        },
{
    let s_th = sat_unit(sin(a.theta));
    let c_th = sat_unit(cos(a.theta));
    let s_ph = sat_unit(sin(a.phi));
    let c_ph = sat_unit(cos(a.phi));
    let t1 = V3 { x: s_th, y: -c_th, z: 0 };
    let pr = V3 {
        x: -fx_mul_unit(s_ph, c_th),
        y: -fx_mul_unit(s_ph, s_th),
        z: c_ph,
    };
    let t2 = match v3_normalize(pr) {
        Some(n) => n,
        None => {
            return Err(TorusError::DegenerateGeometry);
        },
    };
    let pa = angle_to_r3(shape, a);
    let pb = angle_to_r3(shape, b);
    let delta = crate::vec3::v3_sub(pb, pa);
    let d1 = crate::vec3::v3_dot_unit(delta, t1);
    let d2 = crate::vec3::v3_dot_unit(delta, t2);
    Ok(crate::trig::atan2(d2, d1))
}

proof fn lemma_div_le(l: int, s: int)
    by (nonlinear_arith)
    requires
        0 <= l,
        1 <= s,
    ensures
        0 <= l / s <= l,
{
}

} // verus!
