//! Torus geometry: angular/Cartesian conversions and nearest-surface
//! projection.
//!
//! The torus is the tube of radius `rmin` swept around the circle of radius
//! `rmaj` in the horizontal plane.  An angular coordinate `(theta, phi)`
//! walks around the main axis and around the tube cross-section.

use vstd::prelude::*;
use crate::fx::FX_ONE;
use crate::fx::FX_PI;
use crate::fx::FX_LIMIT;
use crate::fx::abs_i;
use crate::fx::tdiv;
use crate::fx::fx_mul_s;
use crate::fx::sat_unit_s;
use crate::fx::isqrt_s;
use crate::fx::sat_unit;
use crate::fx::mul_div;
use crate::fx::fx_div_le;
use crate::trig::ANGLE_IN_LIMIT;
use crate::trig::sin_of;
use crate::trig::cos_of;
use crate::trig::atan2_s;
use crate::trig::sin;
use crate::trig::cos;
use crate::trig::atan2;
use crate::vec3::V3;
use crate::vec3::V3s;
use crate::vec3::v3s_bounded;
use crate::vec3::v3s_sub;
use crate::vec3::v3s_len;
use crate::vec3::v3s_norm;
use crate::vec3::v3_sub;
use crate::vec3::v3_len;

verus! {

/// Largest sum of torus radii the library accepts, in Q32.32.
pub const COORD_LIMIT: i64 = 0x4_0000_0000_0000;

/// Largest point-component magnitude `surface` and `r3_to_angular` accept;
/// leaves room for a predicted point that has drifted off the surface.
pub const SURF_IN_LIMIT: i64 = 0x100_0000_0000_0000;

/// The failure conditions of the geometry and refinement routines.
#[derive(Clone, Copy, Debug, PartialEq, Eq, Structural)]
pub enum TorusError {
    /// A surface projection or normalisation hit a division by zero.
    DegenerateGeometry,
    /// Step refinement did not stabilise within its round limit.
    NonConvergence,
}

/// The fixed geometry of one torus: major and minor radius, Q32.32.
#[derive(Clone, Copy, Debug, PartialEq, Eq, Structural)]
pub struct TorusShape {
    pub rmaj: i64,
    pub rmin: i64,
}

impl TorusShape {
    /// Radii are positive and small enough that every surface point is far
    /// inside the arithmetic range.
    pub open spec fn wf(self) -> bool {
        0 < self.rmin && 0 < self.rmaj && self.rmaj + self.rmin <= COORD_LIMIT
    }
}

/// An angular coordinate on the torus, Q32.32 radians per component.
#[derive(Clone, Copy, Debug, PartialEq, Eq, Structural)]
pub struct AngularCoord {
    pub theta: i64,
    pub phi: i64,
}

/// The mathematical value of an [`AngularCoord`].
pub ghost struct AngS {
    pub theta: int,
    pub phi: int,
}

impl View for AngularCoord {
    type V = AngS;

    open spec fn view(&self) -> AngS {
        AngS { theta: self.theta as int, phi: self.phi as int }
    }
}

/// What `angle_to_r3` returns: the tube radius at `phi` scaled by the
/// saturated cosine/sine of `theta`, and the height given by `phi`.
pub open spec fn angle_to_r3_s(shape: TorusShape, a: AngS) -> V3s {
    let r = shape.rmaj + fx_mul_s(shape.rmin as int, sat_unit_s(cos_of(a.phi)));
    V3s {
        x: fx_mul_s(r, sat_unit_s(cos_of(a.theta))),
        y: fx_mul_s(r, sat_unit_s(sin_of(a.theta))),
        z: fx_mul_s(shape.rmin as int, sat_unit_s(sin_of(a.phi))),
    }
}

/// Map an angular coordinate to the Cartesian point on the torus surface:
/// `r = rmaj + rmin*cos(phi)`, result `(r*cos(theta), r*sin(theta),
/// rmin*sin(phi))`.
pub fn angle_to_r3(shape: TorusShape, a: AngularCoord) -> (p: V3)
    requires
        shape.wf(),
        -ANGLE_IN_LIMIT <= a.theta <= ANGLE_IN_LIMIT,
        -ANGLE_IN_LIMIT <= a.phi <= ANGLE_IN_LIMIT,
    ensures
        p@ == angle_to_r3_s(shape, a@),
        v3s_bounded(p@, shape.rmaj + shape.rmin),
{
    let c_phi = sat_unit(cos(a.phi));
    let s_phi = sat_unit(sin(a.phi));
    let c_th = sat_unit(cos(a.theta));
    let s_th = sat_unit(sin(a.theta));
    let r = shape.rmaj + crate::fx::fx_mul_unit(shape.rmin, c_phi);
    V3 {
        x: crate::fx::fx_mul_unit(r, c_th),
        y: crate::fx::fx_mul_unit(r, s_th),
        z: crate::fx::fx_mul_unit(shape.rmin, s_phi),
    }
}

/// What `r3_to_angular` returns: `theta` from the horizontal direction,
/// `phi` from the height and the distance to the major circle.
pub open spec fn r3_to_angular_s(shape: TorusShape, p: V3s) -> AngS {
    let h = isqrt_s(p.x * p.x + p.y * p.y);
    AngS {
        theta: atan2_s(p.y, p.x),
        phi: atan2_s(p.z, h - shape.rmaj),
    }
}

/// Map a Cartesian point back to its angular coordinate:
/// `theta = atan2(y, x)`, `phi = atan2(z, sqrt(x^2 + y^2) - rmaj)`.
/// Exact only for points already on the surface.
pub fn r3_to_angular(shape: TorusShape, p: V3) -> (a: AngularCoord)
    requires
        shape.wf(),
        v3s_bounded(p@, SURF_IN_LIMIT as int),
    ensures
        a@ == r3_to_angular_s(shape, p@),
        -FX_PI <= a.theta <= FX_PI,
        -FX_PI <= a.phi <= FX_PI,
{
    let h = v3_len(V3 { x: p.x, y: p.y, z: 0 });
    let theta = atan2(p.y, p.x);
    let phi = atan2(p.z, h - shape.rmaj);
    AngularCoord { theta, phi }
}

/// The point of the major circle nearest to `p`: `p` pulled radially into
/// the horizontal plane at radius `rmaj`.
pub open spec fn surf_center_s(shape: TorusShape, p: V3s) -> V3s
    recommends
        isqrt_s(p.x * p.x + p.y * p.y) != 0,
{
    let h = isqrt_s(p.x * p.x + p.y * p.y);
    V3s { x: tdiv(p.x * shape.rmaj, h), y: tdiv(p.y * shape.rmaj, h), z: 0 }
}

/// The offset from the nearest major-circle point to `p`; its direction
/// is the outward surface normal.
pub open spec fn surf_delta_s(shape: TorusShape, p: V3s) -> V3s {
    v3s_sub(p, surf_center_s(shape, p))
}

/// The surfaced point: the centre point plus `rmin` along the normal.
pub open spec fn surf_point_s(shape: TorusShape, p: V3s) -> V3s {
    let c = surf_center_s(shape, p);
    let d = surf_delta_s(shape, p);
    let dl = v3s_len(d);
    V3s {
        x: c.x + tdiv(d.x * shape.rmin, dl),
        y: c.y + tdiv(d.y * shape.rmin, dl),
        z: tdiv(d.z * shape.rmin, dl),
    }
}

/// What `surface` returns: the nearest point on the tube and the outward
/// surface normal, or nothing when the projection is degenerate.
pub open spec fn surface_s(shape: TorusShape, p: V3s) -> Option<(V3s, V3s)> {
    let h = isqrt_s(p.x * p.x + p.y * p.y);
    if h == 0 {
        None
    } else {
        let d = surf_delta_s(shape, p);
        if v3s_len(d) == 0 {
            None
        } else {
            Some((surf_point_s(shape, p), v3s_norm(d)))
        }
    }
}

/// Project a point onto the torus surface.
///
/// The point is first pulled radially onto the major circle; the direction
/// from that centre point to the input gives the outward normal, and walking
/// `rmin` along it gives the surfaced point.  Fails with
/// [`TorusError::DegenerateGeometry`] exactly when the point lies on the
/// vertical axis or on the major circle itself, where no direction exists.
pub fn surface(shape: TorusShape, p: V3) -> (r: Result<(V3, V3), TorusError>)
    requires
        shape.wf(),
        v3s_bounded(p@, SURF_IN_LIMIT as int),
    ensures
        match r {
            Ok((s, n)) => {
                &&& surface_s(shape, p@) == Some((s@, n@))
                &&& v3s_bounded(s@, shape.rmaj + shape.rmin)
                &&& v3s_bounded(n@, FX_ONE as int)
            },
            Err(e) => {
                &&& surface_s(shape, p@) is None
                &&& e == TorusError::DegenerateGeometry
            },
        },
{
    let h = v3_len(V3 { x: p.x, y: p.y, z: 0 });
    if h == 0 {
        return Err(TorusError::DegenerateGeometry);
    }
    let c = V3 {
        x: mul_div(p.x, shape.rmaj, h),
        y: mul_div(p.y, shape.rmaj, h),
        z: 0,
    };
    let d = v3_sub(p, c);
    let dl = v3_len(d);
    if dl == 0 {
        return Err(TorusError::DegenerateGeometry);
    }
    let s = V3 {
        x: c.x + mul_div(d.x, shape.rmin, dl),
        y: c.y + mul_div(d.y, shape.rmin, dl),
        z: mul_div(d.z, shape.rmin, dl),
    };
    let n = V3 {
        x: fx_div_le(d.x, dl),
        y: fx_div_le(d.y, dl),
        z: fx_div_le(d.z, dl),
    };
    Ok((s, n))
}

} // verus!
