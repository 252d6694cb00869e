//! Geometry, trigonometry and integrator behaviour, checked against
//! double-precision references and the library's documented tolerances.

use torus_proj::fx::{self, FX_HALF_PI, FX_ONE, FX_PI, FX_TAU};
use torus_proj::geom::{angle_to_r3, r3_to_angular, surface, AngularCoord, TorusError, TorusShape};
use torus_proj::integrate::{step, TangentState};
use torus_proj::project::{bearing, project, PlanarOffset};
use torus_proj::trig;
use torus_proj::vec3::V3;

fn shape() -> TorusShape {
    TorusShape { rmaj: 90000 * FX_ONE, rmin: 30000 * FX_ONE }
}

fn to_f(x: i64) -> f64 {
    x as f64 / FX_ONE as f64
}

fn from_f(x: f64) -> i64 {
    (x * FX_ONE as f64) as i64
}

#[test]
fn sqrt_exact_values() {
    assert_eq!(fx::sqrt(0), 0);
    assert_eq!(fx::sqrt(FX_ONE), FX_ONE);
    assert_eq!(fx::sqrt(4 * FX_ONE), 2 * FX_ONE);
    // floor(sqrt(2) * 2^32)
    assert_eq!(fx::sqrt(2 * FX_ONE), 6074000999);
}

#[test]
fn mul_div_rounds_toward_zero() {
    assert_eq!(fx::mul_div(3, 7, 2), 10);
    assert_eq!(fx::mul_div(-3, 7, 2), -10);
    assert_eq!(fx::mul_div(3, -7, 2), -10);
    assert_eq!(fx::mul_div(-3, -7, 2), 10);
    assert_eq!(fx::fx_mul_unit(10 * FX_ONE, FX_ONE / 2), 5 * FX_ONE);
    assert_eq!(fx::fx_div_le(FX_ONE / 4, FX_ONE / 2), FX_ONE / 2);
}

#[test]
fn trig_matches_f64_within_tolerance() {
    let cases = [-3.0f64, -1.2, -0.5, 0.0, 0.3, 1.0, 1.5707, 2.8];
    for &a in cases.iter() {
        let bits = from_f(a);
        assert!((to_f(trig::sin(bits)) - a.sin()).abs() < 1e-3, "sin({a})");
        assert!((to_f(trig::cos(bits)) - a.cos()).abs() < 1e-3, "cos({a})");
    }
}

#[test]
fn trig_wrappers_are_not_identity() {
    // cos 0 = 1, far from the argument 0
    assert!((to_f(trig::cos(0)) - 1.0).abs() < 1e-3);
    // sin(pi/2) = 1, far from pi/2
    assert!((to_f(trig::sin(FX_HALF_PI)) - 1.0).abs() < 1e-3);
    // atan2(1, 1) = pi/4, far from the inputs
    assert!((to_f(trig::atan2(FX_ONE, FX_ONE)) - core::f64::consts::FRAC_PI_4).abs() < 1e-3);
}

#[test]
fn atan2_quadrants_match_f64() {
    let cases = [
        (1.0f64, 2.0f64),
        (-1.0, 2.0),
        (1.0, -2.0),
        (-1.0, -2.0),
        (3.0, 0.5),
        (-0.25, -4.0),
    ];
    for &(y, x) in cases.iter() {
        let got = to_f(trig::atan2(from_f(y), from_f(x)));
        assert!((got - y.atan2(x)).abs() < 1e-3, "atan2({y},{x}) = {got}");
    }
}

#[test]
fn atan2_axes_are_exact() {
    assert_eq!(trig::atan2(0, 0), 0);
    assert_eq!(trig::atan2(5 * FX_ONE, 0), FX_HALF_PI);
    assert_eq!(trig::atan2(-5 * FX_ONE, 0), -FX_HALF_PI);
    assert_eq!(trig::atan2(0, 7 * FX_ONE), 0);
    assert_eq!(trig::atan2(0, -7 * FX_ONE), FX_PI);
}

#[test]
fn angle_constants_are_consistent() {
    assert_eq!(FX_TAU, 2 * FX_PI);
    assert!((to_f(FX_PI) - core::f64::consts::PI).abs() < 1e-9);
}

// Round trip: surfaceProject(angleToR3(theta, phi)) stays put within
// tolerance, for a spread of angles.
#[test]
fn surface_projection_round_trip() {
    let s = shape();
    let cases = [(0.0f64, 0.0f64), (0.5, 0.7), (-1.2, 2.1), (3.0, -3.0), (1.0, -0.1)];
    for &(th, ph) in cases.iter() {
        let a = AngularCoord { theta: from_f(th), phi: from_f(ph) };
        let p = angle_to_r3(s, a);
        let (sp, _n) = surface(s, p).expect("point from angles is never degenerate");
        assert!((p.x - sp.x).abs() < FX_ONE, "x drift at ({th},{ph})");
        assert!((p.y - sp.y).abs() < FX_ONE, "y drift at ({th},{ph})");
        assert!((p.z - sp.z).abs() < FX_ONE, "z drift at ({th},{ph})");
    }
}

// Round trip: r3ToAngle(angleToR3(theta, phi)) = (theta, phi) within
// tolerance, for non-degenerate angles in (-pi, pi].
#[test]
fn angular_round_trip() {
    let s = shape();
    let cases = [(0.5f64, 0.7f64), (-1.2, 2.1), (3.0, -3.0), (1.0, -0.1), (-2.5, 0.4)];
    for &(th, ph) in cases.iter() {
        let a = AngularCoord { theta: from_f(th), phi: from_f(ph) };
        let p = angle_to_r3(s, a);
        let b = r3_to_angular(s, p);
        assert!((to_f(b.theta) - th).abs() < 1e-3, "theta at ({th},{ph})");
        assert!((to_f(b.phi) - ph).abs() < 1e-3, "phi at ({th},{ph})");
    }
}

#[test]
fn surface_degenerate_on_axis() {
    let s = shape();
    let p = V3 { x: 0, y: 0, z: 5 * FX_ONE };
    assert_eq!(surface(s, p), Err(TorusError::DegenerateGeometry));
}

#[test]
fn surface_degenerate_on_spine() {
    let s = shape();
    // exactly on the major circle: delta is the zero vector
    let p = V3 { x: s.rmaj, y: 0, z: 0 };
    assert_eq!(surface(s, p), Err(TorusError::DegenerateGeometry));
}

// After a step the tangent keeps unit length and stays orthogonal to the
// surface normal, within tolerance.
#[test]
fn step_tangent_unit_and_orthogonal() {
    let s = shape();
    let a = AngularCoord { theta: from_f(0.4), phi: from_f(-0.9) };
    let pos = angle_to_r3(s, a);
    // circumferential unit tangent at theta
    let dir = V3 {
        x: trig::sin(a.theta).clamp(-FX_ONE, FX_ONE),
        y: -trig::cos(a.theta).clamp(-FX_ONE, FX_ONE),
        z: 0,
    };
    let st = TangentState { pos, dir, corr: V3 { x: 0, y: 0, z: 0 } };
    let d = 10 * FX_ONE;
    let st2 = step(s, st, d).expect("step on the surface succeeds");
    let one2 = (FX_ONE as i128) * (FX_ONE as i128);
    let dot2 = |u: V3, v: V3| -> i128 {
        (u.x as i128) * (v.x as i128) + (u.y as i128) * (v.y as i128) + (u.z as i128) * (v.z
            as i128)
    };
    let len2 = dot2(st2.dir, st2.dir);
    assert!((len2 - one2).abs() < one2 / 1000, "unit length");
    let (_sp, n) = surface(s, st2.pos).expect("new position is on the surface");
    assert!(dot2(st2.dir, n).abs() < one2 / 1000, "orthogonal to normal");
}

// project with the zero offset is the identity on the centre, exactly.
#[test]
fn project_zero_offset_identity() {
    let s = shape();
    let c = AngularCoord { theta: from_f(1.1), phi: from_f(-0.3) };
    let r = project(s, c, PlanarOffset { dtheta: 0, dphi: 0 }, 100 * FX_ONE);
    assert_eq!(r, Ok(c));
}

// An offset so small that the initial velocity rounds to the zero vector
// walks no arc length at all: the centre comes back unchanged.
#[test]
fn project_subrounding_offset_identity() {
    let s = shape();
    let c = AngularCoord { theta: from_f(0.2), phi: from_f(0.4) };
    let r = project(s, c, PlanarOffset { dtheta: 1, dphi: 1 }, 100 * FX_ONE);
    assert_eq!(r, Ok(c));
}

// The bearing of a nearby point that differs only in phi points along the
// phi tangent: a quarter turn; one that differs only in theta lies along
// the theta axis of the tangent plane.
#[test]
fn bearing_of_neighbours() {
    let s = shape();
    let a = AngularCoord { theta: from_f(0.0), phi: from_f(0.0) };
    let up = AngularCoord { theta: from_f(0.0), phi: from_f(0.01) };
    let along = AngularCoord { theta: from_f(0.01), phi: from_f(0.0) };
    let b1 = bearing(s, a, up).expect("bearing exists");
    assert!((to_f(b1).abs() - core::f64::consts::FRAC_PI_2).abs() < 1e-2, "phi step: {b1}");
    let b2 = bearing(s, a, along).expect("bearing exists");
    let m = to_f(b2).abs();
    assert!(m < 1e-2 || (core::f64::consts::PI - m) < 1e-2, "theta step: {b2}");
}

#[test]
fn project_moves_along_theta() {
    let s = shape();
    let c = AngularCoord { theta: 0, phi: 0 };
    // walk 1000 units along the theta tangent: theta should change by about
    // 1000 / (rmaj + rmin) radians, phi stay near 0
    let off = PlanarOffset { dtheta: 1000 * FX_ONE, dphi: 0 };
    let r = project(s, c, off, 10 * FX_ONE).expect("projection succeeds");
    let expected = 1000.0 / 120000.0;
    assert!((to_f(r.theta).abs() - expected).abs() < expected * 0.05, "theta magnitude");
    assert!(to_f(r.phi).abs() < 1e-3, "phi stays small");
}
