//! Rendering geometry for a doubly-periodic toroidal surface.
//!
//! The library maps between flat projection-plane offsets and points on a
//! torus by walking geodesics with a predictor-corrector integrator, refines
//! the integration step until the result stabilises, and rasterises quads of
//! projected grid corners back into per-pixel source coordinates, splitting
//! geometry that crosses the periodic seam.
//!
//! All quantities are Q32.32 fixed-point values (see [`fx`]); trigonometric
//! functions are obtained from the `cordic` crate through trusted wrappers.

use vstd::prelude::*;

pub mod fx;
pub mod trig;
pub mod vec3;
pub mod geom;
pub mod integrate;
pub mod project;
pub mod refine;
pub mod raster;
pub mod orchestrate;

verus! {

} // verus!
