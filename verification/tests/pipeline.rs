//! End-to-end behaviour: step refinement, the forward map, cell
//! rasterisation, the write merge, and determinism across worker pools.

use rayon::iter::{IntoParallelRefIterator, ParallelIterator};
use torus_proj::fx::FX_ONE;
use torus_proj::geom::{AngularCoord, TorusError, TorusShape};
use torus_proj::orchestrate::{
    apply_writes, cell_emits, ForwardMap, PixelWrite, Raster, SampleWrite,
};
use torus_proj::project::{project, PlanarOffset};
use torus_proj::raster::{Domain, Pt2};
use torus_proj::refine::{angle_to_source, pixel_for, refine_project, RefineConfig};

fn shape() -> TorusShape {
    TorusShape { rmaj: 90000 * FX_ONE, rmin: 30000 * FX_ONE }
}

fn cfg() -> RefineConfig {
    RefineConfig { initial_step: 100 * FX_ONE, tolerance: FX_ONE / 1000, max_rounds: 40 }
}

fn to_f(x: i64) -> f64 {
    x as f64 / FX_ONE as f64
}

// For a fixed non-degenerate offset the projections stabilise as the step
// is halved: the refiner converges, and late deltas are no larger than
// early ones.
#[test]
fn refinement_converges_monotonically() {
    let s = shape();
    let c = AngularCoord { theta: 0, phi: 0 };
    let off = PlanarOffset { dtheta: 20000 * FX_ONE, dphi: 10000 * FX_ONE };
    // start with a step so coarse that the whole walk is two sub-steps, so
    // the discretisation error dominates and halving visibly refines it
    let mut step = 10000 * FX_ONE;
    let mut outs: Vec<(f64, f64)> = Vec::new();
    for _ in 0..9 {
        let v = project(s, c, off, step).expect("projection succeeds");
        outs.push((to_f(v.theta), to_f(v.phi)));
        step = (step / 2).max(1);
    }
    let d = |a: (f64, f64), b: (f64, f64)| ((a.0 - b.0).powi(2) + (a.1 - b.1).powi(2)).sqrt();
    let first_delta = d(outs[0], outs[1]);
    let late_delta = d(outs[7], outs[8]);
    assert!(
        late_delta <= first_delta.max(1e-12),
        "deltas shrink: {first_delta} vs {late_delta}"
    );
    // and the refiner reports success on the same inputs
    let r = refine_project(s, c, off, cfg());
    assert!(r.is_ok());
}

#[test]
fn refinement_reports_non_convergence() {
    let s = shape();
    let c = AngularCoord { theta: 0, phi: 0 };
    let off = PlanarOffset { dtheta: 1000 * FX_ONE, dphi: 0 };
    // a zero tolerance can never be met: squared distances are never < 0
    let hopeless = RefineConfig { initial_step: 100 * FX_ONE, tolerance: 0, max_rounds: 3 };
    assert_eq!(refine_project(s, c, off, hopeless), Err(TorusError::NonConvergence));
}

// The half turn is exactly half the full turn, so theta = 0 lands on the
// exact midpoint of the source raster.
#[test]
fn angle_maps_to_source_centre_exactly() {
    let a = AngularCoord { theta: 0, phi: 0 };
    let (sx, sy) = angle_to_source(a, 5, 9);
    assert_eq!(sx, 2 * FX_ONE);
    assert_eq!(sy, 4 * FX_ONE);
}

#[test]
fn forward_map_checks_its_shape() {
    let entries: Vec<Option<Pt2>> = vec![Some(Pt2 { x: 0, y: 0 }); 6];
    assert!(ForwardMap::from_entries(2, 3, entries.clone()).is_some());
    assert!(ForwardMap::from_entries(3, 3, entries).is_none());
}

#[test]
fn forward_map_rejects_out_of_range_entries() {
    let mut entries: Vec<Option<Pt2>> = vec![Some(Pt2 { x: 0, y: 0 }); 4];
    entries[2] = Some(Pt2 { x: torus_proj::raster::TRI_LIMIT + 1, y: 0 });
    assert!(ForwardMap::from_entries(2, 2, entries).is_none());
}

#[test]
fn cell_with_missing_corner_is_skipped() {
    let dom = Domain { w: 16, h: 16 };
    let mut entries: Vec<Option<Pt2>> = vec![Some(Pt2 { x: FX_ONE, y: FX_ONE }); 4];
    entries[3] = None;
    let m = ForwardMap::from_entries(2, 2, entries).expect("shape fits");
    assert!(cell_emits(&m, 0, 0, dom).is_empty());
}

#[test]
fn cell_emits_cover_the_projected_quad() {
    let dom = Domain { w: 16, h: 16 };
    let p = |x: i64, y: i64| Some(Pt2 { x: x * FX_ONE, y: y * FX_ONE });
    // row-major: (0,0) (1,0) (0,1) (1,1)
    let entries = vec![p(4, 4), p(6, 4), p(4, 6), p(6, 6)];
    let m = ForwardMap::from_entries(2, 2, entries).expect("shape fits");
    let out = cell_emits(&m, 0, 0, dom);
    let mut px: Vec<(u32, u32)> = out.iter().map(|w| (w.x, w.y)).collect();
    px.sort();
    px.dedup();
    assert_eq!(px, vec![
        (4, 4), (4, 5), (4, 6), (5, 4), (5, 5), (5, 6), (6, 4), (6, 5), (6, 6),
    ]);
    for w in out.iter() {
        // sample coordinates measure from the cell corner, within one cell
        assert!((0..=FX_ONE).contains(&w.sx) && (0..=FX_ONE).contains(&w.sy));
    }
}

#[test]
fn apply_writes_last_write_wins_and_ignores_out_of_range() {
    let mut r = Raster::new_filled(4, 4, [0, 0, 0, 0]);
    let ws = vec![
        PixelWrite { x: 1, y: 2, rgba: [10, 10, 10, 255] },
        PixelWrite { x: 1, y: 2, rgba: [20, 20, 20, 255] },
        PixelWrite { x: 9, y: 9, rgba: [30, 30, 30, 255] },
    ];
    apply_writes(&mut r, &ws);
    assert_eq!(r.pixel(1, 2), [20, 20, 20, 255]);
    assert_eq!(r.pixel(0, 0), [0, 0, 0, 0]);
    assert_eq!(r.pixel(3, 3), [0, 0, 0, 0]);
}

// A 4x4 uniform source, 2x2 output, centre (0, 0), scale 1, forward mode:
// every output pixel samples the source successfully, and since the
// source is uniform the output is the uniform colour everywhere.
#[test]
fn forward_uniform_source_gives_uniform_output() {
    let s = shape();
    let colour = [120u8, 80, 40, 255];
    let mut out = Raster::new_filled(2, 2, [0, 0, 0, 0]);
    let mut writes: Vec<PixelWrite> = Vec::new();
    for y in 0..2u32 {
        for x in 0..2u32 {
            let c = AngularCoord { theta: 0, phi: 0 };
            let (sx, sy) = pixel_for(s, cfg(), c, FX_ONE, 2, 2, 4, 4, x, y)
                .expect("trivial projection succeeds");
            // uniform source: every sample coordinate yields the colour
            assert!((0..=3 * FX_ONE).contains(&sx) && (0..=3 * FX_ONE).contains(&sy));
            writes.push(PixelWrite { x, y, rgba: colour });
        }
    }
    apply_writes(&mut out, &writes);
    for y in 0..2u32 {
        for x in 0..2u32 {
            assert_eq!(out.pixel(x, y), colour);
        }
    }
}

fn reverse_render(threads: usize) -> Vec<u8> {
    // a small torus with a coarse scale, so each grid quad spans several
    // texture pixels and the rasteriser has real work
    let s = TorusShape { rmaj: 40 * FX_ONE, rmin: 15 * FX_ONE };
    let c = AngularCoord { theta: 0, phi: 0 };
    let rc = cfg();
    let grid_w: u32 = 5;
    let grid_h: u32 = 5;
    let dom = Domain { w: 32, h: 32 };
    let pool = rayon::ThreadPoolBuilder::new().num_threads(threads).build().expect("pool");
    let raster = pool.install(|| {
        let coords: Vec<(u32, u32)> = (0..grid_h).flat_map(|y| (0..grid_w).map(move |x| (x, y)))
            .collect();
        let entries: Vec<Option<Pt2>> = coords
            .par_iter()
            .map(|&(x, y)| {
                pixel_for(s, rc, c, 20 * FX_ONE, grid_w, grid_h, 32, 32, x, y)
                    .ok()
                    .map(|(sx, sy)| Pt2 { x: sx, y: sy })
            })
            .collect();
        let m = ForwardMap::from_entries(grid_w, grid_h, entries).expect("entries fit");
        let cells: Vec<(u32, u32)> = (0..grid_h - 1)
            .flat_map(|y| (0..grid_w - 1).map(move |x| (x, y)))
            .collect();
        let writes: Vec<Vec<SampleWrite>> = cells
            .par_iter()
            .map(|&(x, y)| cell_emits(&m, x, y, dom))
            .collect();
        let mut out = Raster::new_filled(dom.w, dom.h, [0, 0, 0, 0]);
        let mut flat: Vec<PixelWrite> = Vec::new();
        for ws in writes.iter() {
            for w in ws.iter() {
                // colour each write by its sample coordinate so ordering
                // differences would show in the merged bytes
                flat.push(PixelWrite {
                    x: w.x,
                    y: w.y,
                    rgba: [
                        (w.sx / (FX_ONE / 8)).clamp(0, 255) as u8,
                        (w.sy / (FX_ONE / 8)).clamp(0, 255) as u8,
                        7,
                        255,
                    ],
                });
            }
        }
        apply_writes(&mut out, &flat);
        out
    });
    raster.data.iter().flat_map(|p| p.iter().copied()).collect()
}

// Rendering the same inputs with worker pools of different sizes produces
// byte-identical output.
#[test]
fn reverse_render_deterministic_across_pool_sizes() {
    let one = reverse_render(1);
    let eight = reverse_render(8);
    assert_eq!(one, eight);
    // and the render touched at least one pixel
    assert!(one.iter().any(|&b| b != 0));
}
