//! Rasterizer behaviour: coverage, orientation, seam wraparound, and the
//! equivalences stated by the library's laws.

use torus_proj::fx::FX_ONE;
use torus_proj::raster::{
    euclid_mod, raster_direct, rasterize_quad, round_px, slide_x, triangle_from, Domain, Emit,
    Pt2, Tri,
};

fn pt(x: i64, y: i64) -> Pt2 {
    Pt2 { x: x * FX_ONE, y: y * FX_ONE }
}

fn pixels(v: &[Emit]) -> Vec<(u32, u32)> {
    let mut p: Vec<(u32, u32)> = v.iter().map(|e| (e.px, e.py)).collect();
    p.sort();
    p.dedup();
    p
}

#[test]
fn round_px_half_away_from_zero() {
    assert_eq!(round_px(0), 0);
    assert_eq!(round_px(3 * FX_ONE / 2), 2);
    assert_eq!(round_px(-3 * FX_ONE / 2), -2);
    assert_eq!(round_px(5 * FX_ONE / 4), 1);
    assert_eq!(round_px(-5 * FX_ONE / 4), -1);
}

#[test]
fn euclid_mod_wraps_negatives() {
    assert_eq!(euclid_mod(7, 5), 2);
    assert_eq!(euclid_mod(-1, 5), 4);
    assert_eq!(euclid_mod(-5, 5), 0);
    assert_eq!(euclid_mod(102, 100), 2);
}

#[test]
fn small_triangle_coverage() {
    let dom = Domain { w: 100, h: 100 };
    // right triangle with legs of 4 pixels at (10, 10)
    let t = Tri { a: pt(10, 10), b: pt(14, 10), c: pt(10, 14) };
    let out = triangle_from(t, dom);
    let px = pixels(&out);
    // corners of the triangle are covered
    assert!(px.contains(&(10, 10)));
    assert!(px.contains(&(14, 10)));
    assert!(px.contains(&(10, 14)));
    // a pixel on the far side of the hypotenuse is not
    assert!(!px.contains(&(14, 14)));
    // every covered pixel lies in the bounding box
    for &(x, y) in px.iter() {
        assert!((10..=14).contains(&x) && (10..=14).contains(&y));
    }
}

#[test]
fn orientation_does_not_change_coverage() {
    let dom = Domain { w: 100, h: 100 };
    let t1 = Tri { a: pt(10, 10), b: pt(14, 10), c: pt(10, 14) };
    // same triangle, opposite winding
    let t2 = Tri { a: pt(10, 10), b: pt(10, 14), c: pt(14, 10) };
    assert_eq!(pixels(&triangle_from(t1, dom)), pixels(&triangle_from(t2, dom)));
}

#[test]
fn degenerate_triangle_emits_nothing() {
    let dom = Domain { w: 100, h: 100 };
    // all three vertices on one line
    let t = Tri { a: pt(10, 10), b: pt(12, 12), c: pt(14, 14) };
    assert!(triangle_from(t, dom).is_empty());
}

#[test]
fn local_coordinates_at_corners() {
    let dom = Domain { w: 100, h: 100 };
    let t = Tri { a: pt(10, 10), b: pt(14, 10), c: pt(10, 14) };
    let out = triangle_from(t, dom);
    for e in out.iter() {
        assert!((0..=FX_ONE).contains(&e.lx) && (0..=FX_ONE).contains(&e.ly));
        if (e.px, e.py) == (10, 10) {
            assert_eq!((e.lx, e.ly), (0, 0));
        }
        if (e.px, e.py) == (14, 10) {
            assert_eq!((e.lx, e.ly), (FX_ONE, 0));
        }
        if (e.px, e.py) == (10, 14) {
            assert_eq!((e.lx, e.ly), (0, FX_ONE));
        }
    }
}

// A quad fully inside the domain rasterises identically whether or not
// the wraparound-slide path runs: sliding it a full domain width and
// rasterising directly gives the very same records.
#[test]
fn inside_quad_unchanged_by_wrap_path() {
    let dom = Domain { w: 100, h: 100 };
    let t = Tri { a: pt(10, 10), b: pt(14, 10), c: pt(10, 14) };
    let direct = raster_direct(t, dom);
    let wrapped = triangle_from(t, dom);
    assert_eq!(direct, wrapped);
    // force the slide: every vertex is below the midline, so the slide is a
    // whole-domain translation, undone by the wrap modulo
    let slid = slide_x(t, dom);
    let via_slide = raster_direct(slid, dom);
    assert_eq!(via_slide, direct);
}

// A quad straddling the seam (domain width 100, corner x-values 98 and 2)
// rasterises exactly as if 2 were 102, the results taken modulo 100.
#[test]
fn seam_quad_wraps() {
    let dom = Domain { w: 100, h: 100 };
    let t = Tri { a: pt(98, 10), b: pt(2, 10), c: pt(98, 14) };
    let wrapped = triangle_from(t, dom);
    // treat 2 as 102 by hand, rasterise directly: must agree record for record
    let shifted = Tri { a: pt(98, 10), b: pt(102, 10), c: pt(98, 14) };
    assert_eq!(wrapped, raster_direct(shifted, dom));
    let px = pixels(&wrapped);
    assert!(px.contains(&(98, 10)));
    assert!(px.contains(&(2, 10)));
    assert!(px.contains(&(0, 11)));
    for &(x, _y) in px.iter() {
        assert!(x >= 98 || x <= 2, "pixel {x} outside the seam neighbourhood");
    }
}

#[test]
fn quad_second_triangle_locals_inverted() {
    let dom = Domain { w: 100, h: 100 };
    // unit quad: its two triangles tile the four pixels
    let out = rasterize_quad(pt(20, 20), pt(21, 20), pt(20, 21), pt(21, 21), dom);
    let px = pixels(&out);
    assert_eq!(px, vec![(20, 20), (20, 21), (21, 20), (21, 21)]);
    // the far corner is emitted by the second triangle with inverted
    // locals, so it also measures from the (20, 20) corner
    let far: Vec<&Emit> = out.iter().filter(|e| (e.px, e.py) == (21, 21)).collect();
    assert!(!far.is_empty());
    for e in far {
        assert_eq!((e.lx, e.ly), (FX_ONE, FX_ONE));
    }
}
