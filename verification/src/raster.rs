//! The mesh rasterizer: enumerate the pixels covered by a triangle of
//! fixed-point vertices inside a periodic pixel domain, with the local
//! (barycentric) coordinate of every covered pixel.
//!
//! All tests are exact integer arithmetic on the vertex bits, so coverage
//! is a pure function of the vertices and the domain.

use vstd::prelude::*;
use crate::fx::FX_ONE;
use crate::fx::FX_HALF;
use crate::fx::tdiv;

verus! {

/// Largest raster domain side accepted by the rasterizer, in pixels.
pub const RASTER_MAX_DIM: u32 = 4096;

/// Largest vertex-coordinate magnitude `triangle_from` accepts, Q32.32.
pub const TRI_LIMIT: i64 = 0x2000_0000_0000;

/// Vertex-coordinate magnitude bound after seam slides, Q32.32.
pub const TRI_WORK_LIMIT: i64 = 0x4000_0000_0000;

/// A point of the rasterizer's plane, Q32.32 per axis.
#[derive(Clone, Copy, Debug, PartialEq, Eq, Structural)]
pub struct Pt2 {
    pub x: i64,
    pub y: i64,
}

/// A triangle of fixed-point vertices.
#[derive(Clone, Copy, Debug, PartialEq, Eq, Structural)]
pub struct Tri {
    pub a: Pt2,
    pub b: Pt2,
    pub c: Pt2,
}

/// The mathematical value of a [`Tri`]: six vertex coordinates.
pub ghost struct TriS {
    pub ax: int,
    pub ay: int,
    pub bx: int,
    pub by: int,
    pub cx: int,
    pub cy: int,
}

impl View for Tri {
    type V = TriS;

    open spec fn view(&self) -> TriS {
        TriS {
            ax: self.a.x as int,
            ay: self.a.y as int,
            bx: self.b.x as int,
            by: self.b.y as int,
            cx: self.c.x as int,
            cy: self.c.y as int,
        }
    }
}

/// The periodic pixel domain the rasterizer writes into.
#[derive(Clone, Copy, Debug, PartialEq, Eq, Structural)]
pub struct Domain {
    pub w: u32,
    pub h: u32,
}

impl Domain {
    pub open spec fn wf(self) -> bool {
        0 < self.w <= RASTER_MAX_DIM && 0 < self.h <= RASTER_MAX_DIM
    }
}

/// One covered pixel: its wrapped coordinate in the domain and the local
/// coordinates of the pixel centre within the triangle, Q32.32 in [0, 1].
#[derive(Clone, Copy, Debug, PartialEq, Eq, Structural)]
pub struct Emit {
    pub px: u32,
    pub py: u32,
    pub lx: i64,
    pub ly: i64,
}

/// The mathematical value of an [`Emit`].
pub ghost struct EmitS {
    pub px: int,
    pub py: int,
    pub lx: int,
    pub ly: int,
}

impl View for Emit {
    type V = EmitS;

    open spec fn view(&self) -> EmitS {
        EmitS { px: self.px as int, py: self.py as int, lx: self.lx as int, ly: self.ly as int }
    }
}

/// A vector of emits, viewed mathematically.
pub open spec fn emits_view(s: Seq<Emit>) -> Seq<EmitS> {
    s.map_values(|e: Emit| e@)
}

/// All six coordinates within `m` in magnitude.
pub open spec fn tri_bounded(t: TriS, m: int) -> bool {
    &&& -m <= t.ax <= m
    &&& -m <= t.ay <= m
    &&& -m <= t.bx <= m
    &&& -m <= t.by <= m
    &&& -m <= t.cx <= m
    &&& -m <= t.cy <= m
}

/// Fixed-point coordinate rounded to the nearest pixel index, halves away
/// from zero.
pub open spec fn rnd_s(x: int) -> int {
    if x >= 0 {
        (x + FX_HALF) / (FX_ONE as int)
    } else {
        -((-x + FX_HALF) / (FX_ONE as int))
    }
}

/// Round a fixed-point coordinate to its pixel index.
pub fn round_px(x: i64) -> (r: i64)
    requires
        -TRI_WORK_LIMIT <= x <= TRI_WORK_LIMIT,
    ensures
        r == rnd_s(x as int),
        -0x4001 <= r <= 0x4001,
{
    if x >= 0 {
        (x + FX_HALF) / FX_ONE
    } else {
        -((-x + FX_HALF) / FX_ONE)
    }
}

/// Euclidean remainder: the representative of `x` in `[0, m)`.
pub fn euclid_mod(x: i64, m: i64) -> (r: i64)
    requires
        0 < m <= 0x10_0000,
        -0x7fff_ffff <= x <= 0x7fff_ffff,
    ensures
        r == (x as int) % (m as int),
        0 <= r < m,
{
    proof {
        vstd::arithmetic::div_mod::lemma_mod_multiples_vanish(
            0x1_0000_0000,
            x as int,
            m as int,
        );
    }
    let shifted: i64 = x + m * 0x1_0000_0000;
    let r = ((shifted as u64) % (m as u64)) as i64;
    r
}

/// The signed area (times two) spanned by the edges out of vertex `a`:
/// positive for counter-clockwise triangles.
pub open spec fn det_s(t: TriS) -> int {
    (t.bx - t.ax) * (t.cy - t.ay) - (t.cx - t.ax) * (t.by - t.ay)
}

/// Swap vertices `b` and `c`.
pub open spec fn swapped_s(t: TriS) -> TriS {
    TriS { ax: t.ax, ay: t.ay, bx: t.cx, by: t.cy, cx: t.bx, cy: t.by }
}

/// Whether orientation requires the swap.
pub open spec fn flipped_s(t: TriS) -> bool {
    det_s(t) < 0
}

/// The triangle in counter-clockwise order.
pub open spec fn oriented_s(t: TriS) -> TriS {
    if flipped_s(t) {
        swapped_s(t)
    } else {
        t
    }
}

proof fn lemma_det_swap(t: TriS)
    by (nonlinear_arith)
    ensures
        det_s(swapped_s(t)) == -det_s(t),
{
}

/// Barycentric numerator of the pixel centre `(x, y)` along edge
/// `a -> b` of the oriented triangle, scaled by its determinant.
pub open spec fn num_a_s(o: TriS, x: int, y: int) -> int {
    (x * FX_ONE - o.ax) * (o.cy - o.ay) - (y * FX_ONE - o.ay) * (o.cx - o.ax)
}

/// Barycentric numerator along edge `a -> c`, scaled by the determinant.
pub open spec fn num_b_s(o: TriS, x: int, y: int) -> int {
    (o.bx - o.ax) * (y * FX_ONE - o.ay) - (o.by - o.ay) * (x * FX_ONE - o.ax)
}

/// Whether the oriented triangle covers the pixel centre `(x, y)`: three
/// half-plane tests, each a linear inequality on the scaled barycentric
/// coordinates.  A degenerate triangle covers nothing.
pub open spec fn covered_s(t: TriS, x: int, y: int) -> bool {
    let o = oriented_s(t);
    let d = det_s(o);
    &&& d > 0
    &&& num_a_s(o, x, y) >= 0
    &&& num_b_s(o, x, y) >= 0
    &&& num_a_s(o, x, y) + num_b_s(o, x, y) <= d
}

/// The local coordinates of a covered pixel, in the order of the original
/// (unswapped) vertex basis.
pub open spec fn local_s(t: TriS, x: int, y: int) -> (int, int)
    recommends
        covered_s(t, x, y),
{
    let o = oriented_s(t);
    let d = det_s(o);
    let la = tdiv(num_a_s(o, x, y) * FX_ONE, d);
    let lb = tdiv(num_b_s(o, x, y) * FX_ONE, d);
    if flipped_s(t) {
        (lb, la)
    } else {
        (la, lb)
    }
}

/// The emitted record for covered pixel `(x, y)`: the pixel wrapped into
/// the domain, with its local coordinates.
pub open spec fn emit_s(t: TriS, dom: Domain, x: int, y: int) -> EmitS {
    EmitS {
        px: x % (dom.w as int),
        py: y % (dom.h as int),
        lx: local_s(t, x, y).0,
        ly: local_s(t, x, y).1,
    }
}

/// Smallest and largest pixel index of the triangle per axis.
pub open spec fn xmin_s(t: TriS) -> int {
    min3(rnd_s(t.ax), rnd_s(t.bx), rnd_s(t.cx))
}

pub open spec fn xmax_s(t: TriS) -> int {
    max3(rnd_s(t.ax), rnd_s(t.bx), rnd_s(t.cx))
}

pub open spec fn ymin_s(t: TriS) -> int {
    min3(rnd_s(t.ay), rnd_s(t.by), rnd_s(t.cy))
}

pub open spec fn ymax_s(t: TriS) -> int {
    max3(rnd_s(t.ay), rnd_s(t.by), rnd_s(t.cy))
}

pub open spec fn min3(a: int, b: int, c: int) -> int {
    if a <= b && a <= c {
        a
    } else if b <= c {
        b
    } else {
        c
    }
}

pub open spec fn max3(a: int, b: int, c: int) -> int {
    if a >= b && a >= c {
        a
    } else if b >= c {
        b
    } else {
        c
    }
}

/// The emits of one bounding-box column `x`, pixel rows `y0..=y1`.
pub open spec fn col_s(t: TriS, dom: Domain, x: int, y0: int, y1: int) -> Seq<EmitS>
    decreases y1 + 1 - y0,
{
    if y0 > y1 {
        Seq::empty()
    } else {
        (if covered_s(t, x, y0) {
            seq![emit_s(t, dom, x, y0)]
        } else {
            Seq::empty()
        }) + col_s(t, dom, x, y0 + 1, y1)
    }
}

/// The emits of bounding-box columns `x0..=x1`.
pub open spec fn rows_s(t: TriS, dom: Domain, x0: int, x1: int, y0: int, y1: int) -> Seq<EmitS>
    decreases x1 + 1 - x0,
{
    if x0 > x1 {
        Seq::empty()
    } else {
        col_s(t, dom, x0, y0, y1) + rows_s(t, dom, x0 + 1, x1, y0, y1)
    }
}

/// What direct (non-wrapping) rasterisation emits: every covered pixel of
/// the bounding box, scanned column-major, wrapped into the domain.
pub open spec fn raster_direct_s(t: TriS, dom: Domain) -> Seq<EmitS> {
    rows_s(t, dom, xmin_s(t), xmax_s(t), ymin_s(t), ymax_s(t))
}

proof fn lemma_col_snoc(t: TriS, dom: Domain, x: int, y0: int, y1: int)
    requires
        y0 <= y1,
    ensures
        col_s(t, dom, x, y0, y1) == col_s(t, dom, x, y0, y1 - 1) + (if covered_s(t, x, y1) {
            seq![emit_s(t, dom, x, y1)]
        } else {
            Seq::<EmitS>::empty()
        }),
    decreases y1 - y0,
{

    if y0 == y1 {
        assert(col_s(t, dom, x, y0, y1 - 1) =~= Seq::<EmitS>::empty());
        assert(col_s(t, dom, x, y1 + 1, y1) =~= Seq::<EmitS>::empty());
        assert(col_s(t, dom, x, y0, y1) =~= col_s(t, dom, x, y0, y1 - 1) + (if covered_s(
            t,
            x,
            y1,
        ) {
            seq![emit_s(t, dom, x, y1)]
        } else {
            Seq::<EmitS>::empty()
        }));
    } else {
        lemma_col_snoc(t, dom, x, y0 + 1, y1);
        assert(col_s(t, dom, x, y0, y1) =~= col_s(t, dom, x, y0, y1 - 1) + (if covered_s(
            t,
            x,
            y1,
        ) {
            seq![emit_s(t, dom, x, y1)]
        } else {
            Seq::<EmitS>::empty()
        }));
    }
}

proof fn lemma_rows_snoc(t: TriS, dom: Domain, x0: int, x1: int, y0: int, y1: int)
    requires
        x0 <= x1,
    ensures
        rows_s(t, dom, x0, x1, y0, y1) == rows_s(t, dom, x0, x1 - 1, y0, y1) + col_s(
            t,
            dom,
            x1,
            y0,
            y1,
        ),
    decreases x1 - x0,
{
    if x0 == x1 {
        assert(rows_s(t, dom, x0, x1 - 1, y0, y1) =~= Seq::<EmitS>::empty());
        assert(rows_s(t, dom, x1 + 1, x1, y0, y1) =~= Seq::<EmitS>::empty());
        assert(rows_s(t, dom, x0, x1, y0, y1) =~= rows_s(t, dom, x0, x1 - 1, y0, y1) + col_s(
            t,
            dom,
            x1,
            y0,
            y1,
        ));
    } else {
        lemma_rows_snoc(t, dom, x0 + 1, x1, y0, y1);
        assert(rows_s(t, dom, x0, x1, y0, y1) =~= rows_s(t, dom, x0, x1 - 1, y0, y1) + col_s(
            t,
            dom,
            x1,
            y0,
            y1,
        ));
    }
}

/// All emitted records lie inside the domain with unit-interval locals.
pub open spec fn emit_wf(e: EmitS, dom: Domain) -> bool {
    &&& 0 <= e.px < dom.w
    &&& 0 <= e.py < dom.h
    &&& 0 <= e.lx <= FX_ONE
    &&& 0 <= e.ly <= FX_ONE
}

proof fn lemma_sq_range(a: int, b: int, m: int)
    by (nonlinear_arith)
    requires
        -m <= a <= m,
        -m <= b <= m,
        0 <= m,
    ensures
        -(m * m) <= a * b <= m * m,
{
}

proof fn lemma_num_div_unit(n: int, d: int)
    requires
        0 <= n <= d,
        0 < d,
    ensures
        0 <= tdiv(n * FX_ONE, d) <= FX_ONE,
{
    assert(0 <= n * FX_ONE) by (nonlinear_arith)
        requires
            0 <= n,
    ;
    assert(n * FX_ONE <= d * FX_ONE) by (nonlinear_arith)
        requires
            0 <= n <= d,
    ;
    vstd::arithmetic::div_mod::lemma_div_pos_is_pos(n * FX_ONE, d);
    vstd::arithmetic::div_mod::lemma_div_is_ordered(n * FX_ONE, d * FX_ONE, d);
    vstd::arithmetic::div_mod::lemma_div_multiples_vanish(FX_ONE as int, d);
}

/// Rasterise a triangle over its bounding box, without seam handling.
///
/// Emits exactly the column-major scan of covered pixels, each wrapped
/// into the domain.
#[verifier::rlimit(100)]
pub fn raster_direct(t: Tri, dom: Domain) -> (res: Vec<Emit>)
    requires
        dom.wf(),
        tri_bounded(t@, TRI_WORK_LIMIT as int),
    ensures
        emits_view(res@) == raster_direct_s(t@, dom),
        forall|i: int|
            0 <= i < res@.len() ==> emit_wf(#[trigger] res@[i]@, dom),
{
    let ghost gt: TriS = t@;
    let xmin = min3e(round_px(t.a.x), round_px(t.b.x), round_px(t.c.x));
    let xmax = max3e(round_px(t.a.x), round_px(t.b.x), round_px(t.c.x));
    let ymin = min3e(round_px(t.a.y), round_px(t.b.y), round_px(t.c.y));
    let ymax = max3e(round_px(t.a.y), round_px(t.b.y), round_px(t.c.y));

    // orient the triangle counter-clockwise
    let l1x0: i64 = t.b.x - t.a.x;
    let l1y0: i64 = t.b.y - t.a.y;
    let l2x0: i64 = t.c.x - t.a.x;
    let l2y0: i64 = t.c.y - t.a.y;
    proof {
        lemma_sq_range(l1x0 as int, l2y0 as int, 0x8000_0000_0000);
        lemma_sq_range(l2x0 as int, l1y0 as int, 0x8000_0000_0000);
    }
    let det0: i128 = (l1x0 as i128) * (l2y0 as i128) - (l2x0 as i128) * (l1y0 as i128);
    let flipped: bool = det0 < 0;
    let (bx, by, cx, cy): (i64, i64, i64, i64) = if flipped {
        (t.c.x, t.c.y, t.b.x, t.b.y)
    } else {
        (t.b.x, t.b.y, t.c.x, t.c.y)
    };
    let det: i128 = if flipped {
        -det0
    } else {
        det0
    };
    let ghost o: TriS = oriented_s(gt);
    proof {
        lemma_det_swap(gt);
        assert(o.bx == bx as int && o.by == by as int && o.cx == cx as int && o.cy == cy as int);
        assert(det as int == det_s(o));
    }
    let mut res: Vec<Emit> = Vec::new();
    let mut x: i64 = xmin;
    while x <= xmax
        invariant
            dom.wf(),
            tri_bounded(gt, TRI_WORK_LIMIT as int),
            o == oriented_s(gt),
            bx as int == o.bx && by as int == o.by && cx as int == o.cx && cy as int == o.cy,
            t.a.x as int == o.ax && t.a.y as int == o.ay,
            det as int == det_s(o),
            flipped == flipped_s(gt),
            xmin as int == xmin_s(gt) && xmax as int == xmax_s(gt),
            ymin as int == ymin_s(gt) && ymax as int == ymax_s(gt),
            -0x4001 <= xmin && xmin <= x && x <= xmax + 1 && xmax <= 0x4001,
            -0x4001 <= ymin && ymin <= ymax + 1 && ymax <= 0x4001,
            -0x8000_0000_0000_0000_0000_0000 <= (det as int) <= 0x8000_0000_0000_0000_0000_0000,
            emits_view(res@) == rows_s(gt, dom, xmin as int, x - 1, ymin as int, ymax as int),
            forall|i: int| 0 <= i < res@.len() ==> emit_wf(#[trigger] res@[i]@, dom),
        decreases xmax + 1 - x,
    {
        let mut y: i64 = ymin;
        while y <= ymax
            invariant
                dom.wf(),
                tri_bounded(gt, TRI_WORK_LIMIT as int),
                o == oriented_s(gt),
                bx as int == o.bx && by as int == o.by && cx as int == o.cx && cy as int == o.cy,
                t.a.x as int == o.ax && t.a.y as int == o.ay,
                det as int == det_s(o),
                flipped == flipped_s(gt),
                -0x4001 <= x <= 0x4001,
                -0x4001 <= ymin && ymin <= y && y <= ymax + 1 && ymax <= 0x4001,
                -0x8000_0000_0000_0000_0000_0000 <= (det as int)
                    <= 0x8000_0000_0000_0000_0000_0000,
                emits_view(res@) == rows_s(gt, dom, xmin as int, x - 1, ymin as int, ymax as int)
                    + col_s(gt, dom, x as int, ymin as int, y - 1),
                forall|i: int| 0 <= i < res@.len() ==> emit_wf(#[trigger] res@[i]@, dom),
                xmin as int == xmin_s(gt) && xmax as int == xmax_s(gt),
                ymin as int == ymin_s(gt) && ymax as int == ymax_s(gt),
                -0x4001 <= xmin && xmin <= x && x <= xmax && xmax <= 0x4001,
            decreases ymax + 1 - y,
        {
            proof {
                lemma_col_snoc(gt, dom, x as int, ymin as int, y as int);
            }
            let vrx: i64 = x * FX_ONE - t.a.x;
            let vry: i64 = y * FX_ONE - t.a.y;
            let e1x: i64 = bx - t.a.x;
            let e1y: i64 = by - t.a.y;
            let e2x: i64 = cx - t.a.x;
            let e2y: i64 = cy - t.a.y;
            proof {
                lemma_sq_range(vrx as int, e2y as int, 0x8000_0000_0000);
                lemma_sq_range(vry as int, e2x as int, 0x8000_0000_0000);
                lemma_sq_range(e1x as int, vry as int, 0x8000_0000_0000);
                lemma_sq_range(e1y as int, vrx as int, 0x8000_0000_0000);
            }
            let na: i128 = (vrx as i128) * (e2y as i128) - (vry as i128) * (e2x as i128);
            let nb: i128 = (e1x as i128) * (vry as i128) - (e1y as i128) * (vrx as i128);
            if det > 0 && na >= 0 && nb >= 0 && na + nb <= det {
                proof {
                    assert(covered_s(gt, x as int, y as int));
                    lemma_num_div_unit(na as int, det as int);
                    lemma_num_div_unit(nb as int, det as int);
                    assert((na as int) * (FX_ONE as int) <= (det as int) * (FX_ONE as int))
                        by (nonlinear_arith)
                        requires
                            0 <= (na as int) <= (det as int),
                    ;
                    assert((det as int) * (FX_ONE as int)
                        <= 0x8000_0000_0000_0000_0000_0000 * 0x1_0000_0000) by (nonlinear_arith)
                        requires
                            0 <= (det as int) <= 0x8000_0000_0000_0000_0000_0000,
                    ;
                    assert((nb as int) * (FX_ONE as int) <= (det as int) * (FX_ONE as int))
                        by (nonlinear_arith)
                        requires
                            0 <= (nb as int) <= (det as int),
                    ;
                    assert(0 <= (na as int) * (FX_ONE as int)) by (nonlinear_arith)
                        requires
                            0 <= (na as int),
                    ;
                    assert(0 <= (nb as int) * (FX_ONE as int)) by (nonlinear_arith)
                        requires
                            0 <= (nb as int),
                    ;
                }
                let la: i64 = (((na as u128) * (FX_ONE as u128)) / (det as u128)) as i64;
                let lb: i64 = (((nb as u128) * (FX_ONE as u128)) / (det as u128)) as i64;
                proof {
                    assert(la as int == tdiv(num_a_s(o, x as int, y as int) * FX_ONE, det as int));
                    assert(lb as int == tdiv(num_b_s(o, x as int, y as int) * FX_ONE, det as int));
                }
                let px = euclid_mod(x, dom.w as i64) as u32;
                let py = euclid_mod(y, dom.h as i64) as u32;
                let e = if flipped {
                    Emit { px, py, lx: lb, ly: la }
                } else {
                    Emit { px, py, lx: la, ly: lb }
                };
                proof {
                    assert(e@ == emit_s(gt, dom, x as int, y as int));
                }
                let ghost prev: Seq<Emit> = res@;
                res.push(e);
                proof {
                    assert(emits_view(res@) =~= emits_view(prev).push(e@));
                    assert(emits_view(prev).push(e@) =~= emits_view(prev) + seq![
                        emit_s(gt, dom, x as int, y as int),
                    ]);
                    assert(emits_view(res@) =~= rows_s(
                        gt,
                        dom,
                        xmin as int,
                        x - 1,
                        ymin as int,
                        ymax as int,
                    ) + col_s(gt, dom, x as int, ymin as int, y as int));
                }
            } else {
                proof {
                    assert(!covered_s(gt, x as int, y as int));
                    assert(col_s(gt, dom, x as int, ymin as int, y as int) =~= col_s(
                        gt,
                        dom,
                        x as int,
                        ymin as int,
                        y - 1,
                    ));
                }
            }
            y = y + 1;
        }
        proof {
            lemma_rows_snoc(gt, dom, xmin as int, x as int, ymin as int, ymax as int);
        }
        x = x + 1;
    }
    res
}

/// Whether the triangle's pixel extent along `x` exceeds half the domain:
/// the heuristic that it crosses the periodic seam there.
pub open spec fn wide_x_s(t: TriS, dom: Domain) -> bool {
    xmax_s(t) - xmin_s(t) > (dom.w as int) / 2
}

/// Whether the triangle's pixel extent along `y` exceeds half the domain.
pub open spec fn wide_y_s(t: TriS, dom: Domain) -> bool {
    ymax_s(t) - ymin_s(t) > (dom.h as int) / 2
}

/// Shift every vertex on the low side of the domain's `x` midline up by a
/// full domain width, so a seam-crossing triangle becomes contiguous.
pub open spec fn slide_x_s(t: TriS, dom: Domain) -> TriS {
    let half = (dom.w as int) * (FX_HALF as int);
    let full = (dom.w as int) * (FX_ONE as int);
    TriS {
        ax: if t.ax < half {
            t.ax + full
        } else {
            t.ax
        },
        ay: t.ay,
        bx: if t.bx < half {
            t.bx + full
        } else {
            t.bx
        },
        by: t.by,
        cx: if t.cx < half {
            t.cx + full
        } else {
            t.cx
        },
        cy: t.cy,
    }
}

/// Shift every vertex on the low side of the domain's `y` midline up by a
/// full domain height.
pub open spec fn slide_y_s(t: TriS, dom: Domain) -> TriS {
    let half = (dom.h as int) * (FX_HALF as int);
    let full = (dom.h as int) * (FX_ONE as int);
    TriS {
        ax: t.ax,
        ay: if t.ay < half {
            t.ay + full
        } else {
            t.ay
        },
        bx: t.bx,
        by: if t.by < half {
            t.by + full
        } else {
            t.by
        },
        cx: t.cx,
        cy: if t.cy < half {
            t.cy + full
        } else {
            t.cy
        },
    }
}

/// What wrap-aware rasterisation emits: while a still-permitted axis is
/// wider than half its domain, slide that axis and recurse with the axis
/// spent; otherwise rasterise directly.  Each axis slides at most once, so
/// the recursion terminates structurally.
pub open spec fn tri_emits_s(t: TriS, dom: Domain, allow_x: bool, allow_y: bool) -> Seq<EmitS>
    decreases (if allow_x {
        1int
    } else {
        0int
    }) + (if allow_y {
        1int
    } else {
        0int
    }),
{
    if allow_x && wide_x_s(t, dom) {
        tri_emits_s(slide_x_s(t, dom), dom, false, allow_y)
    } else if allow_y && wide_y_s(t, dom) {
        tri_emits_s(slide_y_s(t, dom), dom, allow_x, false)
    } else {
        raster_direct_s(t, dom)
    }
}

/// Slide the triangle across the `x` seam.
pub fn slide_x(t: Tri, dom: Domain) -> (r: Tri)
    requires
        dom.wf(),
        tri_bounded(t@, TRI_LIMIT as int),
    ensures
        r@ == slide_x_s(t@, dom),
        tri_bounded(r@, TRI_LIMIT + 0x1000 * FX_ONE),
{
    let half: i64 = (dom.w as i64) * FX_HALF;
    let full: i64 = (dom.w as i64) * FX_ONE;
    Tri {
        a: Pt2 {
            x: if t.a.x < half {
                t.a.x + full
            } else {
                t.a.x
            },
            y: t.a.y,
        },
        b: Pt2 {
            x: if t.b.x < half {
                t.b.x + full
            } else {
                t.b.x
            },
            y: t.b.y,
        },
        c: Pt2 {
            x: if t.c.x < half {
                t.c.x + full
            } else {
                t.c.x
            },
            y: t.c.y,
        },
    }
}

/// Slide the triangle across the `y` seam.
pub fn slide_y(t: Tri, dom: Domain) -> (r: Tri)
    requires
        dom.wf(),
        tri_bounded(t@, TRI_LIMIT + 0x1000 * FX_ONE),
    ensures
        r@ == slide_y_s(t@, dom),
        tri_bounded(r@, TRI_WORK_LIMIT as int),
{
    let half: i64 = (dom.h as i64) * FX_HALF;
    let full: i64 = (dom.h as i64) * FX_ONE;
    Tri {
        a: Pt2 {
            x: t.a.x,
            y: if t.a.y < half {
                t.a.y + full
            } else {
                t.a.y
            },
        },
        b: Pt2 {
            x: t.b.x,
            y: if t.b.y < half {
                t.b.y + full
            } else {
                t.b.y
            },
        },
        c: Pt2 {
            x: t.c.x,
            y: if t.c.y < half {
                t.c.y + full
            } else {
                t.c.y
            },
        },
    }
}

/// Rasterise one triangle with wraparound handling.
///
/// If the pixel bounding box spans more than half the domain along an
/// axis, the triangle is taken to cross that axis's seam: vertices below
/// the domain midline are shifted up by a full domain before rasterising,
/// and emitted pixels wrap back modulo the domain.  Each axis is treated
/// at most once.
pub fn triangle_from(t: Tri, dom: Domain) -> (res: Vec<Emit>)
    requires
        dom.wf(),
        tri_bounded(t@, TRI_LIMIT as int),
    ensures
        emits_view(res@) == tri_emits_s(t@, dom, true, true),
        forall|i: int|
            0 <= i < res@.len() ==> emit_wf(#[trigger] res@[i]@, dom),
{
    let xmn = min3e(round_px(t.a.x), round_px(t.b.x), round_px(t.c.x));
    let xmx = max3e(round_px(t.a.x), round_px(t.b.x), round_px(t.c.x));
    let t1: Tri = if xmx - xmn > (dom.w / 2) as i64 {
        slide_x(t, dom)
    } else {
        t
    };
    let ymn = min3e(round_px(t1.a.y), round_px(t1.b.y), round_px(t1.c.y));
    let ymx = max3e(round_px(t1.a.y), round_px(t1.b.y), round_px(t1.c.y));
    let t2: Tri = if ymx - ymn > (dom.h / 2) as i64 {
        slide_y(t1, dom)
    } else {
        t1
    };
    proof {
        let gt = t@;
        let tx = slide_x_s(gt, dom);
        let ty = slide_y_s(gt, dom);
        if wide_x_s(gt, dom) {
            assert(t1@ == tx);
            assert(tri_emits_s(gt, dom, true, true) == tri_emits_s(tx, dom, false, true));
            if wide_y_s(tx, dom) {
                assert(t2@ == slide_y_s(tx, dom));
                assert(tri_emits_s(tx, dom, false, true) == tri_emits_s(
                    slide_y_s(tx, dom),
                    dom,
                    false,
                    false,
                ));
                assert(tri_emits_s(slide_y_s(tx, dom), dom, false, false) == raster_direct_s(
                    t2@,
                    dom,
                ));
            } else {
                assert(t2@ == tx);
                assert(tri_emits_s(tx, dom, false, true) == raster_direct_s(tx, dom));
            }
        } else {
            assert(t1@ == gt);
            if wide_y_s(gt, dom) {
                assert(t2@ == ty);
                assert(tri_emits_s(gt, dom, true, true) == tri_emits_s(ty, dom, true, false));
                assert(ty.ax == gt.ax && ty.bx == gt.bx && ty.cx == gt.cx);
                assert(xmin_s(ty) == xmin_s(gt));
                assert(xmax_s(ty) == xmax_s(gt));
                assert(!wide_x_s(ty, dom));
                assert(tri_emits_s(ty, dom, true, false) == raster_direct_s(ty, dom));
            } else {
                assert(t2@ == gt);
                assert(tri_emits_s(gt, dom, true, true) == raster_direct_s(gt, dom));
            }
        }
    }
    raster_direct(t2, dom)
}

/// Invert a local coordinate for the second triangle of a quad.
pub open spec fn invert_emit_s(e: EmitS) -> EmitS {
    EmitS { px: e.px, py: e.py, lx: FX_ONE - e.lx, ly: FX_ONE - e.ly }
}

/// What `rasterize_quad` emits: the first triangle's emits, then the
/// second's with local coordinates inverted so that both are expressed in
/// the coordinate frame anchored at the quad's low corner.
pub open spec fn quad_emits_s(c00: TriS, c11: TriS, dom: Domain) -> Seq<EmitS> {
    tri_emits_s(c00, dom, true, true) + tri_emits_s(c11, dom, true, true).map_values(
        |e: EmitS| invert_emit_s(e),
    )
}

/// Rasterise the quad of four projected grid corners as two triangles
/// sharing the diagonal edge `c10 - c01`.
///
/// The second triangle's local coordinates are emitted inverted
/// (`1 - l`), so every emitted coordinate measures from the `c00` corner.
pub fn rasterize_quad(c00: Pt2, c10: Pt2, c01: Pt2, c11: Pt2, dom: Domain) -> (res: Vec<Emit>)
    requires
        dom.wf(),
        tri_bounded((Tri { a: c00, b: c10, c: c01 })@, TRI_LIMIT as int),
        tri_bounded((Tri { a: c11, b: c10, c: c01 })@, TRI_LIMIT as int),
    ensures
        emits_view(res@) == quad_emits_s(
            (Tri { a: c00, b: c10, c: c01 })@,
            (Tri { a: c11, b: c10, c: c01 })@,
            dom,
        ),
        forall|i: int|
            0 <= i < res@.len() ==> emit_wf(#[trigger] res@[i]@, dom),
{
    let t1 = Tri { a: c00, b: c10, c: c01 };
    let t2 = Tri { a: c11, b: c10, c: c01 };
    let mut res = triangle_from(t1, dom);
    let second = triangle_from(t2, dom);
    let ghost base: Seq<EmitS> = emits_view(res@);
    let ghost extra: Seq<EmitS> = tri_emits_s(t2@, dom, true, true);
    let mut j: usize = 0;
    while j < second.len()
        invariant
            dom.wf(),
            base == tri_emits_s(t1@, dom, true, true),
            extra == tri_emits_s(t2@, dom, true, true),
            emits_view(second@) == extra,
            forall|i: int| 0 <= i < second@.len() ==> emit_wf(#[trigger] second@[i]@, dom),
            0 <= j <= second.len(),
            emits_view(res@) == base + extra.subrange(0, j as int).map_values(
                |e: EmitS| invert_emit_s(e),
            ),
            forall|i: int| 0 <= i < res@.len() ==> emit_wf(#[trigger] res@[i]@, dom),
        decreases second.len() - j,
    {
        let e = second[j];
        proof {
            assert(emit_wf(second@[j as int]@, dom));
        }
        let e2 = Emit { px: e.px, py: e.py, lx: FX_ONE - e.lx, ly: FX_ONE - e.ly };
        proof {
            assert(e@ == extra[j as int]);
            assert(e2@ == invert_emit_s(extra[j as int]));
        }
        let ghost prev: Seq<Emit> = res@;
        res.push(e2);
        proof {
            assert(emits_view(res@) =~= emits_view(prev).push(e2@));
            assert(extra.subrange(0, j + 1).map_values(|e: EmitS| invert_emit_s(e))
                =~= extra.subrange(0, j as int).map_values(|e: EmitS| invert_emit_s(e)).push(
                invert_emit_s(extra[j as int]),
            ));
            assert(emits_view(res@) =~= base + extra.subrange(0, j + 1).map_values(
                |e: EmitS| invert_emit_s(e),
            ));
        }
        j = j + 1;
    }
    proof {
        assert(extra.subrange(0, extra.len() as int) =~= extra);
        assert(emits_view(res@) =~= base + extra.map_values(|e: EmitS| invert_emit_s(e)));
    }
    res
}

/// The triangle moved a whole number of domain widths along `x`.
pub open spec fn translate_x_s(t: TriS, d: int) -> TriS {
    TriS { ax: t.ax + d, ay: t.ay, bx: t.bx + d, by: t.by, cx: t.cx + d, cy: t.cy }
}

proof fn lemma_covered_translate_x(t: TriS, k: int, x: int, y: int)
    ensures
        covered_s(translate_x_s(t, k * FX_ONE), x + k, y) == covered_s(t, x, y),
        local_s(translate_x_s(t, k * FX_ONE), x + k, y) == local_s(t, x, y),
{
    let tt = translate_x_s(t, k * FX_ONE);
    assert(det_s(tt) == det_s(t));
    assert(swapped_s(tt) == translate_x_s(swapped_s(t), k * FX_ONE));
    assert(oriented_s(tt) == translate_x_s(oriented_s(t), k * FX_ONE));
    let o = oriented_s(t);
    let ot = oriented_s(tt);
    assert(det_s(ot) == det_s(o));
    assert((x + k) * FX_ONE - ot.ax == x * FX_ONE - o.ax) by (nonlinear_arith)
        requires
            ot.ax == o.ax + k * FX_ONE,
    ;
    assert(num_a_s(ot, x + k, y) == num_a_s(o, x, y));
    assert(num_b_s(ot, x + k, y) == num_b_s(o, x, y));
}

proof fn lemma_rnd_shift(v: int, k: int)
    requires
        0 <= v,
        0 <= k,
    ensures
        rnd_s(v + k * FX_ONE) == rnd_s(v) + k,
{
    assert(0 <= k * FX_ONE) by (nonlinear_arith)
        requires
            0 <= k,
    ;
    vstd::arithmetic::div_mod::lemma_hoist_over_denominator(
        v + FX_HALF,
        k,
        FX_ONE as nat,
    );
}

proof fn lemma_bbox_translate(t: TriS, k: int)
    requires
        0 <= t.ax && 0 <= t.bx && 0 <= t.cx,
        0 <= k,
    ensures
        xmin_s(translate_x_s(t, k * FX_ONE)) == xmin_s(t) + k,
        xmax_s(translate_x_s(t, k * FX_ONE)) == xmax_s(t) + k,
        ymin_s(translate_x_s(t, k * FX_ONE)) == ymin_s(t),
        ymax_s(translate_x_s(t, k * FX_ONE)) == ymax_s(t),
{
    lemma_rnd_shift(t.ax, k);
    lemma_rnd_shift(t.bx, k);
    lemma_rnd_shift(t.cx, k);
}

proof fn lemma_col_translate(t: TriS, dom: Domain, x: int, y0: int, y1: int)
    requires
        dom.wf(),
    ensures
        col_s(translate_x_s(t, dom.w as int * FX_ONE), dom, x + dom.w, y0, y1) == col_s(
            t,
            dom,
            x,
            y0,
            y1,
        ),
    decreases y1 + 1 - y0,
{
    let k = dom.w as int;
    let tt = translate_x_s(t, k * FX_ONE);
    if y0 > y1 {
    } else {
        lemma_covered_translate_x(t, k, x, y0);
        vstd::arithmetic::div_mod::lemma_mod_multiples_vanish(1, x, k);
        assert((x + k) % k == x % k);
        assert(emit_s(tt, dom, x + k, y0) == emit_s(t, dom, x, y0));
        lemma_col_translate(t, dom, x, y0 + 1, y1);
    }
}

proof fn lemma_rows_translate(t: TriS, dom: Domain, x0: int, x1: int, y0: int, y1: int)
    requires
        dom.wf(),
    ensures
        rows_s(translate_x_s(t, dom.w as int * FX_ONE), dom, x0 + dom.w, x1 + dom.w, y0, y1)
            == rows_s(t, dom, x0, x1, y0, y1),
    decreases x1 + 1 - x0,
{
    if x0 > x1 {
    } else {
        lemma_col_translate(t, dom, x0, y0, y1);
        lemma_rows_translate(t, dom, x0 + 1, x1, y0, y1);
    }
}

/// Rasterising a triangle moved one whole domain width along `x` emits
/// exactly the same records: the wrap modulo undoes the move.
pub proof fn lemma_raster_translate_x(t: TriS, dom: Domain)
    requires
        dom.wf(),
        0 <= t.ax && 0 <= t.bx && 0 <= t.cx,
    ensures
        raster_direct_s(translate_x_s(t, dom.w as int * FX_ONE), dom) == raster_direct_s(
            t,
            dom,
        ),
{
    lemma_bbox_translate(t, dom.w as int);
    lemma_rows_translate(t, dom, xmin_s(t), xmax_s(t), ymin_s(t), ymax_s(t));
}

/// LAW: a triangle that crosses the `x` seam — its bounding box is wider
/// than half the domain — rasterises to exactly what one gets by first
/// shifting its low-side vertices up by a full domain width and then
/// rasterising directly, every emitted pixel wrapped modulo the domain.
pub proof fn lemma_seam_equals_slide(t: TriS, dom: Domain)
    requires
        dom.wf(),
        wide_x_s(t, dom),
        !wide_y_s(slide_x_s(t, dom), dom),
    ensures
        tri_emits_s(t, dom, true, true) == raster_direct_s(slide_x_s(t, dom), dom),
{
    let tx = slide_x_s(t, dom);
    assert(tri_emits_s(t, dom, true, true) == tri_emits_s(tx, dom, false, true));
    assert(tri_emits_s(tx, dom, false, true) == raster_direct_s(tx, dom));
}

/// LAW: the same, for the `y` seam: a triangle taller than half the
/// domain but not wider than half of it rasterises to exactly the direct
/// rasterisation of its `y`-slid form.
pub proof fn lemma_seam_equals_slide_y(t: TriS, dom: Domain)
    requires
        dom.wf(),
        !wide_x_s(t, dom),
        wide_y_s(t, dom),
    ensures
        tri_emits_s(t, dom, true, true) == raster_direct_s(slide_y_s(t, dom), dom),
{
    let ty = slide_y_s(t, dom);
    assert(tri_emits_s(t, dom, true, true) == tri_emits_s(ty, dom, true, false));
    assert(ty.ax == t.ax && ty.bx == t.bx && ty.cx == t.cx);
    assert(xmin_s(ty) == xmin_s(t));
    assert(xmax_s(ty) == xmax_s(t));
    assert(!wide_x_s(ty, dom));
    assert(tri_emits_s(ty, dom, true, false) == raster_direct_s(ty, dom));
}

/// LAW: for a triangle that lies entirely inside the domain, on the low
/// side of the `x` midline, and is not wider than half the domain on
/// either axis, the wraparound-split path changes nothing: wrap-aware
/// rasterisation equals direct rasterisation, and even forcing the seam
/// slide would emit exactly the same records.
pub proof fn lemma_inside_unaffected_by_wrap(t: TriS, dom: Domain)
    requires
        dom.wf(),
        0 <= t.ax < dom.w as int * (FX_HALF as int),
        0 <= t.bx < dom.w as int * (FX_HALF as int),
        0 <= t.cx < dom.w as int * (FX_HALF as int),
        !wide_x_s(t, dom),
        !wide_y_s(t, dom),
    ensures
        tri_emits_s(t, dom, true, true) == raster_direct_s(t, dom),
        raster_direct_s(slide_x_s(t, dom), dom) == raster_direct_s(t, dom),
{
    assert(tri_emits_s(t, dom, true, true) == raster_direct_s(t, dom));
    assert(slide_x_s(t, dom) == translate_x_s(t, dom.w as int * FX_ONE)) by {
        assert(dom.w as int * (FX_ONE as int) == 2 * (dom.w as int * (FX_HALF as int)))
            by (nonlinear_arith);
    }
    lemma_raster_translate_x(t, dom);
}

/// Smallest of three pixel indices.
pub fn min3e(a: i64, b: i64, c: i64) -> (r: i64)
    ensures
        r == min3(a as int, b as int, c as int),
{
    if a <= b && a <= c {
        a
    } else if b <= c {
        b
    } else {
        c
    }
}

/// Largest of three pixel indices.
pub fn max3e(a: i64, b: i64, c: i64) -> (r: i64)
    ensures
        r == max3(a as int, b as int, c as int),
{
    if a >= b && a >= c {
        a
    } else if b >= c {
        b
    } else {
        c
    }
}

} // verus!
