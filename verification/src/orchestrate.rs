//! Reverse-mode scaffolding: the per-pixel forward map, the per-cell
//! rasterisation step, and the deterministic merge of pixel writes.
//!
//! Parallel callers fan these pure functions out over pixels and cells;
//! because every function here is deterministic in its arguments and the
//! merge folds writes in list order, the final raster depends only on the
//! inputs, never on scheduling.

use vstd::prelude::*;
use crate::fx::FX_ONE;
use crate::raster::Pt2;
use crate::raster::Tri;
use crate::raster::Domain;
use crate::raster::Emit;
use crate::raster::EmitS;
use crate::raster::TRI_LIMIT;
use crate::raster::quad_emits_s;
use crate::raster::rasterize_quad;
use crate::raster::emits_view;
use crate::raster::emit_wf;

verus! {

/// Largest raster side the merge buffer accepts, in pixels.
pub const BUF_MAX_DIM: u32 = 8192;

/// An entry a forward map may hold: either nothing (the projection of that
/// pixel failed) or a point within the rasteriser's range.
pub open spec fn entry_ok(e: Option<Pt2>) -> bool {
    match e {
        None => true,
        Some(p) => -TRI_LIMIT <= p.x <= TRI_LIMIT && -TRI_LIMIT <= p.y <= TRI_LIMIT,
    }
}

/// The forward map of a reverse render: for every pixel of a `w x h` grid,
/// the forward-projected coordinate it maps to, or nothing where the
/// projection failed.  Keys are exactly the grid pixels, row-major.
pub struct ForwardMap {
    pub w: u32,
    pub h: u32,
    pub entries: Vec<Option<Pt2>>,
}

/// The mathematical value of a [`ForwardMap`].
pub ghost struct FwdS {
    pub w: int,
    pub h: int,
    pub entries: Seq<Option<Pt2>>,
}

impl View for ForwardMap {
    type V = FwdS;

    open spec fn view(&self) -> FwdS {
        FwdS { w: self.w as int, h: self.h as int, entries: self.entries@ }
    }
}

/// The entry of grid pixel `(x, y)`.
pub open spec fn fwd_at(m: FwdS, x: int, y: int) -> Option<Pt2> {
    m.entries[y * m.w + x]
}

impl ForwardMap {
    pub open spec fn wf(self) -> bool {
        &&& 0 < self.w <= BUF_MAX_DIM
        &&& 0 < self.h <= BUF_MAX_DIM
        &&& self.entries@.len() == self.w as int * self.h as int
        &&& forall|i: int| 0 <= i < self.entries@.len() ==> entry_ok(#[trigger] self.entries@[i])
    }

    /// Assemble a forward map from row-major entries; `None` when the
    /// entry count does not match the grid or an entry is out of range.
    pub fn from_entries(w: u32, h: u32, entries: Vec<Option<Pt2>>) -> (r: Option<ForwardMap>)
        requires
            0 < w <= BUF_MAX_DIM,
            0 < h <= BUF_MAX_DIM,
        ensures
            match r {
                Some(m) => {
                    &&& m.wf()
                    &&& m@.w == w && m@.h == h
                    &&& m@.entries == entries@
                },
                None => entries@.len() != w as int * h as int || exists|i: int|
                    0 <= i < entries@.len() && !entry_ok(#[trigger] entries@[i]),
            },
    {
        proof {
            assert(w as int * h as int <= 0x2000 * 0x2000) by (nonlinear_arith)
                requires
                    0 <= w as int <= 0x2000,
                    0 <= h as int <= 0x2000,
            ;
        }
        if entries.len() != (w as usize) * (h as usize) {
            return None;
        }
        let mut i: usize = 0;
        while i < entries.len()
            invariant
                0 <= i <= entries@.len(),
                forall|k: int| 0 <= k < i ==> entry_ok(#[trigger] entries@[k]),
            decreases entries@.len() - i,
        {
            match entries[i] {
                None => {},
                Some(p) => {
                    if p.x < -TRI_LIMIT || p.x > TRI_LIMIT || p.y < -TRI_LIMIT || p.y
                        > TRI_LIMIT {
                        return None;
                    }
                },
            }
            i = i + 1;
        }
        Some(ForwardMap { w, h, entries })
    }

    /// Read the entry of grid pixel `(x, y)`.
    pub fn get(&self, x: u32, y: u32) -> (r: Option<Pt2>)
        requires
            self.wf(),
            x < self.w,
            y < self.h,
        ensures
            r == fwd_at(self@, x as int, y as int),
            entry_ok(r),
    {
        proof {
            lemma_grid_index(self.w as int, self.h as int, x as int, y as int);
            assert(y as int * self.w as int <= 0x2000 * 0x2000) by (nonlinear_arith)
                requires
                    0 <= y as int <= 0x2000,
                    0 <= self.w as int <= 0x2000,
            ;
        }
        self.entries[(y as usize) * (self.w as usize) + (x as usize)]
    }
}

proof fn lemma_grid_index(w: int, h: int, x: int, y: int)
    by (nonlinear_arith)
    requires
        0 <= x < w,
        0 <= y < h,
    ensures
        0 <= y * w + x < w * h,
{
}

/// One pending sample: output pixel `(x, y)` takes its colour from
/// fixed-point source coordinate `(sx, sy)`.
#[derive(Clone, Copy, Debug, PartialEq, Eq, Structural)]
pub struct SampleWrite {
    pub x: u32,
    pub y: u32,
    pub sx: i64,
    pub sy: i64,
}

/// The mathematical value of a [`SampleWrite`].
pub ghost struct SampleWriteS {
    pub x: int,
    pub y: int,
    pub sx: int,
    pub sy: int,
}

impl View for SampleWrite {
    type V = SampleWriteS;

    open spec fn view(&self) -> SampleWriteS {
        SampleWriteS { x: self.x as int, y: self.y as int, sx: self.sx as int, sy: self.sy as int }
    }
}

/// The write an emitted pixel of cell `(px, py)` turns into: the sample
/// coordinate is the cell corner plus the local coordinate.
pub open spec fn write_of_emit(px: int, py: int, e: EmitS) -> SampleWriteS {
    SampleWriteS {
        x: e.px,
        y: e.py,
        sx: px * FX_ONE + e.lx,
        sy: py * FX_ONE + e.ly,
    }
}

/// What `cell_emits` returns: nothing when a corner of the cell is missing
/// from the map, else one write per quad-rasterised pixel.
pub open spec fn cell_emits_s(m: FwdS, px: int, py: int, dom: Domain) -> Seq<SampleWriteS> {
    match (fwd_at(m, px, py), fwd_at(m, px + 1, py), fwd_at(m, px, py + 1), fwd_at(
        m,
        px + 1,
        py + 1,
    )) {
        (Some(v1), Some(v2), Some(v3), Some(v4)) => quad_emits_s(
            (Tri { a: v1, b: v2, c: v3 })@,
            (Tri { a: v4, b: v2, c: v3 })@,
            dom,
        ).map_values(|e: EmitS| write_of_emit(px, py, e)),
        _ => Seq::empty(),
    }
}

/// Rasterise one grid cell of the forward map into pending sample writes.
///
/// The cell's four corners are looked up in the map; a cell with any
/// missing corner is skipped (the raster's edge), otherwise the quad they
/// span is rasterised and each covered pixel becomes a write sampling at
/// the cell corner plus the local coordinate.
pub fn cell_emits(m: &ForwardMap, px: u32, py: u32, dom: Domain) -> (res: Vec<SampleWrite>)
    requires
        m.wf(),
        px + 1 < m.w,
        py + 1 < m.h,
        dom.wf(),
    ensures
        res@.map_values(|w: SampleWrite| w@) == cell_emits_s(m@, px as int, py as int, dom),
        forall|i: int|
            0 <= i < res@.len() ==> 0 <= (#[trigger] res@[i]).x < dom.w && 0 <= res@[i].y < dom.h,
{
    let v1 = match m.get(px, py) {
        Some(v) => v,
        None => {
            let res: Vec<SampleWrite> = Vec::new();
            proof {
                assert(res@.map_values(|w: SampleWrite| w@) =~= Seq::<SampleWriteS>::empty());
            }
            return res;
        },
    };
    let v2 = match m.get(px + 1, py) {
        Some(v) => v,
        None => {
            let res: Vec<SampleWrite> = Vec::new();
            proof {
                assert(res@.map_values(|w: SampleWrite| w@) =~= Seq::<SampleWriteS>::empty());
            }
            return res;
        },
    };
    let v3 = match m.get(px, py + 1) {
        Some(v) => v,
        None => {
            let res: Vec<SampleWrite> = Vec::new();
            proof {
                assert(res@.map_values(|w: SampleWrite| w@) =~= Seq::<SampleWriteS>::empty());
            }
            return res;
        },
    };
    let v4 = match m.get(px + 1, py + 1) {
        Some(v) => v,
        None => {
            let res: Vec<SampleWrite> = Vec::new();
            proof {
                assert(res@.map_values(|w: SampleWrite| w@) =~= Seq::<SampleWriteS>::empty());
            }
            return res;
        },
    };
    let emits = rasterize_quad(v1, v2, v3, v4, dom);
    let ghost quad: Seq<EmitS> = emits_view(emits@);
    let mut res: Vec<SampleWrite> = Vec::new();
    let mut i: usize = 0;
    while i < emits.len()
        invariant
            dom.wf(),
            px < 0x2000 && py < 0x2000,
            emits_view(emits@) == quad,
            forall|k: int| 0 <= k < emits@.len() ==> emit_wf(#[trigger] emits@[k]@, dom),
            0 <= i <= emits@.len(),
            res@.map_values(|w: SampleWrite| w@) == quad.subrange(0, i as int).map_values(
                |e: EmitS| write_of_emit(px as int, py as int, e),
            ),
            forall|k: int|
                0 <= k < res@.len() ==> 0 <= (#[trigger] res@[k]).x < dom.w && 0 <= res@[k].y
                    < dom.h,
        decreases emits@.len() - i,
    {
        let e = emits[i];
        proof {
            assert(emit_wf(emits@[i as int]@, dom));
        }
        let w = SampleWrite {
            x: e.px,
            y: e.py,
            sx: (px as i64) * FX_ONE + e.lx,
            sy: (py as i64) * FX_ONE + e.ly,
        };
        let ghost prev: Seq<SampleWrite> = res@;
        res.push(w);
        proof {
            assert(w@ == write_of_emit(px as int, py as int, quad[i as int]));
            assert(res@.map_values(|w: SampleWrite| w@) =~= prev.map_values(
                |w: SampleWrite| w@,
            ).push(w@));
            assert(quad.subrange(0, i + 1).map_values(
                |e: EmitS| write_of_emit(px as int, py as int, e),
            ) =~= quad.subrange(0, i as int).map_values(
                |e: EmitS| write_of_emit(px as int, py as int, e),
            ).push(write_of_emit(px as int, py as int, quad[i as int])));
        }
        i = i + 1;
    }
    proof {
        assert(quad.subrange(0, quad.len() as int) =~= quad);
    }
    res
}

/// One resolved pixel write: output pixel `(x, y)` becomes `rgba`.
#[derive(Clone, Copy, Debug)]
pub struct PixelWrite {
    pub x: u32,
    pub y: u32,
    pub rgba: [u8; 4],
}

/// An output raster: `w x h` pixels, row-major.
pub struct Raster {
    pub w: u32,
    pub h: u32,
    pub data: Vec<[u8; 4]>,
}

impl Raster {
    pub open spec fn wf(self) -> bool {
        &&& 0 < self.w <= BUF_MAX_DIM
        &&& 0 < self.h <= BUF_MAX_DIM
        &&& self.data@.len() == self.w as int * self.h as int
    }

    /// A raster of the given size with every pixel set to `fill`.
    pub fn new_filled(w: u32, h: u32, fill: [u8; 4]) -> (r: Raster)
        requires
            0 < w <= BUF_MAX_DIM,
            0 < h <= BUF_MAX_DIM,
        ensures
            r.wf(),
            r.w == w && r.h == h,
            forall|i: int| 0 <= i < r.data@.len() ==> r.data@[i] == fill,
    {
        proof {
            assert(w as int * h as int <= 0x2000 * 0x2000) by (nonlinear_arith)
                requires
                    0 <= w as int <= 0x2000,
                    0 <= h as int <= 0x2000,
            ;
        }
        let n: usize = (w as usize) * (h as usize);
        let mut data: Vec<[u8; 4]> = Vec::new();
        let mut i: usize = 0;
        while i < n
            invariant
                0 <= i <= n,
                data@.len() == i as int,
                forall|k: int| 0 <= k < data@.len() ==> data@[k] == fill,
            decreases n - i,
        {
            data.push(fill);
            i = i + 1;
        }
        Raster { w, h, data }
    }

    /// Read pixel `(x, y)`.
    pub fn pixel(&self, x: u32, y: u32) -> (r: [u8; 4])
        requires
            self.wf(),
            x < self.w,
            y < self.h,
        ensures
            r == self.data@[y as int * self.w as int + x as int],
    {
        proof {
            lemma_grid_index(self.w as int, self.h as int, x as int, y as int);
            assert(y as int * self.w as int <= 0x2000 * 0x2000) by (nonlinear_arith)
                requires
                    0 <= y as int <= 0x2000,
                    0 <= self.w as int <= 0x2000,
            ;
        }
        self.data[(y as usize) * (self.w as usize) + (x as usize)]
    }
}

/// One write applied to raster contents: last write wins, out-of-range
/// writes are ignored.
pub open spec fn apply_one_s(data: Seq<[u8; 4]>, w: int, h: int, wr: PixelWrite) -> Seq<
    [u8; 4],
> {
    if wr.x < w && wr.y < h && 0 <= wr.y as int * w + wr.x as int && wr.y as int * w + (
    wr.x as int) < data.len() {
        data.update(wr.y as int * w + wr.x as int, wr.rgba)
    } else {
        data
    }
}

/// A list of writes folded over raster contents, in list order.
pub open spec fn apply_seq_s(data: Seq<[u8; 4]>, w: int, h: int, ws: Seq<PixelWrite>) -> Seq<
    [u8; 4],
>
    decreases ws.len(),
{
    if ws.len() == 0 {
        data
    } else {
        apply_seq_s(apply_one_s(data, w, h, ws[0]), w, h, ws.drop_first())
    }
}

proof fn lemma_apply_snoc(data: Seq<[u8; 4]>, w: int, h: int, ws: Seq<PixelWrite>)
    requires
        ws.len() > 0,
    ensures
        apply_seq_s(data, w, h, ws) == apply_one_s(
            apply_seq_s(data, w, h, ws.drop_last()),
            w,
            h,
            ws.last(),
        ),
    decreases ws.len(),
{
    let d1 = apply_one_s(data, w, h, ws[0]);
    assert(apply_seq_s(data, w, h, ws) == apply_seq_s(d1, w, h, ws.drop_first()));
    if ws.len() == 1 {
        assert(ws.drop_last() =~= Seq::<PixelWrite>::empty());
        assert(ws.drop_first() =~= Seq::<PixelWrite>::empty());
        assert(apply_seq_s(d1, w, h, ws.drop_first()) == d1);
        assert(apply_seq_s(data, w, h, ws.drop_last()) == data);
    } else {
        lemma_apply_snoc(d1, w, h, ws.drop_first());
        assert(ws.drop_first().drop_last() =~= ws.drop_last().drop_first());
        assert(ws.drop_first().last() == ws.last());
        assert(ws.drop_last()[0] == ws[0]);
        assert(apply_seq_s(data, w, h, ws.drop_last()) == apply_seq_s(
            apply_one_s(data, w, h, ws.drop_last()[0]),
            w,
            h,
            ws.drop_last().drop_first(),
        ));
    }
}

/// Apply a list of pixel writes to the raster, in order, last write wins.
///
/// This is the single-owner merge pass of a reverse render: the parallel
/// phase only accumulates [`PixelWrite`] lists, and this fold is the one
/// place the shared buffer is mutated, so the result depends only on the
/// concatenated list order.
pub fn apply_writes(r: &mut Raster, ws: &Vec<PixelWrite>)
    requires
        old(r).wf(),
    ensures
        final(r).wf(),
        final(r).w == old(r).w && final(r).h == old(r).h,
        final(r).data@ == apply_seq_s(
            old(r).data@,
            old(r).w as int,
            old(r).h as int,
            ws@,
        ),
{
    let mut i: usize = 0;
    let ghost data0: Seq<[u8; 4]> = r.data@;
    let ghost w: int = r.w as int;
    let ghost h: int = r.h as int;
    while i < ws.len()
        invariant
            r.wf(),
            r.w as int == w && r.h as int == h,
            0 <= i <= ws@.len(),
            r.data@ == apply_seq_s(data0, w, h, ws@.subrange(0, i as int)),
        decreases ws@.len() - i,
    {
        let wr = ws[i];
        let ghost before: Seq<[u8; 4]> = r.data@;
        if wr.x < r.w && wr.y < r.h {
            proof {
                lemma_grid_index(r.w as int, r.h as int, wr.x as int, wr.y as int);
                assert(wr.y as int * r.w as int <= 0x2000 * 0x2000) by (nonlinear_arith)
                    requires
                        0 <= wr.y as int <= 0x2000,
                        0 <= r.w as int <= 0x2000,
                ;
            }
            let idx: usize = (wr.y as usize) * (r.w as usize) + (wr.x as usize);
            r.data.set(idx, wr.rgba);
        }
        proof {
            assert(r.data@ == apply_one_s(before, w, h, ws@[i as int]));
            lemma_apply_snoc(data0, w, h, ws@.subrange(0, i + 1));
            assert(ws@.subrange(0, i + 1).drop_last() =~= ws@.subrange(0, i as int));
            assert(ws@.subrange(0, i + 1).last() == ws@[i as int]);
        }
        i = i + 1;
    }
    proof {
        assert(ws@.subrange(0, ws@.len() as int) =~= ws@);
    }
}

} // verus!
