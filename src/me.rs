//! The multi-resolution motion search over the blocks of a tile, and the
//! frame and tile state that it reads and fills.
use vstd::prelude::*;
use crate::block::{pow2_small, pow2_spec, BlockSize, TileBlockOffset, MAX_MIB_SIZE_LOG2};
use crate::mv::{floor_div8, floor_div_small, MotionVector};
use crate::mvlist::{mv_list_as_slice, mv_list_items, MvList};
use crate::plane::{Plane, PlaneOffset, MAX_PLANE_SIDE};
use crate::predictors::{
    block_inside, clamp_int, get_subset_predictors, get_subset_predictors_alt, min_sad_of, subset_predictors_spec,
    lemma_predictors_start_with_zero, BlockCorner, MotionEstimationSubsets, SubsetQuery,
};
use crate::search::{
    fullpel_diamond_me_search_alt, get_best_predictor, lemma_best_of_in_range, lemma_diamond_from_in_range,
    lemma_diamond_search_zero_floor, no_result, pick,
};
use crate::search::{
    best_of, diamond_from, full_search, full_search_spec, fullpel_diamond_me_search, in_range,
    lemma_diamond_search_in_range, lemma_full_search_in_range, FullpelSearchResult, MvBounds, SearchContext,
    SearchView,
};
use crate::stats::{in_rect, FrameMEStats, FrameMotionVectors, MEStats, MAX_GRID_SIDE};
use crate::search::{get_fullpel_mv_rd_cost, MVSearchResult};
use crate::subpel::{sub_pixel_me, subpel_end, subpel_from, BlockPredictor};

verus! {

/// Number of reference slots of a frame.
pub const REF_FRAMES: usize = 7;

/// Rate weights of the search tiers, already scaled by 256 and by the tuning
/// factor of each tier.
#[derive(Clone, Copy, Debug, PartialEq, Eq, Structural)]
pub struct MeLambdas {
    /// Full-pel and sub-pel search at full resolution.
    pub fullpel: u32,
    /// Hierarchical search of blocks wider than 16 pixels.
    pub fullpel_large: u32,
    /// Search on half-resolution planes.
    pub half_res: u32,
    /// Search on quarter-resolution planes.
    pub quarter_res: u32,
}

/// A decoded frame that later frames search in.
pub struct ReferenceFrame {
    /// Full-resolution luma.
    pub frame: Plane,
    /// Half-resolution luma.
    pub input_hres: Plane,
    /// Quarter-resolution luma.
    pub input_qres: Plane,
    /// Its motion statistics, one grid per reference slot.
    pub frame_me_stats: Vec<FrameMEStats>,
    /// Its motion vectors, one grid per reference slot.
    pub frame_mvs: Vec<FrameMotionVectors>,
}

impl ReferenceFrame {
    pub open spec fn wf(&self) -> bool {
        &&& self.frame.wf()
        &&& self.input_hres.wf()
        &&& self.input_qres.wf()
        &&& self.frame_me_stats@.len() == REF_FRAMES
        &&& self.frame_mvs@.len() == REF_FRAMES
        &&& forall|i: int| 0 <= i < REF_FRAMES ==> (#[trigger] self.frame_me_stats@[i]).wf()
        &&& forall|i: int| 0 <= i < REF_FRAMES ==> (#[trigger] self.frame_mvs@[i]).wf()
    }
}

/// What stays fixed for the whole frame.
pub struct FrameInvariants {
    /// Frame width in grid units.
    pub w_in_b: usize,
    /// Frame height in grid units.
    pub h_in_b: usize,
    /// Scale of the exhaustive search window.
    pub me_range_scale: u8,
    pub allow_high_precision_mv: bool,
    /// Whether sub-pel refinement measures distortion by SATD.
    pub use_satd_subpel: bool,
    pub lambdas: MeLambdas,
    /// Decoded frames by slot; `None` where a slot holds no frame.
    pub rec_buffer: Vec<Option<ReferenceFrame>>,
    /// The slot of each reference.
    pub ref_frames: Vec<u8>,
}

impl FrameInvariants {
    pub open spec fn wf(&self) -> bool {
        &&& self.w_in_b <= MAX_GRID_SIDE
        &&& self.h_in_b <= MAX_GRID_SIDE
        &&& self.ref_frames@.len() == REF_FRAMES
        &&& forall|i: int| 0 <= i < REF_FRAMES ==> (#[trigger] self.ref_frames@[i]) < self.rec_buffer@.len()
        &&& forall|k: int| 0 <= k < self.rec_buffer@.len()
            ==> (#[trigger] self.rec_buffer@[k] matches Some(rec) ==> rec.wf())
    }

    /// The frame that reference `ref_frame` points at.
    pub open spec fn reference(&self, ref_frame: int) -> Option<ReferenceFrame> {
        self.rec_buffer@[self.ref_frames@[ref_frame] as int]
    }

    /// The previous frame's vectors for reference `ref_frame`, where the first
    /// reference holds a frame.
    pub open spec fn prev_mvs(&self, ref_frame: int) -> Option<FrameMotionVectors> {
        match self.reference(0) {
            Some(rec) => Some(rec.frame_mvs@[ref_frame]),
            None => None,
        }
    }

    /// The previous frame's statistics for reference `ref_frame`, where the
    /// first reference holds a frame.
    pub open spec fn prev_stats(&self, ref_frame: int) -> Option<FrameMEStats> {
        match self.reference(0) {
            Some(rec) => Some(rec.frame_me_stats@[ref_frame]),
            None => None,
        }
    }
}

/// The part of the encoder state of one tile that motion search reads and fills.
pub struct TileState {
    /// Position of the tile in the frame, in grid units.
    pub x: usize,
    pub y: usize,
    /// Tile size in grid units.
    pub mi_width: usize,
    pub mi_height: usize,
    /// Tile size in 64x64 superblocks.
    pub sb_width: usize,
    pub sb_height: usize,
    /// The frame's source luma at full, half and quarter resolution.
    pub input: Plane,
    pub input_hres: Plane,
    pub input_qres: Plane,
    /// This tile's statistics, one grid per reference.
    pub me_stats: Vec<FrameMEStats>,
    /// This tile's vectors, one grid per reference.
    pub mvs: Vec<FrameMotionVectors>,
}

impl TileState {
    pub open spec fn wf(&self) -> bool {
        &&& self.x + self.mi_width <= MAX_GRID_SIDE
        &&& self.y + self.mi_height <= MAX_GRID_SIDE
        &&& self.input.wf()
        &&& self.input_hres.wf()
        &&& self.input_qres.wf()
        &&& self.me_stats@.len() == REF_FRAMES
        &&& self.mvs@.len() == REF_FRAMES
        &&& forall|i: int| 0 <= i < REF_FRAMES ==> {
            &&& (#[trigger] self.me_stats@[i]).wf()
            &&& self.me_stats@[i].cols == self.mi_width
            &&& self.me_stats@[i].rows == self.mi_height
        }
        &&& forall|i: int| 0 <= i < REF_FRAMES ==> {
            &&& (#[trigger] self.mvs@[i]).wf()
            &&& self.mvs@[i].cols == self.mi_width
            &&& self.mvs@[i].rows == self.mi_height
        }
    }
}

pub open spec fn clamp_mv_component(v: int) -> isize {
    clamp_int(v, i16::MIN as int, i16::MAX as int) as isize
}

/// The legal vectors of a `blk_w` by `blk_h` block at `(bx, by)` (grid units)
/// of a frame of `w_in_b` by `h_in_b` units: anywhere in the frame, plus a
/// border of 16 pixels and one block size.
pub open spec fn mv_range_spec(w_in_b: int, h_in_b: int, bx: int, by: int, blk_w: int, blk_h: int) -> MvBounds {
    let border_w = 128 + blk_w * 8;
    let border_h = 128 + blk_h * 8;
    MvBounds {
        mvx_min: (-bx * 32 - border_w) as isize,
        mvx_max: ((w_in_b - bx - blk_w / 4) * 32 + border_w) as isize,
        mvy_min: (-by * 32 - border_h) as isize,
        mvy_max: ((h_in_b - by - blk_h / 4) * 32 + border_h) as isize,
    }
}

/// A block that lies in the frame may keep the zero vector: its range holds
/// zero on both axes.
pub proof fn lemma_mv_range_holds_zero(w_in_b: int, h_in_b: int, bx: int, by: int, blk_w: int, blk_h: int)
    requires
        0 <= bx,
        0 <= by,
        0 <= blk_w <= 128,
        0 <= blk_h <= 128,
        bx + blk_w / 4 <= w_in_b <= MAX_GRID_SIDE,
        by + blk_h / 4 <= h_in_b <= MAX_GRID_SIDE,
    ensures
        mv_range_spec(w_in_b, h_in_b, bx, by, blk_w, blk_h).mvx_min < 0,
        mv_range_spec(w_in_b, h_in_b, bx, by, blk_w, blk_h).mvx_max > 0,
        mv_range_spec(w_in_b, h_in_b, bx, by, blk_w, blk_h).mvy_min < 0,
        mv_range_spec(w_in_b, h_in_b, bx, by, blk_w, blk_h).mvy_max > 0,
{
}

/// `b` limited to the vectors with `i16` components.
pub open spec fn i16_bounds(b: MvBounds) -> MvBounds {
    MvBounds {
        mvx_min: clamp_mv_component(b.mvx_min as int),
        mvx_max: clamp_mv_component(b.mvx_max as int),
        mvy_min: clamp_mv_component(b.mvy_min as int),
        mvy_max: clamp_mv_component(b.mvy_max as int),
    }
}

/// The range searched for a block: `mv_range_spec` limited to `i16` vectors.
pub open spec fn search_bounds(w_in_b: int, h_in_b: int, bx: int, by: int, blk_w: int, blk_h: int) -> MvBounds {
    i16_bounds(mv_range_spec(w_in_b, h_in_b, bx, by, blk_w, blk_h))
}

fn clamp_component(v: isize) -> (r: isize)
    ensures
        r == clamp_mv_component(v as int),
{
    if v < -32768 { -32768 } else if v > 32767 { 32767 } else { v }
}

/// `b` limited to the vectors with `i16` components.
fn clamp_bounds(b: MvBounds) -> (r: MvBounds)
    ensures
        r == i16_bounds(b),
        r.wf(),
{
    MvBounds {
        mvx_min: clamp_component(b.mvx_min),
        mvx_max: clamp_component(b.mvx_max),
        mvy_min: clamp_component(b.mvy_min),
        mvy_max: clamp_component(b.mvy_max),
    }
}

/// The range of legal motion vectors of a `blk_w` by `blk_h` block at `bo`.
pub fn get_mv_range(w_in_b: usize, h_in_b: usize, bo: TileBlockOffset, blk_w: usize, blk_h: usize) -> (r: MvBounds)
    requires
        w_in_b <= MAX_GRID_SIDE,
        h_in_b <= MAX_GRID_SIDE,
        bo.x <= MAX_GRID_SIDE,
        bo.y <= MAX_GRID_SIDE,
        blk_w <= 128,
        blk_h <= 128,
    ensures
        r == mv_range_spec(w_in_b as int, h_in_b as int, bo.x as int, bo.y as int, blk_w as int, blk_h as int),
{
    let border_w = 128 + blk_w as isize * 8;
    let border_h = 128 + blk_h as isize * 8;
    let mvx_min = -(bo.x as isize) * 32 - border_w;
    let mvx_max = (w_in_b as isize - bo.x as isize - (blk_w / 4) as isize) * 32 + border_w;
    let mvy_min = -(bo.y as isize) * 32 - border_h;
    let mvy_max = (h_in_b as isize - bo.y as isize - (blk_h / 4) as isize) * 32 + border_h;
    MvBounds { mvx_min, mvx_max, mvy_min, mvy_max }
}

/// The block position moved so that a `blk_w` by `blk_h` block lies inside a
/// tile of `mi_width` by `mi_height` units where it fits, with its column
/// rounded down to a multiple of the block width.
pub open spec fn adjust_bo_spec(bo: TileBlockOffset, mi_width: int, mi_height: int, blk_w: int, blk_h: int)
    -> TileBlockOffset
{
    let bw = blk_w / 4;
    let bh = blk_h / 4;
    let x0 = if bo.x < mi_width - bw { bo.x as int } else { mi_width - bw };
    let x = if x0 < 0 { 0 } else { x0 };
    let y0 = if bo.y < mi_height - bh { bo.y as int } else { mi_height - bh };
    let y = if y0 < 0 { 0 } else { y0 };
    TileBlockOffset { x: (x - x % bw) as usize, y: y as usize }
}

/// `bo` moved into the tile and aligned, as `adjust_bo_spec` says.
pub fn adjust_bo(bo: TileBlockOffset, mi_width: usize, mi_height: usize, blk_w: usize, blk_h: usize)
    -> (r: TileBlockOffset)
    requires
        bo.x <= MAX_GRID_SIDE,
        bo.y <= MAX_GRID_SIDE,
        mi_width <= MAX_GRID_SIDE,
        mi_height <= MAX_GRID_SIDE,
        4 <= blk_w <= 128,
        4 <= blk_h <= 128,
    ensures
        r == adjust_bo_spec(bo, mi_width as int, mi_height as int, blk_w as int, blk_h as int),
        r.x <= bo.x,
        r.y <= bo.y,
        r.x <= mi_width,
        r.y <= mi_height,
{
    let bw = (blk_w / 4) as isize;
    let bh = (blk_h / 4) as isize;
    let x0 = if (bo.x as isize) < mi_width as isize - bw { bo.x as isize } else { mi_width as isize - bw };
    let x = if x0 < 0 { 0 } else { x0 };
    let y0 = if (bo.y as isize) < mi_height as isize - bh { bo.y as isize } else { mi_height as isize - bh };
    let y = if y0 < 0 { 0 } else { y0 };
    proof {
        vstd::arithmetic::div_mod::lemma_mod_bound(x as int, bw as int);
        vstd::arithmetic::div_mod::lemma_fundamental_div_mod(x as int, bw as int);
        vstd::arithmetic::div_mod::lemma_div_pos_is_pos(x as int, bw as int);
        assert(x % bw <= x) by (nonlinear_arith)
            requires x == bw * (x / bw) + x % bw, x / bw >= 0, bw > 0;
    }
    TileBlockOffset { x: (x - x % bw) as usize, y: y as usize }
}

/// The present values of `s`, in order.
pub open spec fn somes(s: Seq<Option<MotionVector>>) -> Seq<MotionVector>
    decreases s.len(),
{
    if s.len() == 0 {
        Seq::empty()
    } else {
        let t = somes(s.drop_last());
        match s.last() {
            Some(v) => t.push(v),
            None => t,
        }
    }
}

pub open spec fn zero_mv() -> MotionVector {
    MotionVector { row: 0, col: 0 }
}

/// The tile's origin as a block offset.
pub open spec fn origin_of(ts: TileState) -> TileBlockOffset {
    TileBlockOffset { x: ts.x, y: ts.y }
}

/// Full-resolution search of the block at `adj` (tile grid units) of `bsize`
/// in `plane`, with rate weight `lambda`, measured against zero predictors.
pub open spec fn fullres_view(fi: FrameInvariants, ts: TileState, bsize: BlockSize, adj: TileBlockOffset, plane: Plane,
    lambda: u32, pmv: [MotionVector; 2]) -> SearchView
{
    let fx = ts.x + adj.x;
    let fy = ts.y + adj.y;
    let po = PlaneOffset { x: (fx * 4) as isize, y: (fy * 4) as isize };
    SearchView {
        org: ts.input.window(po.x as int, po.y as int, bsize.w(), bsize.h()),
        p_ref: plane,
        po,
        w: bsize.w() as usize,
        h: bsize.h() as usize,
        lambda,
        pmv,
        allow_high_precision_mv: fi.allow_high_precision_mv,
        bounds: search_bounds(fi.w_in_b as int, fi.h_in_b as int, fx, fy, bsize.w() as int, bsize.h() as int),
    }
}

/// The block lies in the tile and its source lies in the full-resolution input.
pub open spec fn fullres_fits(ts: TileState, bsize: BlockSize, adj: TileBlockOffset) -> bool {
    &&& block_inside(adj.x as int, adj.y as int, bsize.w_mi() as int, bsize.h_mi() as int,
        ts.mi_width as int, ts.mi_height as int)
    &&& ts.input.window_fits((ts.x + adj.x) * 4, (ts.y + adj.y) * 4, bsize.w(), bsize.h())
}

/// Full-pel diamond search of `v` seeded with the candidate list of the block.
pub open spec fn full_pixel_me_spec(fi: FrameInvariants, ts: TileState, v: SearchView, adj: TileBlockOffset,
    cmvs: Seq<MotionVector>, ref_frame: int, bsize: BlockSize) -> FullpelSearchResult
{
    let preds = subset_predictors_spec(adj, cmvs, ts.mvs@[ref_frame], origin_of(ts), fi.prev_mvs(ref_frame), bsize);
    diamond_from(v, best_of(v, preds), 4, 3)
}

/// The full-pel vector of the block at `tile_bo`, moved into the tile, seeded
/// with the coarse candidates `pmvs`.
pub open spec fn estimate_motion_spec(fi: FrameInvariants, ts: TileState, bsize: BlockSize, tile_bo: TileBlockOffset,
    pmvs: Seq<Option<MotionVector>>, ref_frame: int) -> Option<MotionVector>
{
    match fi.reference(ref_frame) {
        None => None,
        Some(rec) => {
            let adj = adjust_bo_spec(tile_bo, ts.mi_width as int, ts.mi_height as int, bsize.w() as int, bsize.h() as int);
            if !fullres_fits(ts, bsize, adj) {
                None
            } else {
                let v = fullres_view(fi, ts, bsize, adj, rec.frame, fi.lambdas.fullpel, [zero_mv(), zero_mv()]);
                Some(full_pixel_me_spec(fi, ts, v, adj, somes(pmvs), ref_frame, bsize).mv)
            }
        },
    }
}

fn collect_somes(pmvs: &[Option<MotionVector>]) -> (r: Vec<MotionVector>)
    ensures
        r@ == somes(pmvs@),
        r@.len() <= pmvs@.len(),
{
    let mut out: Vec<MotionVector> = Vec::new();
    let mut i: usize = 0;
    while i < pmvs.len()
        invariant
            i <= pmvs@.len(),
            out@ == somes(pmvs@.subrange(0, i as int)),
            out@.len() <= i,
        decreases pmvs@.len() - i,
    {
        proof {
            assert(pmvs@.subrange(0, i as int + 1).drop_last() =~= pmvs@.subrange(0, i as int));
        }
        if let Some(v) = pmvs[i] {
            out.push(v);
        }
        i = i + 1;
    }
    assert(pmvs@.subrange(0, pmvs@.len() as int) =~= pmvs@);
    out
}

/// The previous frame's vectors for `ref_frame`, where the first reference holds a frame.
fn prev_frame_mvs(fi: &FrameInvariants, ref_frame: usize) -> (r: Option<&FrameMotionVectors>)
    requires
        fi.wf(),
        ref_frame < REF_FRAMES,
    ensures
        match r { Some(p) => Some(*p), None => None } == fi.prev_mvs(ref_frame as int),
        r matches Some(p) ==> p.wf(),
{
    let slot = fi.ref_frames[0] as usize;
    match &fi.rec_buffer[slot] {
        Some(rec) => Some(&rec.frame_mvs[ref_frame]),
        None => None,
    }
}

/// Full-pel diamond search of `ctx` seeded with the candidate list of the
/// block at `tile_bo`.
fn full_pixel_me(fi: &FrameInvariants, ts: &TileState, ctx: &SearchContext, tile_bo: TileBlockOffset,
    cmvs: &[MotionVector], ref_frame: usize, bsize: BlockSize) -> (r: FullpelSearchResult)
    requires
        fi.wf(),
        ts.wf(),
        ctx.wf(),
        bsize.wf(),
        ref_frame < REF_FRAMES,
        cmvs@.len() <= 7,
        block_inside(tile_bo.x as int, tile_bo.y as int, bsize.w_mi() as int, bsize.h_mi() as int,
            ts.mi_width as int, ts.mi_height as int),
    ensures
        r == full_pixel_me_spec(*fi, *ts, ctx@, tile_bo, cmvs@, ref_frame as int, bsize),
{
    let prev = prev_frame_mvs(fi, ref_frame);
    let predictors = get_subset_predictors(tile_bo, cmvs, &ts.mvs[ref_frame],
        TileBlockOffset { x: ts.x, y: ts.y }, prev, bsize);
    fullpel_diamond_me_search(ctx, mv_list_as_slice(&predictors))
}

/// The full-pel motion vector of the block at `tile_bo` (moved into the tile
/// and aligned) in reference `ref_frame`, seeded with the coarse candidates
/// `pmvs`; `None` where the reference holds no frame or the block does not
/// fit the tile or the input plane.
pub fn estimate_motion(fi: &FrameInvariants, ts: &TileState, bsize: BlockSize, tile_bo: TileBlockOffset,
    pmvs: &[Option<MotionVector>], ref_frame: usize) -> (r: Option<MotionVector>)
    requires
        fi.wf(),
        ts.wf(),
        bsize.wf(),
        ref_frame < REF_FRAMES,
        pmvs@.len() <= 7,
        tile_bo.x <= MAX_GRID_SIDE,
        tile_bo.y <= MAX_GRID_SIDE,
    ensures
        r == estimate_motion_spec(*fi, *ts, bsize, tile_bo, pmvs@, ref_frame as int),
        fi.reference(ref_frame as int) is None ==> r is None,
{
    let slot = fi.ref_frames[ref_frame] as usize;
    match &fi.rec_buffer[slot] {
        None => None,
        Some(rec) => {
            let blk_w = bsize.width();
            let blk_h = bsize.height();
            let adj = adjust_bo(tile_bo, ts.mi_width, ts.mi_height, blk_w, blk_h);
            if adj.x + bsize.width_mi() > ts.mi_width || adj.y + bsize.height_mi() > ts.mi_height {
                return None;
            }
            let fx = ts.x + adj.x;
            let fy = ts.y + adj.y;
            let bounds = clamp_bounds(get_mv_range(fi.w_in_b, fi.h_in_b, TileBlockOffset { x: fx, y: fy }, blk_w, blk_h));
            let po = PlaneOffset { x: (fx * 4) as isize, y: (fy * 4) as isize };
            match ts.input.region(po.x, po.y, blk_w, blk_h) {
                None => None,
                Some(org) => {
                    let z = MotionVector { row: 0, col: 0 };
                    let ctx = SearchContext {
                        org,
                        p_ref: &rec.frame,
                        po,
                        w: blk_w,
                        h: blk_h,
                        lambda: fi.lambdas.fullpel,
                        pmv: [z, z],
                        allow_high_precision_mv: fi.allow_high_precision_mv,
                        bounds,
                    };
                    let cmvs = collect_somes(pmvs);
                    assert(ctx@ == fullres_view(*fi, *ts, bsize, adj, rec.frame, fi.lambdas.fullpel, [zero_mv(), zero_mv()]));
                    let best = full_pixel_me(fi, ts, &ctx, adj, cmvs.as_slice(), ref_frame, bsize);
                    Some(best.mv)
                },
            }
        },
    }
}

/// The bounds divided by `d`, rounding toward minus infinity.
pub open spec fn scale_bounds(b: MvBounds, d: int) -> MvBounds {
    MvBounds {
        mvx_min: (b.mvx_min as int / d) as isize,
        mvx_max: (b.mvx_max as int / d) as isize,
        mvy_min: (b.mvy_min as int / d) as isize,
        mvy_max: (b.mvy_max as int / d) as isize,
    }
}

fn scale_bounds_exec(b: MvBounds, d: i32) -> (r: MvBounds)
    requires
        b.wf(),
        1 <= d <= 8,
    ensures
        r == scale_bounds(b, d as int),
        r.wf(),
{
    proof {
        lemma_scale_bounds_wf(b, d as int);
    }
    MvBounds {
        mvx_min: floor_div_small(b.mvx_min as i32, d) as isize,
        mvx_max: floor_div_small(b.mvx_max as i32, d) as isize,
        mvy_min: floor_div_small(b.mvy_min as i32, d) as isize,
        mvy_max: floor_div_small(b.mvy_max as i32, d) as isize,
    }
}

proof fn lemma_scaled_component(lo: int, hi: int, k: int, c: int)
    requires
        -32768 <= lo,
        hi <= 32767,
        k == 1 || k == 2 || k == 4,
        lo / k <= c <= hi / k,
    ensures
        -32768 <= c * k <= 32767,
{
    vstd::arithmetic::div_mod::lemma_div_is_ordered(-32768, lo, k);
    assert(-32768 / k * k == -32768);
    assert((-32768 / k) * k <= c * k) by (nonlinear_arith)
        requires -32768 / k <= c, k >= 1;
    vstd::arithmetic::div_mod::lemma_fundamental_div_mod(lo, k);
    vstd::arithmetic::div_mod::lemma_fundamental_div_mod(hi, k);
    vstd::arithmetic::div_mod::lemma_mod_bound(lo, k);
    vstd::arithmetic::div_mod::lemma_mod_bound(hi, k);
    assert(c * k <= k * (hi / k)) by (nonlinear_arith)
        requires c <= hi / k, k >= 1;
}

proof fn lemma_floor_div_in_i16(v: int, d: int)
    requires
        -32768 <= v <= 32767,
        1 <= d,
    ensures
        -32768 <= v / d <= 32767,
{
    vstd::arithmetic::div_mod::lemma_div_is_ordered(-32768, v, d);
    vstd::arithmetic::div_mod::lemma_div_is_ordered(v, 32767, d);
    vstd::arithmetic::div_mod::lemma_div_is_ordered_by_denominator(32767, 1, d);
    assert(-32768 / d >= -32768) by {
        vstd::arithmetic::div_mod::lemma_fundamental_div_mod(-32768, d);
        vstd::arithmetic::div_mod::lemma_mod_bound(-32768, d);
        assert(-32768 / d >= -32768) by (nonlinear_arith)
            requires -32768 == d * (-32768 / d) + (-32768) % d, 0 <= (-32768) % d < d, d >= 1;
    }
}

/// `scale_bounds` of well-formed bounds by 1, 2 or 4 is well formed.
proof fn lemma_scale_bounds_wf(b: MvBounds, d: int)
    requires
        b.wf(),
        1 <= d,
    ensures
        scale_bounds(b, d).wf(),
        scale_bounds(b, d).mvx_min == b.mvx_min as int / d,
        scale_bounds(b, d).mvx_max == b.mvx_max as int / d,
        scale_bounds(b, d).mvy_min == b.mvy_min as int / d,
        scale_bounds(b, d).mvy_max == b.mvy_max as int / d,
{
    lemma_floor_div_in_i16(b.mvx_min as int, d);
    lemma_floor_div_in_i16(b.mvx_max as int, d);
    lemma_floor_div_in_i16(b.mvy_min as int, d);
    lemma_floor_div_in_i16(b.mvy_max as int, d);
}

/// `v` scaled up by `k`, which cannot overflow for a vector in bounds
/// scaled down by `k`.
fn scale_up(v: MotionVector, k: i16, Ghost(b): Ghost<MvBounds>) -> (r: MotionVector)
    requires
        b.wf(),
        k == 1 || k == 2 || k == 4,
        scale_bounds(b, k as int).contains(v.row as int, v.col as int) || v == zero_mv(),
    ensures
        r.row == v.row * k,
        r.col == v.col * k,
{
    proof {
        let k = k as int;
        lemma_scale_bounds_wf(b, k);
        if v != zero_mv() {
            lemma_scaled_component(b.mvy_min as int, b.mvy_max as int, k, v.row as int);
            lemma_scaled_component(b.mvx_min as int, b.mvx_max as int, k, v.col as int);
        }
    }
    MotionVector { row: v.row * k, col: v.col * k }
}

/// The quarter-resolution search of the block at `adj` in `rec`.
pub open spec fn qres_view(fi: FrameInvariants, ts: TileState, bsize: BlockSize, adj: TileBlockOffset,
    rec: ReferenceFrame) -> SearchView
{
    let fx = ts.x + adj.x;
    let fy = ts.y + adj.y;
    let b = search_bounds(fi.w_in_b as int, fi.h_in_b as int, fx, fy, bsize.w() as int, bsize.h() as int);
    SearchView {
        org: ts.input_qres.window(fx, fy, bsize.w() / 4, bsize.h() / 4),
        p_ref: rec.input_qres,
        po: PlaneOffset { x: fx as isize, y: fy as isize },
        w: (bsize.w() / 4) as usize,
        h: (bsize.h() / 4) as usize,
        lambda: fi.lambdas.quarter_res,
        pmv: [zero_mv(), zero_mv()],
        allow_high_precision_mv: fi.allow_high_precision_mv,
        bounds: scale_bounds(b, 4),
    }
}

/// The vector, in quarter-resolution units, of the exhaustive search of the
/// block at `adj` over `fi.me_range_scale` times 192 by 64 pixels, within
/// the legal range.
pub open spec fn ss4_search_spec(fi: FrameInvariants, ts: TileState, bsize: BlockSize, adj: TileBlockOffset,
    rec: ReferenceFrame) -> FullpelSearchResult
{
    let v = qres_view(fi, ts, bsize, adj, rec);
    let fx = ts.x + adj.x;
    let fy = ts.y + adj.y;
    let b = search_bounds(fi.w_in_b as int, fi.h_in_b as int, fx, fy, bsize.w() as int, bsize.h() as int);
    let range_x = 192 * fi.me_range_scale;
    let range_y = 64 * fi.me_range_scale;
    let x_lo = fx + (if -range_x > b.mvx_min / 8 { -range_x } else { b.mvx_min / 8 }) / 4;
    let x_hi = fx + (if range_x < b.mvx_max / 8 { range_x } else { b.mvx_max / 8 }) / 4;
    let y_lo = fy + (if -range_y > b.mvy_min / 8 { -range_y } else { b.mvy_min / 8 }) / 4;
    let y_hi = fy + (if range_y < b.mvy_max / 8 { range_y } else { b.mvy_max / 8 }) / 4;
    full_search_spec(v, x_lo, x_hi, y_lo, y_hi, 1)
}

/// The coarse vector of the quarter-resolution stage, scaled back to full resolution.
pub open spec fn estimate_motion_ss4_spec(fi: FrameInvariants, ts: TileState, bsize: BlockSize, ref_idx: int,
    tile_bo: TileBlockOffset) -> Option<MotionVector>
{
    match fi.rec_buffer@[ref_idx] {
        None => None,
        Some(rec) => {
            let adj = adjust_bo_spec(tile_bo, ts.mi_width as int, ts.mi_height as int, bsize.w() as int, bsize.h() as int);
            if !ts.input_qres.window_fits(ts.x + adj.x, ts.y + adj.y, bsize.w() / 4, bsize.h() / 4) {
                None
            } else {
                let mv = ss4_search_spec(fi, ts, bsize, adj, rec).mv;
                Some(MotionVector { row: (mv.row * 4) as i16, col: (mv.col * 4) as i16 })
            }
        },
    }
}

/// Exhaustive search of the block at `tile_bo` on the quarter-resolution
/// planes of the frame in slot `ref_idx`, scaled back to full resolution;
/// `None` where the slot holds no frame or the block's quarter-resolution
/// source does not lie in the input plane.
#[verifier::rlimit(50)]
pub fn estimate_motion_ss4(fi: &FrameInvariants, ts: &TileState, bsize: BlockSize, ref_idx: usize,
    tile_bo: TileBlockOffset) -> (r: Option<MotionVector>)
    requires
        fi.wf(),
        ts.wf(),
        bsize.wf(),
        ref_idx < fi.rec_buffer@.len(),
        tile_bo.x <= MAX_GRID_SIDE,
        tile_bo.y <= MAX_GRID_SIDE,
    ensures
        r == estimate_motion_ss4_spec(*fi, *ts, bsize, ref_idx as int, tile_bo),
        fi.rec_buffer@[ref_idx as int] is None ==> r is None,
{
    match &fi.rec_buffer[ref_idx] {
        None => None,
        Some(rec) => {
            let blk_w = bsize.width();
            let blk_h = bsize.height();
            let adj = adjust_bo(tile_bo, ts.mi_width, ts.mi_height, blk_w, blk_h);
            let fx = ts.x + adj.x;
            let fy = ts.y + adj.y;
            let po = PlaneOffset { x: fx as isize, y: fy as isize };
            let b = clamp_bounds(get_mv_range(fi.w_in_b, fi.h_in_b, TileBlockOffset { x: fx, y: fy }, blk_w, blk_h));
            let range_x = 192 * fi.me_range_scale as isize;
            let range_y = 64 * fi.me_range_scale as isize;
            let bx_min = floor_div8(b.mvx_min as i32) as isize;
            let bx_max = floor_div8(b.mvx_max as i32) as isize;
            let by_min = floor_div8(b.mvy_min as i32) as isize;
            let by_max = floor_div8(b.mvy_max as i32) as isize;
            let x_lo = po.x + floor_div_small((if -range_x > bx_min { -range_x } else { bx_min }) as i32, 4) as isize;
            let x_hi = po.x + floor_div_small((if range_x < bx_max { range_x } else { bx_max }) as i32, 4) as isize;
            let y_lo = po.y + floor_div_small((if -range_y > by_min { -range_y } else { by_min }) as i32, 4) as isize;
            let y_hi = po.y + floor_div_small((if range_y < by_max { range_y } else { by_max }) as i32, 4) as isize;
            match ts.input_qres.region(po.x, po.y, blk_w / 4, blk_h / 4) {
                None => None,
                Some(org) => {
                    let z = MotionVector { row: 0, col: 0 };
                    let ctx = SearchContext {
                        org,
                        p_ref: &rec.input_qres,
                        po,
                        w: blk_w / 4,
                        h: blk_h / 4,
                        lambda: fi.lambdas.quarter_res,
                        pmv: [z, z],
                        allow_high_precision_mv: fi.allow_high_precision_mv,
                        bounds: scale_bounds_exec(b, 4),
                    };
                    assert(ctx@ == qres_view(*fi, *ts, bsize, adj, *rec));
                    let best = full_search(&ctx, x_lo, x_hi, y_lo, y_hi, 1);
                    proof {
                        lemma_full_search_in_range(ctx@, x_lo as int, x_hi as int, y_lo as int, y_hi as int, 1);
                    }
                    Some(scale_up(best.mv, 4, Ghost(b)))
                },
            }
        },
    }
}

/// `mv` halved, rounding toward minus infinity.
pub open spec fn halve(mv: MotionVector) -> MotionVector {
    MotionVector { row: (mv.row as int / 2) as i16, col: (mv.col as int / 2) as i16 }
}

fn halve_list(preds: &[MotionVector]) -> (r: Vec<MotionVector>)
    ensures
        r@ == preds@.map_values(|m: MotionVector| halve(m)),
{
    let mut out: Vec<MotionVector> = Vec::new();
    let mut i: usize = 0;
    while i < preds.len()
        invariant
            i <= preds@.len(),
            out@ == preds@.subrange(0, i as int).map_values(|m: MotionVector| halve(m)),
        decreases preds@.len() - i,
    {
        let m = preds[i];
        let h = MotionVector {
            row: floor_div_small(m.row as i32, 2) as i16,
            col: floor_div_small(m.col as i32, 2) as i16,
        };
        out.push(h);
        proof {
            assert(preds@.subrange(0, i as int + 1).map_values(|m: MotionVector| halve(m))
                =~= preds@.subrange(0, i as int).map_values(|m: MotionVector| halve(m)).push(halve(m)));
        }
        i = i + 1;
    }
    assert(preds@.subrange(0, preds@.len() as int) =~= preds@);
    out
}

/// The half-resolution search of the block at `adj` in `rec`.
pub open spec fn hres_view(fi: FrameInvariants, ts: TileState, bsize: BlockSize, adj: TileBlockOffset,
    rec: ReferenceFrame) -> SearchView
{
    let fx = ts.x + adj.x;
    let fy = ts.y + adj.y;
    let b = search_bounds(fi.w_in_b as int, fi.h_in_b as int, fx, fy, bsize.w() as int, bsize.h() as int);
    SearchView {
        org: ts.input_hres.window(2 * fx, 2 * fy, bsize.w() / 2, bsize.h() / 2),
        p_ref: rec.input_hres,
        po: PlaneOffset { x: (2 * fx) as isize, y: (2 * fy) as isize },
        w: (bsize.w() / 2) as usize,
        h: (bsize.h() / 2) as usize,
        lambda: fi.lambdas.half_res,
        pmv: [zero_mv(), zero_mv()],
        allow_high_precision_mv: fi.allow_high_precision_mv,
        bounds: scale_bounds(b, 2),
    }
}

/// Half-resolution diamond search seeded with the halved candidate list.
pub open spec fn me_ss2_spec(fi: FrameInvariants, ts: TileState, pmvs: Seq<Option<MotionVector>>,
    adj: TileBlockOffset, rec: ReferenceFrame, ref_frame: int, bsize: BlockSize) -> FullpelSearchResult
{
    let v = hres_view(fi, ts, bsize, adj, rec);
    let preds = subset_predictors_spec(adj, somes(pmvs), ts.mvs@[ref_frame], origin_of(ts),
        fi.prev_mvs(ref_frame), bsize).map_values(|m: MotionVector| halve(m));
    diamond_from(v, best_of(v, preds), 4, 3)
}

/// The half-resolution block lies in the tile and in the half-resolution input.
pub open spec fn hres_fits(ts: TileState, bsize: BlockSize, adj: TileBlockOffset) -> bool {
    &&& block_inside(adj.x as int, adj.y as int, bsize.w_mi() as int, bsize.h_mi() as int,
        ts.mi_width as int, ts.mi_height as int)
    &&& ts.input_hres.window_fits(2 * (ts.x + adj.x), 2 * (ts.y + adj.y), bsize.w() / 2, bsize.h() / 2)
}

/// The vector of the half-resolution stage, doubled back to full resolution.
pub open spec fn estimate_motion_ss2_spec(fi: FrameInvariants, ts: TileState, bsize: BlockSize,
    tile_bo: TileBlockOffset, pmvs: Seq<Option<MotionVector>>, ref_frame: int) -> Option<MotionVector>
{
    match fi.reference(ref_frame) {
        None => None,
        Some(rec) => {
            let adj = adjust_bo_spec(tile_bo, ts.mi_width as int, ts.mi_height as int, bsize.w() as int, bsize.h() as int);
            if !hres_fits(ts, bsize, adj) {
                None
            } else {
                let mv = me_ss2_spec(fi, ts, pmvs, adj, rec, ref_frame, bsize).mv;
                Some(MotionVector { row: (mv.row * 2) as i16, col: (mv.col * 2) as i16 })
            }
        },
    }
}

/// Half-resolution diamond search of the block at `tile_bo_adj`.
fn me_ss2(fi: &FrameInvariants, ts: &TileState, pmvs: &[Option<MotionVector>; 3], tile_bo_adj: TileBlockOffset,
    rec: &ReferenceFrame, ctx: &SearchContext, ref_frame: usize, bsize: BlockSize) -> (r: FullpelSearchResult)
    requires
        fi.wf(),
        ts.wf(),
        ctx.wf(),
        bsize.wf(),
        ref_frame < REF_FRAMES,
        ctx@ == hres_view(*fi, *ts, bsize, tile_bo_adj, *rec),
        block_inside(tile_bo_adj.x as int, tile_bo_adj.y as int, bsize.w_mi() as int, bsize.h_mi() as int,
            ts.mi_width as int, ts.mi_height as int),
    ensures
        r == me_ss2_spec(*fi, *ts, pmvs@, tile_bo_adj, *rec, ref_frame as int, bsize),
{
    let cmvs = collect_somes(pmvs.as_slice());
    let prev = prev_frame_mvs(fi, ref_frame);
    let predictors = get_subset_predictors(tile_bo_adj, cmvs.as_slice(), &ts.mvs[ref_frame],
        TileBlockOffset { x: ts.x, y: ts.y }, prev, bsize);
    let halved = halve_list(mv_list_as_slice(&predictors));
    fullpel_diamond_me_search(ctx, halved.as_slice())
}

/// Diamond search of the block at `tile_bo` (moved into the tile) on the
/// half-resolution planes, doubled back to full resolution; `None` where the
/// reference holds no frame or the block does not fit the tile or the
/// half-resolution input.
#[verifier::rlimit(50)]
pub fn estimate_motion_ss2(fi: &FrameInvariants, ts: &TileState, bsize: BlockSize, tile_bo: TileBlockOffset,
    pmvs: &[Option<MotionVector>; 3], ref_frame: usize) -> (r: Option<MotionVector>)
    requires
        fi.wf(),
        ts.wf(),
        bsize.wf(),
        ref_frame < REF_FRAMES,
        tile_bo.x <= MAX_GRID_SIDE,
        tile_bo.y <= MAX_GRID_SIDE,
    ensures
        r == estimate_motion_ss2_spec(*fi, *ts, bsize, tile_bo, pmvs@, ref_frame as int),
        fi.reference(ref_frame as int) is None ==> r is None,
{
    let slot = fi.ref_frames[ref_frame] as usize;
    match &fi.rec_buffer[slot] {
        None => None,
        Some(rec) => {
            let blk_w = bsize.width();
            let blk_h = bsize.height();
            let adj = adjust_bo(tile_bo, ts.mi_width, ts.mi_height, blk_w, blk_h);
            if adj.x + bsize.width_mi() > ts.mi_width || adj.y + bsize.height_mi() > ts.mi_height {
                return None;
            }
            let fx = ts.x + adj.x;
            let fy = ts.y + adj.y;
            let b = clamp_bounds(get_mv_range(fi.w_in_b, fi.h_in_b, TileBlockOffset { x: fx, y: fy }, blk_w, blk_h));
            let po = PlaneOffset { x: (2 * fx) as isize, y: (2 * fy) as isize };
            match ts.input_hres.region(po.x, po.y, blk_w / 2, blk_h / 2) {
                None => None,
                Some(org) => {
                    let z = MotionVector { row: 0, col: 0 };
                    let ctx = SearchContext {
                        org,
                        p_ref: &rec.input_hres,
                        po,
                        w: blk_w / 2,
                        h: blk_h / 2,
                        lambda: fi.lambdas.half_res,
                        pmv: [z, z],
                        allow_high_precision_mv: fi.allow_high_precision_mv,
                        bounds: scale_bounds_exec(b, 2),
                    };
                    assert(ctx@ == hres_view(*fi, *ts, bsize, adj, *rec));
                    let best = me_ss2(fi, ts, pmvs, adj, rec, &ctx, ref_frame, bsize);
                    proof {
                        let preds = subset_predictors_spec(adj, somes(pmvs@), ts.mvs@[ref_frame as int], origin_of(*ts),
                            fi.prev_mvs(ref_frame as int), bsize).map_values(|m: MotionVector| halve(m));
                        lemma_diamond_search_in_range(ctx@, preds);
                    }
                    Some(scale_up(best.mv, 2, Ghost(b)))
                },
            }
        },
    }
}

/// `after` is `before` with `stats` written to every cell of the tile that the
/// block at `bo` of `bsize` covers, in the grids of reference `r`.
pub open spec fn saved(before: TileState, after: TileState, bsize: BlockSize, bo: TileBlockOffset, r: int,
    stats: MEStats) -> bool
{
    &&& same_tile_shape(before, after)
    &&& forall|i: int| 0 <= i < REF_FRAMES && i != r ==> #[trigger] after.me_stats@[i] == before.me_stats@[i]
    &&& forall|i: int| 0 <= i < REF_FRAMES && i != r ==> #[trigger] after.mvs@[i] == before.mvs@[i]
    &&& forall|y: int, x: int| 0 <= y < before.mi_height && 0 <= x < before.mi_width ==> {
        let covered = in_rect(y, x, bo.x as int, bo.y as int, bo.x + bsize.w_mi(), bo.y + bsize.h_mi());
        &&& #[trigger] after.me_stats@[r].at(y, x) == if covered { stats } else { before.me_stats@[r].at(y, x) }
        &&& after.mvs@[r].at(y, x) == if covered { stats.mv } else { before.mvs@[r].at(y, x) }
    }
}

/// Writes `stats` to every cell of the tile that the block at `tile_bo` of
/// `bsize` covers, in the statistics and vector grids of `ref_frame`.
pub fn save_me_stats(ts: &mut TileState, bsize: BlockSize, tile_bo: TileBlockOffset, ref_frame: usize, stats: MEStats)
    requires
        old(ts).wf(),
        bsize.wf(),
        ref_frame < REF_FRAMES,
        tile_bo.x <= MAX_GRID_SIDE,
        tile_bo.y <= MAX_GRID_SIDE,
    ensures
        saved(*old(ts), *final(ts), bsize, tile_bo, ref_frame as int, stats),
{
    let x_end0 = tile_bo.x + bsize.width_mi();
    let x_end = if x_end0 < ts.mi_width { x_end0 } else { ts.mi_width };
    let y_end0 = tile_bo.y + bsize.height_mi();
    let y_end = if y_end0 < ts.mi_height { y_end0 } else { ts.mi_height };
    let mut g = ts.me_stats.remove(ref_frame);
    g.fill_rect(tile_bo.x, tile_bo.y, x_end, y_end, stats);
    ts.me_stats.insert(ref_frame, g);
    let mut m = ts.mvs.remove(ref_frame);
    m.fill_rect(tile_bo.x, tile_bo.y, x_end, y_end, stats.mv);
    ts.mvs.insert(ref_frame, m);
    proof {
        assert forall|i: int| 0 <= i < REF_FRAMES && i != ref_frame implies #[trigger] ts.me_stats@[i] == old(ts).me_stats@[i] by {}
    }
}

/// Full-pel search of the block at `tile_bo` seeded with `cmv`, then sub-pel
/// refinement with predictions from `pred`: the refined vector and the
/// full-pel SAD. `(zero, u32::MAX)` where the reference holds no frame or
/// the block does not fit the tile or the input plane.
pub fn motion_estimation<P: BlockPredictor>(fi: &FrameInvariants, ts: &TileState, bsize: BlockSize,
    tile_bo: TileBlockOffset, ref_frame: usize, cmv: MotionVector, pmv: [MotionVector; 2], pred: &P)
    -> (r: (MotionVector, u32))
    requires
        fi.wf(),
        ts.wf(),
        bsize.wf(),
        ref_frame < REF_FRAMES,
        tile_bo.x <= MAX_GRID_SIDE,
        tile_bo.y <= MAX_GRID_SIDE,
    ensures
        match fi.reference(ref_frame as int) {
            None => r == (zero_mv(), u32::MAX),
            Some(rec) => if !fullres_fits(*ts, bsize, tile_bo) {
                r == (zero_mv(), u32::MAX)
            } else {
                let v = fullres_view(*fi, *ts, bsize, tile_bo, rec.frame, fi.lambdas.fullpel, pmv);
                let fp = full_pixel_me_spec(*fi, *ts, v, tile_bo, seq![cmv], ref_frame as int, bsize);
                let start = MVSearchResult {
                    mv: fp.mv,
                    cost: if fi.use_satd_subpel { v.fullpel_rd(true, fp.mv).0 as u64 } else { fp.cost },
                };
                &&& r.1 == fp.sad
                &&& r.0 == subpel_from(v, fi.use_satd_subpel, *pred, start, 2,
                    subpel_end(fi.allow_high_precision_mv)).mv
            },
        },
{
    let slot = fi.ref_frames[ref_frame] as usize;
    match &fi.rec_buffer[slot] {
        None => (MotionVector { row: 0, col: 0 }, u32::MAX),
        Some(rec) => {
            let blk_w = bsize.width();
            let blk_h = bsize.height();
            if tile_bo.x + bsize.width_mi() > ts.mi_width || tile_bo.y + bsize.height_mi() > ts.mi_height {
                return (MotionVector { row: 0, col: 0 }, u32::MAX);
            }
            let fx = ts.x + tile_bo.x;
            let fy = ts.y + tile_bo.y;
            let bounds = clamp_bounds(get_mv_range(fi.w_in_b, fi.h_in_b, TileBlockOffset { x: fx, y: fy }, blk_w, blk_h));
            let po = PlaneOffset { x: (fx * 4) as isize, y: (fy * 4) as isize };
            match ts.input.region(po.x, po.y, blk_w, blk_h) {
                None => (MotionVector { row: 0, col: 0 }, u32::MAX),
                Some(org) => {
                    let ctx = SearchContext {
                        org,
                        p_ref: &rec.frame,
                        po,
                        w: blk_w,
                        h: blk_h,
                        lambda: fi.lambdas.fullpel,
                        pmv,
                        allow_high_precision_mv: fi.allow_high_precision_mv,
                        bounds,
                    };
                    assert(ctx@ == fullres_view(*fi, *ts, bsize, tile_bo, rec.frame, fi.lambdas.fullpel, pmv));
                    let cmvs = [cmv];
                    assert(cmvs@ =~= seq![cmv]);
                    let best = full_pixel_me(fi, ts, &ctx, tile_bo, cmvs.as_slice(), ref_frame, bsize);
                    let sad = best.sad;
                    let mut refined = MVSearchResult { mv: best.mv, cost: best.cost };
                    let use_satd = fi.use_satd_subpel;
                    if use_satd {
                        refined.cost = get_fullpel_mv_rd_cost(&ctx, use_satd, refined.mv).0;
                    }
                    sub_pixel_me(&ctx, use_satd, &mut refined, pred);
                    (refined.mv, sad)
                },
            }
        },
    }
}

/// `best`, or the diamond search seeded with the best of `preds` where that
/// is strictly cheaper.
pub open spec fn try_cand_spec(v: SearchView, preds: Seq<MotionVector>, best: FullpelSearchResult) -> FullpelSearchResult {
    pick(best, diamond_from(v, best_of(v, preds), 4, 3))
}

fn try_cand(ctx: &SearchContext, predictors: &[MotionVector], best: &mut FullpelSearchResult)
    requires
        ctx.wf(),
    ensures
        *final(best) == try_cand_spec(ctx@, predictors@, *old(best)),
{
    let mut results = get_best_predictor(ctx, predictors);
    fullpel_diamond_me_search_alt(ctx, &mut results);
    if results.cost < best.cost {
        *best = results;
    }
}

/// The present value of `o` as a sequence of at most one item.
pub open spec fn opt_seq(o: Option<MotionVector>) -> Seq<MotionVector> {
    match o {
        Some(m) => seq![m],
        None => Seq::empty(),
    }
}

/// The early-exit threshold: the neighbours' smallest SAD times 1.2 (rounded
/// down) plus the block's area in pixels.
pub open spec fn alt_threshold(min_sad: int, bsize: BlockSize) -> int {
    min_sad * 6 / 5 + bsize.w() * bsize.h()
}

/// The exhaustive search window of the hierarchical search at decimation
/// `ssdec`: `me_range_scale` times 192 by 64 pixels scaled down, within the
/// legal range.
pub open spec fn alt_full_search_spec(v: SearchView, me_range_scale: int, ssdec: nat) -> FullpelSearchResult {
    let range_x = 192 * me_range_scale / pow2_spec(ssdec) as int;
    let range_y = 64 * me_range_scale / pow2_spec(ssdec) as int;
    let b = v.bounds;
    let x_lo = v.po.x + (if -range_x > b.mvx_min / 8 { -range_x } else { b.mvx_min / 8 });
    let x_hi = v.po.x + (if range_x < b.mvx_max / 8 { range_x } else { b.mvx_max / 8 });
    let y_lo = v.po.y + (if -range_y > b.mvy_min / 8 { -range_y } else { b.mvy_min / 8 });
    let y_hi = v.po.y + (if range_y < b.mvy_max / 8 { range_y } else { b.mvy_max / 8 });
    full_search_spec(v, x_lo, x_hi, y_lo, y_hi, 4int / pow2_spec(ssdec) as int)
}

/// The hierarchical full-pel search: all candidates at once when an
/// exhaustive search is not allowed; otherwise the median, the spatial and
/// the temporal candidates in turn, stopping as soon as the best SAD is
/// below the threshold, and an exhaustive search when none is.
pub open spec fn full_pixel_me_alt_spec(v: SearchView, min_sad: int, median: Option<MotionVector>,
    b: Seq<MotionVector>, c: Seq<MotionVector>, can_full_search: bool, bsize: BlockSize, me_range_scale: int,
    ssdec: nat) -> FullpelSearchResult
{
    let thresh = alt_threshold(min_sad, bsize);
    if !can_full_search {
        try_cand_spec(v, opt_seq(median) + b + c, no_result())
    } else {
        let b1 = match median {
            Some(m) => try_cand_spec(v, seq![m], no_result()),
            None => no_result(),
        };
        if median is Some && b1.sad < thresh {
            b1
        } else {
            let b2 = try_cand_spec(v, b, b1);
            if b2.sad < thresh {
                b2
            } else {
                let b3 = try_cand_spec(v, c, b2);
                if b3.sad < thresh {
                    b3
                } else {
                    pick(b3, alt_full_search_spec(v, me_range_scale, ssdec))
                }
            }
        }
    }
}

/// The candidate subsets of `q` as `full_pixel_me_alt_spec` takes them.
pub open spec fn alt_b(q: SubsetQuery, g: FrameMEStats) -> Seq<MotionVector> {
    (q.spatial(g) + q.far(g)).map_values(|st: MEStats| q.cand(st)).push(zero_mv())
}

pub open spec fn alt_c(q: SubsetQuery, prev: Option<FrameMEStats>) -> Seq<MotionVector> {
    q.temporal(prev).map_values(|st: MEStats| q.cand(st))
}

pub open spec fn alt_min_sad(q: SubsetQuery, g: FrameMEStats, prev: Option<FrameMEStats>) -> int {
    (min_sad_of(q.all_samples(g, prev)) >> (q.sad_shift() as u32)) as int
}

fn prev_frame_stats(fi: &FrameInvariants, ref_frame: usize) -> (r: Option<&FrameMEStats>)
    requires
        fi.wf(),
        ref_frame < REF_FRAMES,
    ensures
        match r { Some(p) => Some(*p), None => None } == fi.prev_stats(ref_frame as int),
        r matches Some(p) ==> p.wf(),
{
    let slot = fi.ref_frames[0] as usize;
    match &fi.rec_buffer[slot] {
        Some(rec) => Some(&rec.frame_me_stats[ref_frame]),
        None => None,
    }
}

/// One diamond search seeded with the median, spatial and temporal
/// candidates together.
fn try_all(ctx: &SearchContext, median: Option<MotionVector>, b: &[MotionVector], c: &[MotionVector],
    best: &mut FullpelSearchResult)
    requires
        ctx.wf(),
        *old(best) == no_result(),
    ensures
        *final(best) == try_cand_spec(ctx@, opt_seq(median) + b@ + c@, no_result()),
        in_range(ctx@, *final(best)),
{
    let mut allmvs: Vec<MotionVector> = Vec::new();
    if let Some(m) = median {
        allmvs.push(m);
    }
    assert(allmvs@ =~= opt_seq(median) + b@.subrange(0, 0));
    let mut i: usize = 0;
    while i < b.len()
        invariant
            i <= b@.len(),
            allmvs@ == opt_seq(median) + b@.subrange(0, i as int),
        decreases b@.len() - i,
    {
        allmvs.push(b[i]);
        proof {
            assert(opt_seq(median) + b@.subrange(0, i as int + 1)
                =~= (opt_seq(median) + b@.subrange(0, i as int)).push(b@[i as int]));
        }
        i = i + 1;
    }
    assert(allmvs@ =~= opt_seq(median) + b@ + c@.subrange(0, 0));
    let mut j: usize = 0;
    while j < c.len()
        invariant
            j <= c@.len(),
            allmvs@ == opt_seq(median) + b@ + c@.subrange(0, j as int),
        decreases c@.len() - j,
    {
        allmvs.push(c[j]);
        proof {
            assert(opt_seq(median) + b@ + c@.subrange(0, j as int + 1)
                =~= (opt_seq(median) + b@ + c@.subrange(0, j as int)).push(c@[j as int]));
        }
        j = j + 1;
    }
    assert(c@.subrange(0, c@.len() as int) =~= c@);
    try_cand(ctx, allmvs.as_slice(), best);
    proof {
        lemma_alt_try_in_range(ctx@, opt_seq(median) + b@ + c@, no_result());
    }
}

/// The exhaustive search of the hierarchical search, as `alt_full_search_spec` says.
fn alt_full_search(fi: &FrameInvariants, ctx: &SearchContext, ssdec: u8) -> (r: FullpelSearchResult)
    requires
        ctx.wf(),
        ssdec <= 2,
    ensures
        r == alt_full_search_spec(ctx@, fi.me_range_scale as int, ssdec as nat),
        in_range(ctx@, r),
{
    let mult: isize = if ssdec == 0 { 1 } else if ssdec == 1 { 2 } else { 4 };
    proof {
        reveal_with_fuel(pow2_spec, 3);
    }
    let range_x = 192 * fi.me_range_scale as isize / mult;
    let range_y = 64 * fi.me_range_scale as isize / mult;
    let bnd = ctx.bounds;
    let bx_min = floor_div8(bnd.mvx_min as i32) as isize;
    let bx_max = floor_div8(bnd.mvx_max as i32) as isize;
    let by_min = floor_div8(bnd.mvy_min as i32) as isize;
    let by_max = floor_div8(bnd.mvy_max as i32) as isize;
    let x_lo = ctx.po.x + if -range_x > bx_min { -range_x } else { bx_min };
    let x_hi = ctx.po.x + if range_x < bx_max { range_x } else { bx_max };
    let y_lo = ctx.po.y + if -range_y > by_min { -range_y } else { by_min };
    let y_hi = ctx.po.y + if range_y < by_max { range_y } else { by_max };
    let step = (4 / mult) as usize;
    let results = full_search(ctx, x_lo, x_hi, y_lo, y_hi, step);
    proof {
        lemma_full_search_in_range(ctx@, x_lo as int, x_hi as int, y_lo as int, y_hi as int, step as int);
    }
    results
}

/// The hierarchical full-pel search of `ctx` with the candidates of `q`, as
/// `full_pixel_me_alt_spec` says.
#[verifier::rlimit(50)]
fn full_pixel_me_alt(fi: &FrameInvariants, ts: &TileState, ctx: &SearchContext, q: &SubsetQuery, ref_frame: usize,
    can_full_search: bool) -> (r: FullpelSearchResult)
    requires
        fi.wf(),
        ts.wf(),
        ctx.wf(),
        ref_frame < REF_FRAMES,
        q.valid(ts.me_stats@[ref_frame as int]),
        ctx@.bounds == q.bounds,
    ensures
        r == full_pixel_me_alt_spec(ctx@, alt_min_sad(*q, ts.me_stats@[ref_frame as int], fi.prev_stats(ref_frame as int)),
            q.median_spec(ts.me_stats@[ref_frame as int]), alt_b(*q, ts.me_stats@[ref_frame as int]),
            alt_c(*q, fi.prev_stats(ref_frame as int)), can_full_search, q.bsize, fi.me_range_scale as int,
            q.ssdec as nat),
        in_range(ctx@, r),
{
    let prev = prev_frame_stats(fi, ref_frame);
    let subsets = get_subset_predictors_alt(q, &ts.me_stats[ref_frame], prev);
    let b = mv_list_as_slice(&subsets.subset_b);
    let c = mv_list_as_slice(&subsets.subset_c);
    let bw = q.bsize.width();
    let bh = q.bsize.height();
    proof {
        assert(bw * bh <= 128 * 128) by (nonlinear_arith) requires bw <= 128, bh <= 128;
    }
    let area = bw * bh;
    let thresh: u64 = subsets.min_sad as u64 * 6 / 5 + area as u64;
    let mut best = FullpelSearchResult { mv: MotionVector { row: 0, col: 0 }, cost: u64::MAX, sad: u32::MAX };
    let ghost v = ctx@;
    if !can_full_search {
        try_all(ctx, subsets.median, b, c, &mut best);
        return best;
    }
    if let Some(median) = subsets.median {
        let m = [median];
        assert(m@ =~= seq![median]);
        try_cand(ctx, m.as_slice(), &mut best);
        proof {
            lemma_alt_try_in_range(v, seq![median], no_result());
        }
        if (best.sad as u64) < thresh {
            return best;
        }
    }
    let ghost b1 = best;
    try_cand(ctx, b, &mut best);
    proof {
        lemma_alt_try_in_range(v, b@, b1);
    }
    if (best.sad as u64) < thresh {
        return best;
    }
    let ghost b2 = best;
    try_cand(ctx, c, &mut best);
    proof {
        lemma_alt_try_in_range(v, c@, b2);
    }
    if (best.sad as u64) < thresh {
        return best;
    }
    let results = alt_full_search(fi, ctx, q.ssdec);
    if results.cost < best.cost {
        results
    } else {
        best
    }
}

proof fn lemma_alt_try_in_range(v: SearchView, preds: Seq<MotionVector>, best: FullpelSearchResult)
    requires
        v.bounds.wf(),
        in_range(v, best),
    ensures
        in_range(v, try_cand_spec(v, preds, best)),
{
    lemma_best_of_in_range(v, preds);
    lemma_diamond_from_in_range(v, best_of(v, preds), 4, 3);
}

/// Log2 of the decimation used by the hierarchical search for a block size.
pub open spec fn alt_ssdec(bsize: BlockSize) -> nat {
    if bsize.width_log2 == 6 { 2 } else if bsize.width_log2 == 5 { 1 } else { 0 }
}

pub open spec fn input_plane(ts: TileState, ssdec: nat) -> Plane {
    if ssdec == 0 { ts.input } else if ssdec == 1 { ts.input_hres } else { ts.input_qres }
}

pub open spec fn ref_plane(rec: ReferenceFrame, ssdec: nat) -> Plane {
    if ssdec == 0 { rec.frame } else if ssdec == 1 { rec.input_hres } else { rec.input_qres }
}

/// The candidate query of the hierarchical search of the block at `adj`.
pub open spec fn alt_query(fi: FrameInvariants, ts: TileState, bsize: BlockSize, adj: TileBlockOffset,
    corner: BlockCorner) -> SubsetQuery
{
    let ssdec = alt_ssdec(bsize);
    let b = search_bounds(fi.w_in_b as int, fi.h_in_b as int, ts.x + adj.x, ts.y + adj.y, bsize.w() as int,
        bsize.h() as int);
    SubsetQuery {
        tile_bo: adj,
        tile_origin: origin_of(ts),
        bsize: BlockSize { width_log2: (bsize.width_log2 - ssdec) as usize, height_log2: (bsize.height_log2 - ssdec) as usize },
        bounds: scale_bounds(b, pow2_spec(ssdec) as int),
        corner,
        ssdec: ssdec as u8,
    }
}

/// The search of the hierarchical stage of the block at `adj` in `rec`.
pub open spec fn alt_view(fi: FrameInvariants, ts: TileState, bsize: BlockSize, adj: TileBlockOffset,
    rec: ReferenceFrame) -> SearchView
{
    let ssdec = alt_ssdec(bsize);
    let d = pow2_spec(ssdec) as int;
    let px = (ts.x + adj.x) * 4 / d;
    let py = (ts.y + adj.y) * 4 / d;
    let b = search_bounds(fi.w_in_b as int, fi.h_in_b as int, ts.x + adj.x, ts.y + adj.y, bsize.w() as int,
        bsize.h() as int);
    SearchView {
        org: input_plane(ts, ssdec).window(px, py, (bsize.w() / d as nat), (bsize.h() / d as nat)),
        p_ref: ref_plane(rec, ssdec),
        po: PlaneOffset { x: px as isize, y: py as isize },
        w: (bsize.w() / d as nat) as usize,
        h: (bsize.h() / d as nat) as usize,
        lambda: if bsize.w() <= 16 { fi.lambdas.fullpel } else { fi.lambdas.fullpel_large },
        pmv: [zero_mv(), zero_mv()],
        allow_high_precision_mv: fi.allow_high_precision_mv,
        bounds: scale_bounds(b, d),
    }
}

/// The block lies in the tile and its decimated source lies in the input.
pub open spec fn alt_fits(ts: TileState, bsize: BlockSize, adj: TileBlockOffset) -> bool {
    let ssdec = alt_ssdec(bsize);
    let d = pow2_spec(ssdec) as int;
    &&& block_inside(adj.x as int, adj.y as int, bsize.w_mi() as int, bsize.h_mi() as int,
        ts.mi_width as int, ts.mi_height as int)
    &&& input_plane(ts, ssdec).window_fits((ts.x + adj.x) * 4 / d, (ts.y + adj.y) * 4 / d,
        bsize.w() / d as nat, bsize.h() / d as nat)
}

/// The hierarchical search of the block at `tile_bo` (moved into the tile),
/// scaled back to full resolution: the vector times the decimation and the
/// SAD times its square.
pub open spec fn estimate_motion_alt_spec(fi: FrameInvariants, ts: TileState, bsize: BlockSize,
    tile_bo: TileBlockOffset, ref_frame: int, corner: BlockCorner, can_full_search: bool)
    -> Option<FullpelSearchResult>
{
    match fi.reference(ref_frame) {
        None => None,
        Some(rec) => {
            let adj = adjust_bo_spec(tile_bo, ts.mi_width as int, ts.mi_height as int, bsize.w() as int, bsize.h() as int);
            if !alt_fits(ts, bsize, adj) {
                None
            } else {
                let q = alt_query(fi, ts, bsize, adj, corner);
                let g = ts.me_stats@[ref_frame];
                let prev = fi.prev_stats(ref_frame);
                let u = full_pixel_me_alt_spec(alt_view(fi, ts, bsize, adj, rec), alt_min_sad(q, g, prev),
                    q.median_spec(g), alt_b(q, g), alt_c(q, prev), can_full_search, q.bsize,
                    fi.me_range_scale as int, q.ssdec as nat);
                let k = pow2_spec(q.ssdec as nat) as int;
                Some(FullpelSearchResult {
                    mv: MotionVector { row: (u.mv.row * k) as i16, col: (u.mv.col * k) as i16 },
                    cost: u.cost,
                    sad: u.sad << (2 * q.ssdec) as u32,
                })
            }
        },
    }
}

proof fn lemma_alt_query_valid(fi: FrameInvariants, ts: TileState, bsize: BlockSize, adj: TileBlockOffset,
    corner: BlockCorner, ref_frame: int)
    requires
        fi.wf(),
        ts.wf(),
        bsize.wf(),
        bsize.width_log2 == bsize.height_log2,
        0 <= ref_frame < REF_FRAMES,
        block_inside(adj.x as int, adj.y as int, bsize.w_mi() as int, bsize.h_mi() as int,
            ts.mi_width as int, ts.mi_height as int),
        scale_bounds(search_bounds(fi.w_in_b as int, fi.h_in_b as int, ts.x + adj.x, ts.y + adj.y,
            bsize.w() as int, bsize.h() as int), pow2_spec(alt_ssdec(bsize)) as int).wf(),
    ensures
        alt_query(fi, ts, bsize, adj, corner).valid(ts.me_stats@[ref_frame]),
{
    let q = alt_query(fi, ts, bsize, adj, corner);
    let sd = alt_ssdec(bsize);
    assert(sd + 2 <= bsize.width_log2);
    assert(q.ssdec as nat == sd);
    lemma_pow2_add((bsize.width_log2 - sd - 2) as nat, sd);
    assert(((bsize.width_log2 - sd - 2) as nat + sd) as nat == (bsize.width_log2 - 2) as nat);
    assert(q.wq() == bsize.w_mi() && q.hq() == bsize.h_mi());
}

proof fn lemma_pow2_add(a: nat, b: nat)
    ensures
        pow2_spec(a) * pow2_spec(b) == pow2_spec(a + b),
    decreases a,
{
    if a > 0 {
        lemma_pow2_add((a - 1) as nat, b);
        assert(pow2_spec(a) == 2 * pow2_spec((a - 1) as nat));
        assert(((a - 1) as nat + b) as nat + 1 == a + b);
        assert(pow2_spec(a + b) == 2 * pow2_spec(((a - 1) as nat + b) as nat));
        let x = pow2_spec((a - 1) as nat);
        let y = pow2_spec(b);
        assert(pow2_spec(a) * y == 2 * (x * y)) by (nonlinear_arith)
            requires pow2_spec(a) == 2 * x;
    } else {
        assert(pow2_spec(0) == 1);
        assert(a + b == b);
    }
}

/// The hierarchical search of the square block at `adj`, which lies in the tile.
#[verifier::rlimit(60)]
fn alt_search(fi: &FrameInvariants, ts: &TileState, rec: &ReferenceFrame, bsize: BlockSize, adj: TileBlockOffset,
    ref_frame: usize, corner: BlockCorner, can_full_search: bool) -> (r: Option<FullpelSearchResult>)
    requires
        fi.wf(),
        ts.wf(),
        rec.wf(),
        fi.reference(ref_frame as int) == Some(*rec),
        bsize.wf(),
        bsize.width_log2 == bsize.height_log2,
        ref_frame < REF_FRAMES,
        block_inside(adj.x as int, adj.y as int, bsize.w_mi() as int, bsize.h_mi() as int,
            ts.mi_width as int, ts.mi_height as int),
    ensures
        r == (if !alt_fits(*ts, bsize, adj) {
            None
        } else {
            let q = alt_query(*fi, *ts, bsize, adj, corner);
            let g = ts.me_stats@[ref_frame as int];
            let prev = fi.prev_stats(ref_frame as int);
            let u = full_pixel_me_alt_spec(alt_view(*fi, *ts, bsize, adj, *rec), alt_min_sad(q, g, prev),
                q.median_spec(g), alt_b(q, g), alt_c(q, prev), can_full_search, q.bsize,
                fi.me_range_scale as int, q.ssdec as nat);
            let k = pow2_spec(q.ssdec as nat) as int;
            Some(FullpelSearchResult {
                mv: MotionVector { row: (u.mv.row * k) as i16, col: (u.mv.col * k) as i16 },
                cost: u.cost,
                sad: u.sad << (2 * q.ssdec) as u32,
            })
        }),
{
    proof {
        reveal_with_fuel(pow2_spec, 8);
    }
    let blk_w = bsize.width();
    let blk_h = bsize.height();
    let ssdec: u8 = if bsize.width_log2 == 6 { 2 } else if bsize.width_log2 == 5 { 1 } else { 0 };
    let d: usize = if ssdec == 2 { 4 } else if ssdec == 1 { 2 } else { 1 };
    let fx = ts.x + adj.x;
    let fy = ts.y + adj.y;
    let b = clamp_bounds(get_mv_range(fi.w_in_b, fi.h_in_b, TileBlockOffset { x: fx, y: fy }, blk_w, blk_h));
    let bounds = scale_bounds_exec(b, d as i32);
    let lambda = if blk_w <= 16 { fi.lambdas.fullpel } else { fi.lambdas.fullpel_large };
    let po = PlaneOffset { x: (fx * 4 / d) as isize, y: (fy * 4 / d) as isize };
    let dec_bsize = BlockSize {
        width_log2: bsize.width_log2 - ssdec as usize,
        height_log2: bsize.height_log2 - ssdec as usize,
    };
    let input = if ssdec == 0 { &ts.input } else if ssdec == 1 { &ts.input_hres } else { &ts.input_qres };
    let p_ref = if ssdec == 0 { &rec.frame } else if ssdec == 1 { &rec.input_hres } else { &rec.input_qres };
    match input.region(po.x, po.y, blk_w / d, blk_h / d) {
        None => None,
        Some(org) => {
            let z = MotionVector { row: 0, col: 0 };
            let ctx = SearchContext {
                org,
                p_ref,
                po,
                w: blk_w / d,
                h: blk_h / d,
                lambda,
                pmv: [z, z],
                allow_high_precision_mv: fi.allow_high_precision_mv,
                bounds,
            };
            let q = SubsetQuery {
                tile_bo: adj,
                tile_origin: TileBlockOffset { x: ts.x, y: ts.y },
                bsize: dec_bsize,
                bounds,
                corner,
                ssdec,
            };
            assert(ctx@ == alt_view(*fi, *ts, bsize, adj, *rec));
            assert(q == alt_query(*fi, *ts, bsize, adj, corner));
            proof {
                lemma_alt_query_valid(*fi, *ts, bsize, adj, corner, ref_frame as int);
            }
            let results = full_pixel_me_alt(fi, ts, &ctx, &q, ref_frame, can_full_search);
            let mv = scale_up(results.mv, d as i16, Ghost(b));
            Some(FullpelSearchResult { mv, cost: results.cost, sad: results.sad << (2 * ssdec as u32) })
        },
    }
}

/// The hierarchical search of the square block at `tile_bo` (moved into the
/// tile) on the planes decimated for its size; `None` where the reference
/// holds no frame or the block does not fit the tile or the input.
#[verifier::rlimit(60)]
pub fn estimate_motion_alt(fi: &FrameInvariants, ts: &TileState, bsize: BlockSize, tile_bo: TileBlockOffset,
    ref_frame: usize, corner: BlockCorner, can_full_search: bool) -> (r: Option<FullpelSearchResult>)
    requires
        fi.wf(),
        ts.wf(),
        bsize.wf(),
        bsize.width_log2 == bsize.height_log2,
        ref_frame < REF_FRAMES,
        tile_bo.x <= MAX_GRID_SIDE,
        tile_bo.y <= MAX_GRID_SIDE,
    ensures
        r == estimate_motion_alt_spec(*fi, *ts, bsize, tile_bo, ref_frame as int, corner, can_full_search),
        fi.reference(ref_frame as int) is None ==> r is None,
{
    let slot = fi.ref_frames[ref_frame] as usize;
    match &fi.rec_buffer[slot] {
        None => None,
        Some(rec) => {
            let blk_w = bsize.width();
            let blk_h = bsize.height();
            let adj = adjust_bo(tile_bo, ts.mi_width, ts.mi_height, blk_w, blk_h);
            if adj.x + bsize.width_mi() > ts.mi_width || adj.y + bsize.height_mi() > ts.mi_height {
                return None;
            }
            alt_search(fi, ts, rec, bsize, adj, ref_frame, corner, can_full_search)
        },
    }
}

/// `after` differs from `before` at most in the statistics and vector grids,
/// which keep their shape.
pub open spec fn same_tile_shape(before: TileState, after: TileState) -> bool {
    &&& after.wf()
    &&& after.x == before.x
    &&& after.y == before.y
    &&& after.mi_width == before.mi_width
    &&& after.mi_height == before.mi_height
    &&& after.sb_width == before.sb_width
    &&& after.sb_height == before.sb_height
    &&& after.input == before.input
    &&& after.input_hres == before.input_hres
    &&& after.input_qres == before.input_qres
}

/// One block of a sweep: search it, and store what was found.
#[derive(Clone, Copy)]
pub struct PrepStep {
    pub bsize: BlockSize,
    pub bo: TileBlockOffset,
    pub r: usize,
    pub corner: BlockCorner,
    pub init: bool,
    /// Scales the SAD to the largest block size.
    pub shift: u32,
}

/// `after` is `before` after the block of `st`: unchanged where the search
/// finds nothing, else with the result stored over the block.
pub open spec fn prep_step(fi: FrameInvariants, before: TileState, after: TileState, st: PrepStep) -> bool {
    match estimate_motion_alt_spec(fi, before, st.bsize, st.bo, st.r as int, st.corner, st.init) {
        None => after == before,
        Some(res) => saved(before, after, st.bsize, st.bo, st.r as int,
            MEStats { mv: res.mv, sad: res.sad << st.shift }),
    }
}

/// `states` are the tile before and after each of `steps`.
pub open spec fn chain(fi: FrameInvariants, states: Seq<TileState>, steps: Seq<PrepStep>) -> bool {
    &&& states.len() == steps.len() + 1
    &&& forall|i: int| 0 <= i < steps.len() ==> prep_step(fi, states[i], states[i + 1], #[trigger] steps[i])
}

/// The blocks visited for one square.
pub struct Sweep {
    pub allowed: Seq<usize>,
    pub tile_bo: TileBlockOffset,
    pub init: bool,
    pub h_in_b: nat,
    pub w_in_b: nat,
}

pub open spec fn corner_at(init: bool, y: int, x: int, mv: int) -> BlockCorner {
    let bottom = (y / mv) % 2 == 1;
    let right = (x / mv) % 2 == 1;
    if init {
        BlockCorner::INIT
    } else if !bottom && !right {
        BlockCorner::NW
    } else if !bottom {
        BlockCorner::NE
    } else if !right {
        BlockCorner::SW
    } else {
        BlockCorner::SE
    }
}

/// The block of level `l` (side `2^l` grid units) at `(x, y)` in the square, for reference `r`.
pub open spec fn mk_step(sw: Sweep, l: nat, r: usize, y: nat, x: nat) -> PrepStep {
    PrepStep {
        bsize: BlockSize { width_log2: (l + 2) as usize, height_log2: (l + 2) as usize },
        bo: TileBlockOffset { x: (sw.tile_bo.x + x) as usize, y: (sw.tile_bo.y + y) as usize },
        r,
        corner: corner_at(sw.init, y as int, x as int, pow2_spec(l) as int),
        init: sw.init,
        shift: ((MAX_MIB_SIZE_LOG2 - l) * 2) as u32,
    }
}

/// Number of multiples of `m` below `n`.
pub open spec fn count_below(n: nat, m: nat) -> nat {
    ((n + m - 1) / m as int) as nat
}

/// The first `n` blocks of the row at `y`.
pub open spec fn steps_xs(sw: Sweep, l: nat, r: usize, y: nat, n: nat) -> Seq<PrepStep>
    decreases n,
{
    if n == 0 { Seq::empty() } else { steps_xs(sw, l, r, y, (n - 1) as nat).push(mk_step(sw, l, r, y, ((n - 1) * pow2_spec(l)) as nat)) }
}

/// The first `n` rows of blocks.
pub open spec fn steps_ys(sw: Sweep, l: nat, r: usize, n: nat) -> Seq<PrepStep>
    decreases n,
{
    if n == 0 {
        Seq::empty()
    } else {
        steps_ys(sw, l, r, (n - 1) as nat) + steps_xs(sw, l, r, ((n - 1) * pow2_spec(l)) as nat,
            count_below(sw.w_in_b, pow2_spec(l)))
    }
}

/// The blocks of level `l` for the first `k` references.
pub open spec fn steps_refs(sw: Sweep, l: nat, k: nat) -> Seq<PrepStep>
    decreases k,
{
    if k == 0 {
        Seq::empty()
    } else {
        steps_refs(sw, l, (k - 1) as nat) + steps_ys(sw, l, sw.allowed[k - 1], count_below(sw.h_in_b, pow2_spec(l)))
    }
}

/// The blocks of the first `k` levels, from level `hi` down.
pub open spec fn levels_down(sw: Sweep, hi: nat, k: nat) -> Seq<PrepStep>
    decreases k,
{
    if k == 0 { Seq::empty() } else { levels_down(sw, hi, (k - 1) as nat) + steps_refs(sw, (hi - (k - 1)) as nat, sw.allowed.len()) }
}

pub open spec fn sweep_of(ts: TileState, allowed: Seq<usize>, size_mi_log2: nat, tile_bo: TileBlockOffset, init: bool)
    -> Sweep
{
    let size = pow2_spec(size_mi_log2) as int;
    Sweep {
        allowed,
        tile_bo,
        init,
        h_in_b: (if size < ts.mi_height - tile_bo.y { size } else { ts.mi_height - tile_bo.y }) as nat,
        w_in_b: (if size < ts.mi_width - tile_bo.x { size } else { ts.mi_width - tile_bo.x }) as nat,
    }
}

/// The blocks of one square in visiting order: level by level (only the
/// first for the first sweep), reference by reference, in raster order.
pub open spec fn square_steps(ts: TileState, allowed: Seq<usize>, size_mi_log2: nat, tile_bo: TileBlockOffset,
    init: bool) -> Seq<PrepStep>
{
    let sw = sweep_of(ts, allowed, size_mi_log2, tile_bo, init);
    if init {
        levels_down(sw, size_mi_log2, 1)
    } else {
        levels_down(sw, (size_mi_log2 - 1) as nat, (size_mi_log2 - 2) as nat)
    }
}

/// `after` is `before` after the steps of `steps` in turn.
pub open spec fn run_steps(fi: FrameInvariants, before: TileState, after: TileState, steps: Seq<PrepStep>) -> bool {
    exists|states: Seq<TileState>| chain(fi, states, steps) && states[0] == before && states.last() == after
}

proof fn lemma_count_below(n: nat, m: nat, k: nat)
    requires
        m >= 1,
        k * m >= n,
        k == 0 || (k - 1) * m < n,
    ensures
        k == count_below(n, m),
{
    let a = (n + m - 1) as int;
    if k == 0 {
        assert(n == 0) by (nonlinear_arith) requires k * m >= n, k == 0;
        vstd::arithmetic::div_mod::lemma_fundamental_div_mod_converse(a, m as int, 0, a);
    } else {
        assert((k - 1) * m == k * m - m) by (nonlinear_arith);
        vstd::arithmetic::div_mod::lemma_fundamental_div_mod_converse(a, m as int, k as int, a - k * m);
    }
}

/// Hierarchical search of the square blocks of a `2^size_mi_log2` grid-unit
/// square at `tile_bo`, for each reference of `allowed_ref_frames`, storing
/// each result in the tile's grids. The first sweep (`init`) searches the
/// square whole; later sweeps search its halves and then quarters, down to
/// 16 by 16 pixels.
#[verifier::rlimit(80)]
pub fn prep_square_block_motion_estimation(fi: &FrameInvariants, ts: &mut TileState, allowed_ref_frames: &[usize],
    size_mi_log2: usize, tile_bo: TileBlockOffset, init: bool)
    requires
        fi.wf(),
        old(ts).wf(),
        2 <= size_mi_log2 <= 5,
        init || size_mi_log2 >= 3,
        tile_bo.x < old(ts).mi_width,
        tile_bo.y < old(ts).mi_height,
        forall|i: int| 0 <= i < allowed_ref_frames@.len() ==> #[trigger] allowed_ref_frames@[i] < REF_FRAMES,
    ensures
        same_tile_shape(*old(ts), *final(ts)),
        run_steps(*fi, *old(ts), *final(ts),
            square_steps(*old(ts), allowed_ref_frames@, size_mi_log2 as nat, tile_bo, init)),
{
    let ghost start = *ts;
    let size_mi = pow2_small(size_mi_log2);
    let hi = if init { size_mi_log2 } else { size_mi_log2 - 1 };
    let mut mv_size_log2 = hi;
    let h_in_b = if size_mi < ts.mi_height - tile_bo.y { size_mi } else { ts.mi_height - tile_bo.y };
    let w_in_b = if size_mi < ts.mi_width - tile_bo.x { size_mi } else { ts.mi_width - tile_bo.x };
    let ghost sw = sweep_of(start, allowed_ref_frames@, size_mi_log2 as nat, tile_bo, init);
    let ghost mut states: Seq<TileState> = seq![*ts];
    let ghost mut steps: Seq<PrepStep> = Seq::empty();
    let ghost mut k: nat = 0;
    assert(steps =~= levels_down(sw, hi as nat, 0));
    loop
        invariant_except_break
            k == hi - mv_size_log2,
            init ==> mv_size_log2 == hi,
            steps == levels_down(sw, hi as nat, k),
        invariant
            fi.wf(),
            same_tile_shape(start, *ts),
            2 <= mv_size_log2 <= hi <= 5,
            hi == if init { size_mi_log2 } else { (size_mi_log2 - 1) as usize },
            2 <= size_mi_log2 <= 5,
            init || size_mi_log2 >= 3,
            sw == sweep_of(start, allowed_ref_frames@, size_mi_log2 as nat, tile_bo, init),
            sw.h_in_b == h_in_b,
            sw.w_in_b == w_in_b,
            tile_bo.x < ts.mi_width,
            tile_bo.y < ts.mi_height,
            h_in_b <= 32,
            w_in_b <= 32,
            tile_bo.x + w_in_b <= ts.mi_width,
            tile_bo.y + h_in_b <= ts.mi_height,
            forall|i: int| 0 <= i < allowed_ref_frames@.len() ==> #[trigger] allowed_ref_frames@[i] < REF_FRAMES,
            chain(*fi, states, steps),
            states[0] == start,
            states.last() == *ts,
        ensures
            same_tile_shape(start, *ts),
            chain(*fi, states, steps),
            states[0] == start,
            states.last() == *ts,
            steps == square_steps(start, allowed_ref_frames@, size_mi_log2 as nat, tile_bo, init),
        decreases mv_size_log2,
    {
        let mv_size = pow2_small(mv_size_log2);
        let bsize = BlockSize { width_log2: mv_size_log2 + 2, height_log2: mv_size_log2 + 2 };
        let ghost l = mv_size_log2 as nat;
        let ghost level_start = steps;
        let mut ri: usize = 0;
        assert(steps =~= level_start + steps_refs(sw, l, 0));
        while ri < allowed_ref_frames.len()
            invariant
                fi.wf(),
                same_tile_shape(start, *ts),
                2 <= mv_size_log2 <= 5,
                k == hi - mv_size_log2,
                init ==> mv_size_log2 == hi,
                2 <= size_mi_log2 <= 5,
                init || size_mi_log2 >= 3,
                hi == if init { size_mi_log2 } else { (size_mi_log2 - 1) as usize },
                l == mv_size_log2,
                mv_size == pow2_spec(l),
                1 <= mv_size <= 32,
                bsize == (BlockSize { width_log2: (mv_size_log2 + 2) as usize, height_log2: (mv_size_log2 + 2) as usize }),
                sw.h_in_b == h_in_b,
                sw.w_in_b == w_in_b,
                sw.allowed == allowed_ref_frames@,
                sw.init == init,
                sw.tile_bo == tile_bo,
                tile_bo.x + w_in_b <= ts.mi_width,
                tile_bo.y + h_in_b <= ts.mi_height,
                h_in_b <= 32,
                w_in_b <= 32,
                ri <= allowed_ref_frames@.len(),
                forall|i: int| 0 <= i < allowed_ref_frames@.len() ==> #[trigger] allowed_ref_frames@[i] < REF_FRAMES,
                chain(*fi, states, steps),
                states[0] == start,
                states.last() == *ts,
                steps == level_start + steps_refs(sw, l, ri as nat),
            decreases allowed_ref_frames@.len() - ri,
        {
            let r = allowed_ref_frames[ri];
            let ghost ref_start = steps;
            let mut y: usize = 0;
            let ghost mut yi: nat = 0;
            assert(steps =~= ref_start + steps_ys(sw, l, r, 0));
            while y < h_in_b
                invariant
                    fi.wf(),
                    same_tile_shape(start, *ts),
                    2 <= mv_size_log2 <= 5,
                    l == mv_size_log2,
                    mv_size == pow2_spec(l),
                    1 <= mv_size <= 32,
                    bsize == (BlockSize { width_log2: (mv_size_log2 + 2) as usize, height_log2: (mv_size_log2 + 2) as usize }),
                    sw.h_in_b == h_in_b,
                    sw.w_in_b == w_in_b,
                    sw.init == init,
                    sw.tile_bo == tile_bo,
                    tile_bo.x + w_in_b <= ts.mi_width,
                    tile_bo.y + h_in_b <= ts.mi_height,
                    h_in_b <= 32,
                    w_in_b <= 32,
                    r < REF_FRAMES,
                    y == yi * mv_size,
                    yi == 0 || (yi - 1) * mv_size < h_in_b,
                    y <= h_in_b + 32,
                    chain(*fi, states, steps),
                    states[0] == start,
                    states.last() == *ts,
                    steps == ref_start + steps_ys(sw, l, r, yi),
                decreases h_in_b + 32 - y,
            {
                let ghost row_start = steps;
                let mut x: usize = 0;
                let ghost mut xi: nat = 0;
                assert(steps =~= row_start + steps_xs(sw, l, r, y as nat, 0));
                while x < w_in_b
                    invariant
                        fi.wf(),
                        same_tile_shape(start, *ts),
                        2 <= mv_size_log2 <= 5,
                        l == mv_size_log2,
                        mv_size == pow2_spec(l),
                        1 <= mv_size <= 32,
                        bsize == (BlockSize { width_log2: (mv_size_log2 + 2) as usize, height_log2: (mv_size_log2 + 2) as usize }),
                        sw.w_in_b == w_in_b,
                        sw.init == init,
                        sw.tile_bo == tile_bo,
                        tile_bo.x + w_in_b <= ts.mi_width,
                        tile_bo.y + h_in_b <= ts.mi_height,
                        h_in_b <= 32,
                        w_in_b <= 32,
                        r < REF_FRAMES,
                        y < h_in_b,
                        x == xi * mv_size,
                        xi == 0 || (xi - 1) * mv_size < w_in_b,
                        x <= w_in_b + 32,
                        chain(*fi, states, steps),
                        states[0] == start,
                        states.last() == *ts,
                        steps == row_start + steps_xs(sw, l, r, y as nat, xi),
                    decreases w_in_b + 32 - x,
                {
                    let bottom = (y / mv_size) % 2 == 1;
                    let right = (x / mv_size) % 2 == 1;
                    let corner = if init {
                        BlockCorner::INIT
                    } else if !bottom && !right {
                        BlockCorner::NW
                    } else if !bottom {
                        BlockCorner::NE
                    } else if !right {
                        BlockCorner::SW
                    } else {
                        BlockCorner::SE
                    };
                    let bo = TileBlockOffset { x: tile_bo.x + x, y: tile_bo.y + y };
                    let ghost before = *ts;
                    let ghost st = mk_step(sw, l, r, y as nat, x as nat);
                    assert(st == PrepStep { bsize, bo, r, corner, init,
                        shift: ((MAX_MIB_SIZE_LOG2 - mv_size_log2) * 2) as u32 });
                    if let Some(results) = estimate_motion_alt(fi, ts, bsize, bo, r, corner, init) {
                        let sad = results.sad << ((MAX_MIB_SIZE_LOG2 - mv_size_log2) * 2) as u32;
                        save_me_stats(ts, bsize, bo, r, MEStats { mv: results.mv, sad });
                    }
                    proof {
                        assert(prep_step(*fi, before, *ts, st));
                        let old_states = states;
                        let old_steps = steps;
                        states = states.push(*ts);
                        steps = steps.push(st);
                        assert forall|i: int| 0 <= i < steps.len() implies
                            prep_step(*fi, states[i], states[i + 1], #[trigger] steps[i]) by {
                            if i < old_steps.len() {
                                assert(old_steps[i] == steps[i]);
                                assert(prep_step(*fi, old_states[i], old_states[i + 1], old_steps[i]));
                            }
                        }
                        assert(steps =~= row_start + steps_xs(sw, l, r, y as nat, xi + 1));
                        assert((xi + 1) * mv_size == xi * mv_size + mv_size) by (nonlinear_arith);
                        xi = xi + 1;
                    }
                    x = x + mv_size;
                }
                proof {
                    lemma_count_below(w_in_b as nat, mv_size as nat, xi);
                    assert(steps =~= ref_start + steps_ys(sw, l, r, yi + 1));
                    assert((yi + 1) * mv_size == yi * mv_size + mv_size) by (nonlinear_arith);
                    yi = yi + 1;
                }
                y = y + mv_size;
            }
            proof {
                lemma_count_below(h_in_b as nat, mv_size as nat, yi);
                assert(steps =~= level_start + steps_refs(sw, l, (ri + 1) as nat));
            }
            ri = ri + 1;
        }
        proof {
            assert(allowed_ref_frames@.len() == sw.allowed.len());
            assert(steps =~= levels_down(sw, hi as nat, k + 1));
            k = k + 1;
        }
        if init || mv_size_log2 == 2 {
            proof {
                if init {
                    assert(k == 1);
                    assert(hi as nat == size_mi_log2 as nat);
                } else {
                    assert(k == (size_mi_log2 - 2) as nat);
                    assert(hi as nat == (size_mi_log2 - 1) as nat);
                }
                assert(steps == square_steps(start, allowed_ref_frames@, size_mi_log2 as nat, tile_bo, init));
            }
            break;
        }
        mv_size_log2 = mv_size_log2 - 1;
    }
}

/// Whether the sweep visits the superblock at `(sbx, sby)`: it must start
/// inside the tile.
pub open spec fn sb_visited(ts: TileState, sbx: int, sby: int) -> bool {
    &&& sbx < ts.mi_width / 16 + 1
    &&& sby < ts.mi_height / 16 + 1
    &&& sbx * 16 < ts.mi_width
    &&& sby * 16 < ts.mi_height
}

/// The blocks of the first `n` superblocks of superblock row `sby`.
pub open spec fn sb_steps(ts: TileState, allowed: Seq<usize>, init: bool, sby: nat, n: nat) -> Seq<PrepStep>
    decreases n,
{
    if n == 0 {
        Seq::empty()
    } else {
        sb_steps(ts, allowed, init, sby, (n - 1) as nat) + if sb_visited(ts, n - 1, sby as int) {
            square_steps(ts, allowed, 4, TileBlockOffset { x: ((n - 1) * 16) as usize, y: (sby * 16) as usize }, init)
        } else {
            Seq::empty()
        }
    }
}

/// The blocks of the first `n` superblock rows.
pub open spec fn sb_rows_steps(ts: TileState, allowed: Seq<usize>, init: bool, n: nat) -> Seq<PrepStep>
    decreases n,
{
    if n == 0 {
        Seq::empty()
    } else {
        sb_rows_steps(ts, allowed, init, (n - 1) as nat) + sb_steps(ts, allowed, init, (n - 1) as nat, ts.sb_width as nat)
    }
}

/// The blocks of the first `n` sweeps over the tile.
pub open spec fn tile_steps(ts: TileState, allowed: Seq<usize>, n: nat) -> Seq<PrepStep>
    decreases n,
{
    if n == 0 {
        Seq::empty()
    } else {
        tile_steps(ts, allowed, (n - 1) as nat) + sb_rows_steps(ts, allowed, n - 1 == 0, ts.sb_height as nat)
    }
}

proof fn lemma_run_empty(fi: FrameInvariants, a: TileState)
    ensures
        run_steps(fi, a, a, Seq::empty()),
{
    let states = seq![a];
    assert(chain(fi, states, Seq::empty()));
    assert(states[0] == a && states.last() == a);
}

proof fn lemma_run_concat(fi: FrameInvariants, a: TileState, b: TileState, c: TileState, s1: Seq<PrepStep>,
    s2: Seq<PrepStep>)
    requires
        run_steps(fi, a, b, s1),
        run_steps(fi, b, c, s2),
    ensures
        run_steps(fi, a, c, s1 + s2),
{
    let t1 = choose|t: Seq<TileState>| chain(fi, t, s1) && t[0] == a && t.last() == b;
    let t2 = choose|t: Seq<TileState>| chain(fi, t, s2) && t[0] == b && t.last() == c;
    let t = t1 + t2.drop_first();
    let s = s1 + s2;
    assert(t.len() == s.len() + 1);
    assert forall|i: int| 0 <= i < s.len() implies prep_step(fi, t[i], t[i + 1], #[trigger] s[i]) by {
        if i < s1.len() {
            assert(prep_step(fi, t1[i], t1[i + 1], s1[i]));
            if i + 1 == s1.len() {
                assert(t1[i + 1] == t2[0]);
            }
        } else {
            let j = i - s1.len();
            assert(s[i] == s2[j]);
            assert(prep_step(fi, t2[j], t2[j + 1], s2[j]));
        }
    }
    assert(chain(fi, t, s));
    assert(t[0] == a);
    assert(t.last() == c);
}

/// The square steps depend on the tile's shape only.
proof fn lemma_square_steps_shape(a: TileState, b: TileState, allowed: Seq<usize>, l: nat, bo: TileBlockOffset,
    init: bool)
    requires
        a.mi_width == b.mi_width,
        a.mi_height == b.mi_height,
    ensures
        square_steps(a, allowed, l, bo, init) == square_steps(b, allowed, l, bo, init),
{
    assert(sweep_of(a, allowed, l, bo, init) == sweep_of(b, allowed, l, bo, init));
}

/// Hierarchical motion search of a whole tile: a first sweep over its 64 by
/// 64 superblocks, then a second sweep over their halves and quarters.
#[verifier::rlimit(60)]
pub fn prep_tile_motion_estimation(fi: &FrameInvariants, ts: &mut TileState, allowed_ref_frames: &[usize])
    requires
        fi.wf(),
        old(ts).wf(),
        forall|i: int| 0 <= i < allowed_ref_frames@.len() ==> #[trigger] allowed_ref_frames@[i] < REF_FRAMES,
    ensures
        same_tile_shape(*old(ts), *final(ts)),
        run_steps(*fi, *old(ts), *final(ts), tile_steps(*old(ts), allowed_ref_frames@, 2)),
{
    let ghost start = *ts;
    let ghost allowed = allowed_ref_frames@;
    proof {
        lemma_run_empty(*fi, start);
        assert(tile_steps(start, allowed, 0) =~= Seq::<PrepStep>::empty());
    }
    let mut pass: usize = 0;
    while pass < 2
        invariant
            fi.wf(),
            same_tile_shape(start, *ts),
            allowed == allowed_ref_frames@,
            pass <= 2,
            forall|i: int| 0 <= i < allowed_ref_frames@.len() ==> #[trigger] allowed_ref_frames@[i] < REF_FRAMES,
            run_steps(*fi, start, *ts, tile_steps(start, allowed, pass as nat)),
        decreases 2 - pass,
    {
        let init = pass == 0;
        let ghost pass_start = *ts;
        let ghost prefix = tile_steps(start, allowed, pass as nat);
        let mut sby: usize = 0;
        assert(prefix + sb_rows_steps(start, allowed, init, 0) =~= prefix);
        while sby < ts.sb_height
            invariant
                fi.wf(),
                same_tile_shape(start, *ts),
                allowed == allowed_ref_frames@,
                sby <= ts.sb_height,
                forall|i: int| 0 <= i < allowed_ref_frames@.len() ==> #[trigger] allowed_ref_frames@[i] < REF_FRAMES,
                run_steps(*fi, start, *ts, prefix + sb_rows_steps(start, allowed, init, sby as nat)),
            decreases ts.sb_height - sby,
        {
            let ghost row_prefix = prefix + sb_rows_steps(start, allowed, init, sby as nat);
            let mut sbx: usize = 0;
            assert(row_prefix + sb_steps(start, allowed, init, sby as nat, 0) =~= row_prefix);
            while sbx < ts.sb_width
                invariant
                    fi.wf(),
                    same_tile_shape(start, *ts),
                    allowed == allowed_ref_frames@,
                    sby < ts.sb_height,
                    sbx <= ts.sb_width,
                    forall|i: int| 0 <= i < allowed_ref_frames@.len() ==> #[trigger] allowed_ref_frames@[i] < REF_FRAMES,
                    run_steps(*fi, start, *ts, row_prefix + sb_steps(start, allowed, init, sby as nat, sbx as nat)),
                decreases ts.sb_width - sbx,
            {
                let ghost before = *ts;
                let ghost done = row_prefix + sb_steps(start, allowed, init, sby as nat, sbx as nat);
                if sbx < ts.mi_width / 16 + 1 && sby < ts.mi_height / 16 + 1 {
                    let tile_bo = TileBlockOffset { x: sbx * 16, y: sby * 16 };
                    if tile_bo.x < ts.mi_width && tile_bo.y < ts.mi_height {
                        prep_square_block_motion_estimation(fi, ts, allowed_ref_frames, 4, tile_bo, init);
                        proof {
                            lemma_square_steps_shape(before, start, allowed, 4, tile_bo, init);
                            lemma_run_concat(*fi, start, before, *ts, done, square_steps(start, allowed, 4, tile_bo, init));
                            assert(sb_visited(start, sbx as int, sby as int));
                            assert(done + square_steps(start, allowed, 4, tile_bo, init)
                                =~= row_prefix + sb_steps(start, allowed, init, sby as nat, (sbx + 1) as nat));
                        }
                    } else {
                        proof {
                            assert(!sb_visited(start, sbx as int, sby as int));
                            assert(done =~= row_prefix + sb_steps(start, allowed, init, sby as nat, (sbx + 1) as nat));
                        }
                    }
                } else {
                    proof {
                        assert(!sb_visited(start, sbx as int, sby as int));
                        assert(done =~= row_prefix + sb_steps(start, allowed, init, sby as nat, (sbx + 1) as nat));
                    }
                }
                sbx = sbx + 1;
            }
            proof {
                assert(row_prefix + sb_steps(start, allowed, init, sby as nat, start.sb_width as nat)
                    =~= prefix + sb_rows_steps(start, allowed, init, (sby + 1) as nat));
            }
            sby = sby + 1;
        }
        proof {
            assert(prefix + sb_rows_steps(start, allowed, init, start.sb_height as nat)
                =~= tile_steps(start, allowed, (pass + 1) as nat));
        }
        pass = pass + 1;
    }
}

/// The full-pel search of a block never costs more than the zero vector in
/// the same search, since the zero vector is always among its candidates.
pub proof fn lemma_full_pixel_me_zero_floor(fi: FrameInvariants, ts: TileState, v: SearchView, adj: TileBlockOffset,
    cmvs: Seq<MotionVector>, ref_frame: int, bsize: BlockSize)
    ensures
        full_pixel_me_spec(fi, ts, v, adj, cmvs, ref_frame, bsize).cost <= v.eval(zero_mv()).cost,
{
    let preds = subset_predictors_spec(adj, cmvs, ts.mvs@[ref_frame], origin_of(ts), fi.prev_mvs(ref_frame), bsize);
    lemma_predictors_start_with_zero(adj, cmvs, ts.mvs@[ref_frame], origin_of(ts), fi.prev_mvs(ref_frame), bsize);
    assert(preds.contains(zero_mv())) by {
        assert(preds[0] == zero_mv());
    }
    lemma_diamond_search_zero_floor(v, preds);
}

} // verus!
