//! Candidate motion vectors gathered from already processed neighbours in the
//! current frame and from the previous frame's statistics.
use vstd::prelude::*;
use crate::block::{BlockSize, TileBlockOffset};
use crate::block::pow2_spec;
use crate::mv::{floor_div_small, MotionVector};
use crate::mvlist::{mv_list_as_slice, mv_list_items, mv_list_new, mv_list_push, MvList, MV_LIST_CAP};
use crate::search::MvBounds;
use crate::stats::{FrameMEStats, FrameMotionVectors, MEStats};

verus! {

/// Which quarter of its parent partition a block occupies; `INIT` marks the
/// first sweep, in which no partition has been visited yet.
#[derive(Clone, Copy, Debug, PartialEq, Eq, Structural)]
pub enum BlockCorner {
    INIT,
    NW,
    NE,
    SW,
    SE,
}

/// `s` with the full-pel form of `mv` appended, unless that form is zero or
/// already in `s`.
pub open spec fn add_cand(s: Seq<MotionVector>, mv: MotionVector) -> Seq<MotionVector> {
    let q = mv.quantize_spec();
    if q.is_zero_spec() || s.contains(q) { s } else { s.push(q) }
}

/// `s` with `add_cand` applied to each of `cmvs` in order.
pub open spec fn add_all(s: Seq<MotionVector>, cmvs: Seq<MotionVector>) -> Seq<MotionVector>
    decreases cmvs.len(),
{
    if cmvs.len() == 0 { s } else { add_cand(add_all(s, cmvs.drop_last()), cmvs.last()) }
}

/// `add_cand(s, mv)` where `c` holds, else `s`.
pub open spec fn add_if(s: Seq<MotionVector>, c: bool, mv: MotionVector) -> Seq<MotionVector> {
    if c { add_cand(s, mv) } else { s }
}

/// The corner of the block at `(x, y)` inside its parent of side `2 * h`.
pub open spec fn corner_of(x: int, y: int, h: int) -> BlockCorner {
    let bottom = (y / h) % 2 == 1;
    let right = (x / h) % 2 == 1;
    if !bottom && !right {
        BlockCorner::NW
    } else if !bottom {
        BlockCorner::NE
    } else if !right {
        BlockCorner::SW
    } else {
        BlockCorner::SE
    }
}

/// The block of `w` by `h` cells at `(x, y)` lies inside a grid of `cols` by `rows`.
pub open spec fn block_inside(x: int, y: int, w: int, h: int, cols: int, rows: int) -> bool {
    x + w <= cols && y + h <= rows
}

/// Spatial candidates from this tile's grid, after the zero vector and the
/// coarse ones; none for a block at the tile's top-left corner, which has no
/// processed neighbour.
pub open spec fn spatial_preds(s: Seq<MotionVector>, g: FrameMotionVectors, x: int, y: int, w: int, h: int)
    -> Seq<MotionVector>
{
    if x == 0 && y == 0 {
        s
    } else {
        spatial_neighbours(s, g, x, y, w, h)
    }
}

/// The neighbours consulted by a block with a processed neighbour.
pub open spec fn spatial_neighbours(s: Seq<MotionVector>, g: FrameMotionVectors, x: int, y: int, w: int, h: int)
    -> Seq<MotionVector>
{
    let corner = corner_of(x, y, h);
    let s2 = add_if(s, (corner == BlockCorner::NW || corner == BlockCorner::SW) && x + w < g.cols,
        g.at(y + h / 2, x + w));
    let s3 = add_if(s2, (corner == BlockCorner::SW || corner == BlockCorner::SE) && y + h < g.rows,
        g.at(y + h, x + w / 2));
    let s4 = add_if(s3, x > 0, g.at(y + h / 2, x - 1));
    let s5 = add_if(s4, y > 0, g.at(y - 1, x + w / 2));
    add_cand(s5, g.at(y, x))
}

/// Temporal candidates from the previous frame's grid around the block at `(fx, fy)`.
pub open spec fn temporal_preds(s: Seq<MotionVector>, p: FrameMotionVectors, fx: int, fy: int, w: int, h: int)
    -> Seq<MotionVector>
{
    if !block_inside(fx, fy, w, h, p.cols as int, p.rows as int) {
        s
    } else {
        let t1 = add_if(s, fx > 0, p.at(fy + h / 2, fx - 1));
        let t2 = add_if(t1, fy > 0, p.at(fy - 1, fx + w / 2));
        let t3 = add_if(t2, fx + w < p.cols, p.at(fy + h / 2, fx + w));
        let t4 = add_if(t3, fy + h < p.rows, p.at(fy + h, fx + w / 2));
        add_cand(t4, p.at(fy + h / 2, fx + w / 2))
    }
}

/// The candidate list: the zero vector, then the coarse candidates, the
/// spatial neighbours and the previous frame's neighbours, each in full-pel
/// form, with zero vectors and repeats left out.
pub open spec fn subset_predictors_spec(
    tile_bo: TileBlockOffset,
    cmvs: Seq<MotionVector>,
    tile_mvs: FrameMotionVectors,
    tile_origin: TileBlockOffset,
    prev: Option<FrameMotionVectors>,
    bsize: BlockSize,
) -> Seq<MotionVector> {
    let w = bsize.w_mi() as int;
    let h = bsize.h_mi() as int;
    let s1 = add_all(seq![MotionVector { row: 0, col: 0 }], cmvs);
    let s6 = spatial_preds(s1, tile_mvs, tile_bo.x as int, tile_bo.y as int, w, h);
    match prev {
        None => s6,
        Some(p) => temporal_preds(s6, p, tile_origin.x + tile_bo.x, tile_origin.y + tile_bo.y, w, h),
    }
}

proof fn lemma_add_all_keeps_first(s: Seq<MotionVector>, cmvs: Seq<MotionVector>)
    requires
        s.len() >= 1,
    ensures
        add_all(s, cmvs).len() >= 1,
        add_all(s, cmvs)[0] == s[0],
    decreases cmvs.len(),
{
    if cmvs.len() > 0 {
        lemma_add_all_keeps_first(s, cmvs.drop_last());
    }
}

/// The candidate list always starts with the zero vector.
pub proof fn lemma_predictors_start_with_zero(
    tile_bo: TileBlockOffset,
    cmvs: Seq<MotionVector>,
    tile_mvs: FrameMotionVectors,
    tile_origin: TileBlockOffset,
    prev: Option<FrameMotionVectors>,
    bsize: BlockSize,
)
    ensures
        subset_predictors_spec(tile_bo, cmvs, tile_mvs, tile_origin, prev, bsize).len() >= 1,
        subset_predictors_spec(tile_bo, cmvs, tile_mvs, tile_origin, prev, bsize)[0] == (MotionVector { row: 0, col: 0 }),
{
    let z = seq![MotionVector { row: 0, col: 0 }];
    lemma_add_all_keeps_first(z, cmvs);
    assert forall|s: Seq<MotionVector>, mv: MotionVector| s.len() >= 1 implies
        (#[trigger] add_cand(s, mv)).len() >= 1 && add_cand(s, mv)[0] == s[0] by {
    }
}

fn add_cand_exec(list: &mut MvList, mv: MotionVector)
    requires
        mv_list_items(*old(list)).len() < MV_LIST_CAP,
    ensures
        mv_list_items(*final(list)) == add_cand(mv_list_items(*old(list)), mv),
        mv_list_items(*final(list)).len() <= mv_list_items(*old(list)).len() + 1,
{
    let q = mv.quantize_to_fullpel();
    if !q.is_zero() && !list_contains(list, q) {
        mv_list_push(list, q);
    }
}

fn list_contains(list: &MvList, mv: MotionVector) -> (r: bool)
    ensures
        r == mv_list_items(*list).contains(mv),
{
    let items = mv_list_as_slice(list);
    let mut i: usize = 0;
    while i < items.len()
        invariant
            i <= items@.len(),
            items@ == mv_list_items(*list),
            forall|j: int| 0 <= j < i ==> items@[j] != mv,
        decreases items@.len() - i,
    {
        if items[i] == mv {
            return true;
        }
        i = i + 1;
    }
    false
}

/// The candidate list for the block at `tile_bo` of size `bsize`, from the
/// coarse candidates `cmvs`, this tile's vectors and, where given, the
/// previous frame's vectors; `tile_origin` places the tile in the frame.
pub fn get_subset_predictors(
    tile_bo: TileBlockOffset,
    cmvs: &[MotionVector],
    tile_mvs: &FrameMotionVectors,
    tile_origin: TileBlockOffset,
    prev_frame_mvs: Option<&FrameMotionVectors>,
    bsize: BlockSize,
) -> (r: MvList)
    requires
        bsize.wf(),
        cmvs@.len() <= 7,
        tile_mvs.wf(),
        block_inside(tile_bo.x as int, tile_bo.y as int, bsize.w_mi() as int, bsize.h_mi() as int,
            tile_mvs.cols as int, tile_mvs.rows as int),
        prev_frame_mvs matches Some(p) ==> p.wf(),
        tile_origin.x + tile_bo.x <= usize::MAX,
        tile_origin.y + tile_bo.y <= usize::MAX,
    ensures
        mv_list_items(r) == subset_predictors_spec(tile_bo, cmvs@, *tile_mvs, tile_origin,
            match prev_frame_mvs { Some(p) => Some(*p), None => None }, bsize),
{
    let w = bsize.width_mi();
    let h = bsize.height_mi();
    let x = tile_bo.x;
    let y = tile_bo.y;
    let mut predictors = mv_list_new();
    mv_list_push(&mut predictors, MotionVector { row: 0, col: 0 });
    assert(mv_list_items(predictors) =~= seq![MotionVector { row: 0, col: 0 }]);

    let mut i: usize = 0;
    while i < cmvs.len()
        invariant
            i <= cmvs@.len(),
            cmvs@.len() <= 7,
            mv_list_items(predictors) == add_all(seq![MotionVector { row: 0, col: 0 }], cmvs@.subrange(0, i as int)),
            mv_list_items(predictors).len() <= 1 + i,
        decreases cmvs@.len() - i,
    {
        proof {
            let s = cmvs@.subrange(0, i as int + 1);
            assert(s.drop_last() =~= cmvs@.subrange(0, i as int));
        }
        add_cand_exec(&mut predictors, cmvs[i]);
        i = i + 1;
    }
    assert(cmvs@.subrange(0, cmvs@.len() as int) =~= cmvs@);

    let bottom = (y / h) % 2 == 1;
    let right = (x / h) % 2 == 1;
    let corner = if !bottom && !right {
        BlockCorner::NW
    } else if !bottom {
        BlockCorner::NE
    } else if !right {
        BlockCorner::SW
    } else {
        BlockCorner::SE
    };

    if x > 0 || y > 0 {
        if (corner == BlockCorner::NW || corner == BlockCorner::SW) && x + w < tile_mvs.cols {
            // right
            add_cand_exec(&mut predictors, tile_mvs.get(y + h / 2, x + w));
        }
        if (corner == BlockCorner::SW || corner == BlockCorner::SE) && y + h < tile_mvs.rows {
            // bottom
            add_cand_exec(&mut predictors, tile_mvs.get(y + h, x + w / 2));
        }
        if x > 0 {
            // left
            add_cand_exec(&mut predictors, tile_mvs.get(y + h / 2, x - 1));
        }
        if y > 0 {
            // top
            add_cand_exec(&mut predictors, tile_mvs.get(y - 1, x + w / 2));
        }
        // the block's own cell
        add_cand_exec(&mut predictors, tile_mvs.get(y, x));
    }

    if let Some(p) = prev_frame_mvs {
        let fx = tile_origin.x + x;
        let fy = tile_origin.y + y;
        if fx <= p.cols && fy <= p.rows && w <= p.cols - fx && h <= p.rows - fy {
            if fx > 0 {
                add_cand_exec(&mut predictors, p.get(fy + h / 2, fx - 1));
            }
            if fy > 0 {
                add_cand_exec(&mut predictors, p.get(fy - 1, fx + w / 2));
            }
            if fx + w < p.cols {
                add_cand_exec(&mut predictors, p.get(fy + h / 2, fx + w));
            }
            if fy + h < p.rows {
                add_cand_exec(&mut predictors, p.get(fy + h, fx + w / 2));
            }
            add_cand_exec(&mut predictors, p.get(fy + h / 2, fx + w / 2));
        }
    }
    predictors
}

/// The candidates of the hierarchical search for one block.
pub struct MotionEstimationSubsets {
    /// Smallest SAD among the sampled cells, scaled to the block's size.
    pub min_sad: u32,
    /// The median predictor, where there is one.
    pub median: Option<MotionVector>,
    /// Spatial candidates, ending with the zero vector.
    pub subset_b: MvList,
    /// Temporal candidates.
    pub subset_c: MvList,
}

pub open spec fn clamp_int(v: int, lo: int, hi: int) -> int {
    if v < lo { lo } else if v > hi { hi } else { v }
}

/// The full-pel form of a sampled vector, clamped into the bounds.
pub open spec fn proc_spec(st: MEStats, b: MvBounds) -> MotionVector {
    let q = st.mv.quantize_spec();
    MotionVector {
        row: clamp_int(q.row as int, b.mvy_min as int, b.mvy_max as int) as i16,
        col: clamp_int(q.col as int, b.mvx_min as int, b.mvx_max as int) as i16,
    }
}

/// `mv` scaled down by `2^ssdec`, rounding toward minus infinity.
pub open spec fn dec_spec(mv: MotionVector, ssdec: nat) -> MotionVector {
    MotionVector {
        row: (mv.row as int / pow2_spec(ssdec) as int) as i16,
        col: (mv.col as int / pow2_spec(ssdec) as int) as i16,
    }
}

/// The middle one of three values.
pub open spec fn median3(a: int, b: int, c: int) -> int {
    if (a <= b && b <= c) || (c <= b && b <= a) {
        b
    } else if (b <= a && a <= c) || (c <= a && a <= b) {
        a
    } else {
        c
    }
}

pub open spec fn push_if(s: Seq<MEStats>, c: bool, st: MEStats) -> Seq<MEStats> {
    if c { s.push(st) } else { s }
}

/// Spatial samples consulted before the median is formed, in order:
/// right, bottom, left, top, and in the first sweep top-right.
pub open spec fn alt_spatial_samples(g: FrameMEStats, x: int, y: int, w: int, h: int, corner: BlockCorner)
    -> Seq<MEStats>
{
    let s1 = push_if(Seq::empty(), (corner == BlockCorner::NW || corner == BlockCorner::SW) && x + w < g.cols,
        g.at(y + h / 2, x + w));
    let s2 = push_if(s1, (corner == BlockCorner::SW || corner == BlockCorner::SE) && y + h < g.rows,
        g.at(y + h, x + w / 2));
    let s3 = push_if(s2, x > 0, g.at(y + h / 2, x - 1));
    let s4 = push_if(s3, y > 0, g.at(y - 1, x + w / 2));
    push_if(s4, corner == BlockCorner::INIT && y > 0 && x + w < g.cols, g.at(y - 1, x + w))
}

/// The far bottom-right sample of a north-west block, where it lies in the tile.
pub open spec fn alt_far_samples(g: FrameMEStats, x: int, y: int, w: int, h: int, corner: BlockCorner)
    -> Seq<MEStats>
{
    push_if(Seq::empty(), corner == BlockCorner::NW && x + 2 * w < g.cols && y + 2 * h < g.rows,
        g.at(y + 2 * h, x + 2 * w))
}

/// Samples of the previous frame around the block at `(fx, fy)`.
pub open spec fn alt_temporal_samples(p: FrameMEStats, fx: int, fy: int, w: int, h: int) -> Seq<MEStats> {
    if !block_inside(fx, fy, w, h, p.cols as int, p.rows as int) {
        Seq::empty()
    } else {
        let t1 = push_if(Seq::empty(), fx > 0, p.at(fy + h / 2, fx - 1));
        let t2 = push_if(t1, fy > 0, p.at(fy - 1, fx + w / 2));
        let t3 = push_if(t2, fx + w < p.cols, p.at(fy + h / 2, fx + w));
        let t4 = push_if(t3, fy + h < p.rows, p.at(fy + h, fx + w / 2));
        t4.push(p.at(fy + h / 2, fx + w / 2))
    }
}

/// Smallest SAD of `s`, or `u32::MAX` for no samples.
pub open spec fn min_sad_of(s: Seq<MEStats>) -> u32
    decreases s.len(),
{
    if s.len() == 0 {
        u32::MAX
    } else {
        let m = min_sad_of(s.drop_last());
        if s.last().sad < m { s.last().sad } else { m }
    }
}

/// Everything that the hierarchical search reads for one block.
pub struct SubsetQuery {
    pub tile_bo: TileBlockOffset,
    pub tile_origin: TileBlockOffset,
    /// The block size at the searched resolution.
    pub bsize: BlockSize,
    pub bounds: MvBounds,
    pub corner: BlockCorner,
    /// Log2 of the decimation of the searched resolution, 0 to 2.
    pub ssdec: u8,
}

impl SubsetQuery {
    /// Block width in full-resolution grid units.
    pub open spec fn wq(self) -> int {
        (self.bsize.w_mi() * pow2_spec(self.ssdec as nat)) as int
    }

    /// Block height in full-resolution grid units.
    pub open spec fn hq(self) -> int {
        (self.bsize.h_mi() * pow2_spec(self.ssdec as nat)) as int
    }

    pub open spec fn spatial(self, g: FrameMEStats) -> Seq<MEStats> {
        alt_spatial_samples(g, self.tile_bo.x as int, self.tile_bo.y as int, self.wq(), self.hq(), self.corner)
    }

    pub open spec fn far(self, g: FrameMEStats) -> Seq<MEStats> {
        alt_far_samples(g, self.tile_bo.x as int, self.tile_bo.y as int, self.wq(), self.hq(), self.corner)
    }

    pub open spec fn own(self, g: FrameMEStats) -> Seq<MEStats> {
        push_if(Seq::empty(), self.corner != BlockCorner::INIT, g.at(self.tile_bo.y as int, self.tile_bo.x as int))
    }

    pub open spec fn temporal(self, prev: Option<FrameMEStats>) -> Seq<MEStats> {
        match prev {
            None => Seq::empty(),
            Some(p) => alt_temporal_samples(p, self.tile_origin.x + self.tile_bo.x,
                self.tile_origin.y + self.tile_bo.y, self.wq(), self.hq()),
        }
    }

    pub open spec fn cand(self, st: MEStats) -> MotionVector {
        dec_spec(proc_spec(st, self.bounds), self.ssdec as nat)
    }

    /// The shift that scales a SAD of the full-resolution block size to this block size.
    pub open spec fn sad_shift(self) -> int {
        10 - (self.bsize.width_log2 - 2 + self.bsize.height_log2 - 2 + 2 * self.ssdec)
    }

    pub open spec fn median_spec(self, g: FrameMEStats) -> Option<MotionVector> {
        if self.corner != BlockCorner::INIT {
            Some(self.cand(g.at(self.tile_bo.y as int, self.tile_bo.x as int)))
        } else if self.spatial(g).len() < 3 {
            None
        } else {
            let a = proc_spec(self.spatial(g)[0], self.bounds);
            let b = proc_spec(self.spatial(g)[1], self.bounds);
            let c = proc_spec(self.spatial(g)[2], self.bounds);
            Some(dec_spec(MotionVector {
                row: median3(a.row as int, b.row as int, c.row as int) as i16,
                col: median3(a.col as int, b.col as int, c.col as int) as i16,
            }, self.ssdec as nat))
        }
    }

    pub open spec fn all_samples(self, g: FrameMEStats, prev: Option<FrameMEStats>) -> Seq<MEStats> {
        self.spatial(g) + self.own(g) + self.far(g) + self.temporal(prev)
    }

    pub open spec fn valid(self, g: FrameMEStats) -> bool {
        &&& self.bsize.wf()
        &&& self.ssdec <= 2
        &&& self.bounds.wf()
        &&& self.sad_shift() >= 0
        &&& g.wf()
        &&& block_inside(self.tile_bo.x as int, self.tile_bo.y as int, self.wq(), self.hq(),
            g.cols as int, g.rows as int)
        &&& self.tile_origin.x + self.tile_bo.x <= usize::MAX
        &&& self.tile_origin.y + self.tile_bo.y <= usize::MAX
    }
}

fn clamp_isize(v: isize, lo: isize, hi: isize) -> (r: isize)
    ensures
        r == clamp_int(v as int, lo as int, hi as int),
{
    if v < lo { lo } else if v > hi { hi } else { v }
}

fn process_cand(st: MEStats, b: MvBounds) -> (r: MotionVector)
    requires
        b.wf(),
    ensures
        r == proc_spec(st, b),
{
    let mv = st.mv.quantize_to_fullpel();
    MotionVector {
        col: clamp_isize(mv.col as isize, b.mvx_min, b.mvx_max) as i16,
        row: clamp_isize(mv.row as isize, b.mvy_min, b.mvy_max) as i16,
    }
}

fn dec_mv(mv: MotionVector, ssdec: u8) -> (r: MotionVector)
    requires
        ssdec <= 2,
    ensures
        r == dec_spec(mv, ssdec as nat),
{
    reveal_with_fuel(pow2_spec, 3);
    let d: i32 = if ssdec == 0 { 1 } else if ssdec == 1 { 2 } else { 4 };
    MotionVector {
        row: floor_div_small(mv.row as i32, d) as i16,
        col: floor_div_small(mv.col as i32, d) as i16,
    }
}

fn median3_exec(a: i16, b: i16, c: i16) -> (r: i16)
    ensures
        r == median3(a as int, b as int, c as int),
{
    if (a <= b && b <= c) || (c <= b && b <= a) {
        b
    } else if (b <= a && a <= c) || (c <= a && a <= b) {
        a
    } else {
        c
    }
}

/// Takes a sampled cell into account: lowers `min_sad` and returns its candidate.
fn sample(q: &SubsetQuery, st: MEStats, min_sad: &mut u32) -> (r: MotionVector)
    requires
        q.bounds.wf(),
    ensures
        r == proc_spec(st, q.bounds),
        *final(min_sad) == if st.sad < *old(min_sad) { st.sad } else { *old(min_sad) },
{
    if st.sad < *min_sad {
        *min_sad = st.sad;
    }
    process_cand(st, q.bounds)
}

proof fn lemma_min_sad_push(s: Seq<MEStats>, st: MEStats)
    ensures
        min_sad_of(s.push(st)) == if st.sad < min_sad_of(s) { st.sad } else { min_sad_of(s) },
{
    assert(s.push(st).drop_last() =~= s);
}

/// Takes the sampled cell `st` into account: lowers `min_sad`, appends its
/// scaled candidate to `list`, and returns its unscaled candidate.
fn take(
    q: &SubsetQuery,
    st: MEStats,
    min_sad: &mut u32,
    list: &mut MvList,
    Ghost(src): Ghost<Seq<MEStats>>,
    Ghost(all): Ghost<Seq<MEStats>>,
) -> (r: MotionVector)
    requires
        q.bounds.wf(),
        q.ssdec <= 2,
        mv_list_items(*old(list)) == src.map_values(|s: MEStats| q.cand(s)),
        src.len() < 17,
        *old(min_sad) == min_sad_of(all),
    ensures
        mv_list_items(*final(list)) == src.push(st).map_values(|s: MEStats| q.cand(s)),
        *final(min_sad) == min_sad_of(all.push(st)),
        r == proc_spec(st, q.bounds),
{
    proof {
        lemma_min_sad_push(all, st);
    }
    let mv = sample(q, st, min_sad);
    mv_list_push(list, dec_mv(mv, q.ssdec));
    assert(src.push(st).map_values(|s: MEStats| q.cand(s)) =~= src.map_values(|s: MEStats| q.cand(s)).push(q.cand(st)));
    mv
}

/// The temporal candidates and the smallest SAD after them, continuing from
/// `min_sad`.
fn temporal_part(q: &SubsetQuery, p: &FrameMEStats, w: usize, h: usize, min_sad: &mut u32, Ghost(all): Ghost<Seq<MEStats>>)
    -> (r: MvList)
    requires
        q.bounds.wf(),
        q.ssdec <= 2,
        p.wf(),
        w == q.wq(),
        h == q.hq(),
        1 <= w,
        1 <= h,
        q.tile_origin.x + q.tile_bo.x <= usize::MAX,
        q.tile_origin.y + q.tile_bo.y <= usize::MAX,
        *old(min_sad) == min_sad_of(all),
    ensures
        mv_list_items(r) == q.temporal(Some(*p)).map_values(|s: MEStats| q.cand(s)),
        *final(min_sad) == min_sad_of(all + q.temporal(Some(*p))),
{
    let mut subset_c = mv_list_new();
    let fx = q.tile_origin.x + q.tile_bo.x;
    let fy = q.tile_origin.y + q.tile_bo.y;
    let ghost src: Seq<MEStats> = Seq::empty();
    assert(src.map_values(|s: MEStats| q.cand(s)) =~= Seq::<MotionVector>::empty());
    if fx <= p.cols && fy <= p.rows && w <= p.cols - fx && h <= p.rows - fy {
        if fx > 0 {
            let st = p.get(fy + h / 2, fx - 1);
            take(q, st, min_sad, &mut subset_c, Ghost(src), Ghost(all + src));
            proof { src = src.push(st); }
        }
        if fy > 0 {
            let st = p.get(fy - 1, fx + w / 2);
            take(q, st, min_sad, &mut subset_c, Ghost(src), Ghost(all + src));
            proof { src = src.push(st); }
        }
        if fx + w < p.cols {
            let st = p.get(fy + h / 2, fx + w);
            take(q, st, min_sad, &mut subset_c, Ghost(src), Ghost(all + src));
            proof { src = src.push(st); }
        }
        if fy + h < p.rows {
            let st = p.get(fy + h, fx + w / 2);
            take(q, st, min_sad, &mut subset_c, Ghost(src), Ghost(all + src));
            proof { src = src.push(st); }
        }
        let st = p.get(fy + h / 2, fx + w / 2);
        take(q, st, min_sad, &mut subset_c, Ghost(src), Ghost(all + src));
        proof { src = src.push(st); }
    }
    assert(src =~= q.temporal(Some(*p)));
    subset_c
}

/// The spatial samples up to the median: their candidates, the smallest SAD,
/// and the unscaled candidates of the first three.
fn spatial_part(q: &SubsetQuery, g: &FrameMEStats, w: usize, h: usize, min_sad: &mut u32, list: &mut MvList)
    -> (r: ([MotionVector; 3], usize))
    requires
        q.valid(*g),
        w == q.wq(),
        h == q.hq(),
        1 <= w,
        1 <= h,
        *old(min_sad) == u32::MAX,
        mv_list_items(*old(list)) == Seq::<MotionVector>::empty(),
    ensures
        mv_list_items(*final(list)) == q.spatial(*g).map_values(|s: MEStats| q.cand(s)),
        *final(min_sad) == min_sad_of(q.spatial(*g)),
        r.1 == q.spatial(*g).len(),
        r.1 <= 5,
        forall|i: int| 0 <= i < 3 && i < r.1 ==> #[trigger] r.0[i] == proc_spec(q.spatial(*g)[i], q.bounds),
{
    let x = q.tile_bo.x;
    let y = q.tile_bo.y;
    let corner = q.corner;
    let mut procs: [MotionVector; 3] = [MotionVector { row: 0, col: 0 }; 3];
    let mut n: usize = 0;
    let ghost src: Seq<MEStats> = Seq::empty();
    assert(src.map_values(|s: MEStats| q.cand(s)) =~= Seq::<MotionVector>::empty());
    assert(min_sad_of(src) == u32::MAX);
    if (corner == BlockCorner::NW || corner == BlockCorner::SW) && x + w < g.cols {
        // right
        let st = g.get(y + h / 2, x + w);
        let mv = take(q, st, min_sad, list, Ghost(src), Ghost(src));
        proof { src = src.push(st); }
        procs[n] = mv;
        n = n + 1;
    }
    if (corner == BlockCorner::SW || corner == BlockCorner::SE) && y + h < g.rows {
        // bottom
        let st = g.get(y + h, x + w / 2);
        let mv = take(q, st, min_sad, list, Ghost(src), Ghost(src));
        proof { src = src.push(st); }
        procs[n] = mv;
        n = n + 1;
    }
    if x > 0 {
        // left
        let st = g.get(y + h / 2, x - 1);
        let mv = take(q, st, min_sad, list, Ghost(src), Ghost(src));
        proof { src = src.push(st); }
        procs[n] = mv;
        n = n + 1;
    }
    if y > 0 {
        // top
        let st = g.get(y - 1, x + w / 2);
        let mv = take(q, st, min_sad, list, Ghost(src), Ghost(src));
        proof { src = src.push(st); }
        if n < 3 {
            procs[n] = mv;
        }
        n = n + 1;
    }
    if corner == BlockCorner::INIT && y > 0 && x + w < g.cols {
        // top right
        let st = g.get(y - 1, x + w);
        let mv = take(q, st, min_sad, list, Ghost(src), Ghost(src));
        proof { src = src.push(st); }
        if n < 3 {
            procs[n] = mv;
        }
        n = n + 1;
    }
    assert(src =~= q.spatial(*g));
    (procs, n)
}

/// The spatial, median and temporal candidates of the hierarchical search for
/// the block of `q`, read from this tile's statistics and, where given, the
/// previous frame's.
pub fn get_subset_predictors_alt(
    q: &SubsetQuery,
    tile_me_stats: &FrameMEStats,
    prev_frame: Option<&FrameMEStats>,
) -> (r: MotionEstimationSubsets)
    requires
        q.valid(*tile_me_stats),
        prev_frame matches Some(p) ==> p.wf(),
    ensures
        r.min_sad == min_sad_of(q.all_samples(*tile_me_stats, match prev_frame { Some(p) => Some(*p), None => None }))
            >> (q.sad_shift() as u32),
        r.median == q.median_spec(*tile_me_stats),
        mv_list_items(r.subset_b) == (q.spatial(*tile_me_stats) + q.far(*tile_me_stats)).map_values(
            |st: MEStats| q.cand(st)).push(MotionVector { row: 0, col: 0 }),
        mv_list_items(r.subset_c) == q.temporal(match prev_frame { Some(p) => Some(*p), None => None }).map_values(
            |st: MEStats| q.cand(st)),
{
    reveal_with_fuel(pow2_spec, 3);
    let g = tile_me_stats;
    let ssdec = q.ssdec;
    let mult: usize = if ssdec == 0 { 1 } else if ssdec == 1 { 2 } else { 4 };
    let w = q.bsize.width_mi() * mult;
    let h = q.bsize.height_mi() * mult;
    let x = q.tile_bo.x;
    let y = q.tile_bo.y;
    let mut min_sad: u32 = u32::MAX;
    let mut subset_b = mv_list_new();
    let (procs, n) = spatial_part(q, g, w, h, &mut min_sad, &mut subset_b);
    let ghost sp = q.spatial(*g);
    let ghost all = sp;
    let median = if q.corner != BlockCorner::INIT {
        let st = g.get(y, x);
        proof { lemma_min_sad_push(all, st); all = all.push(st); }
        let mv = sample(q, st, &mut min_sad);
        Some(dec_mv(mv, ssdec))
    } else if n < 3 {
        None
    } else {
        let m = MotionVector {
            row: median3_exec(procs[0].row, procs[1].row, procs[2].row),
            col: median3_exec(procs[0].col, procs[1].col, procs[2].col),
        };
        Some(dec_mv(m, ssdec))
    };
    assert(all =~= sp + q.own(*g));

    let ghost far: Seq<MEStats> = Seq::empty();
    if q.corner == BlockCorner::NW && x + 2 * w < g.cols && y + 2 * h < g.rows {
        // far bottom right
        let st = g.get(y + 2 * h, x + 2 * w);
        take(q, st, &mut min_sad, &mut subset_b, Ghost(sp), Ghost(all));
        proof { far = far.push(st); all = all.push(st); }
    }
    assert(far =~= q.far(*g));
    assert((sp + far).map_values(|st: MEStats| q.cand(st)) =~= mv_list_items(subset_b)) by {
        if far.len() > 0 {
            assert(sp + far =~= sp.push(far[0]));
        } else {
            assert(sp + far =~= sp);
        }
    }

    // The zero vector is always a candidate.
    mv_list_push(&mut subset_b, MotionVector { row: 0, col: 0 });

    let subset_c = match prev_frame {
        Some(p) => temporal_part(q, p, w, h, &mut min_sad, Ghost(all)),
        None => {
            assert(all + Seq::<MEStats>::empty() =~= all);
            assert(Seq::<MEStats>::empty().map_values(|st: MEStats| q.cand(st)) =~= Seq::<MotionVector>::empty());
            mv_list_new()
        },
    };
    assert(q.all_samples(*g, match prev_frame { Some(p) => Some(*p), None => None })
        =~= all + q.temporal(match prev_frame { Some(p) => Some(*p), None => None }));

    let shift: u32 = (10 - (q.bsize.width_log2 - 2 + q.bsize.height_log2 - 2 + 2 * ssdec as usize)) as u32;
    MotionEstimationSubsets { min_sad: min_sad >> shift, median, subset_b, subset_c }
}

/// A block at the tile's top-left corner, with no previous frame, gets the
/// zero vector and its coarse candidates only.
pub proof fn lemma_corner_has_no_spatial_candidates(
    cmvs: Seq<MotionVector>,
    tile_mvs: FrameMotionVectors,
    tile_origin: TileBlockOffset,
    bsize: BlockSize,
)
    ensures
        subset_predictors_spec(TileBlockOffset { x: 0, y: 0 }, cmvs, tile_mvs, tile_origin, None, bsize)
            == add_all(seq![MotionVector { row: 0, col: 0 }], cmvs),
{
}

} // verus!