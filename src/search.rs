//! Candidate evaluation, best-predictor selection, diamond search and
//! exhaustive search over full-pel motion vectors.
use vstd::prelude::*;
use crate::block::pow2_spec;
use crate::cost::{mv_rate, mv_rate_spec, rd_cost_spec};
use crate::dist::{
    compute_sad, compute_satd, lemma_identical_windows_zero, lemma_sad_bounds, lemma_satd_sum_bounds, same_pixels,
    sad_spec, satd_spec, MAX_BLOCK_SIDE,
};
use crate::mv::{floor_div8, MotionVector};
use crate::plane::{Plane, PlaneOffset, MAX_PLANE_SIDE};
use crate::slice2d::{Slice2D, View2D};

verus! {

/// The legal range of motion vectors, in 1/8-pel units, inclusive.
#[derive(Clone, Copy, Debug, PartialEq, Eq, Structural)]
pub struct MvBounds {
    pub mvx_min: isize,
    pub mvx_max: isize,
    pub mvy_min: isize,
    pub mvy_max: isize,
}

impl MvBounds {
    /// The vector with components `row` and `col` lies in the range.
    pub open spec fn contains(self, row: int, col: int) -> bool {
        &&& self.mvx_min <= col <= self.mvx_max
        &&& self.mvy_min <= row <= self.mvy_max
    }

    /// All four limits are `i16` values.
    pub open spec fn wf(self) -> bool {
        &&& i16::MIN <= self.mvx_min <= i16::MAX
        &&& i16::MIN <= self.mvx_max <= i16::MAX
        &&& i16::MIN <= self.mvy_min <= i16::MAX
        &&& i16::MIN <= self.mvy_max <= i16::MAX
    }

    /// Whether the vector `mv` lies in the range.
    pub fn contains_mv(&self, mv: MotionVector) -> (r: bool)
        ensures
            r == self.contains(mv.row as int, mv.col as int),
    {
        (mv.col as isize) >= self.mvx_min && (mv.col as isize) <= self.mvx_max
            && (mv.row as isize) >= self.mvy_min && (mv.row as isize) <= self.mvy_max
    }
}

/// A search outcome: a vector, its cost, and its distortion.
#[derive(Clone, Copy, Debug, PartialEq, Eq, Structural)]
pub struct FullpelSearchResult {
    pub mv: MotionVector,
    pub cost: u64,
    pub sad: u32,
}

/// A search outcome without the distortion.
#[derive(Clone, Copy, Debug, PartialEq, Eq, Structural)]
pub struct MVSearchResult {
    pub mv: MotionVector,
    pub cost: u64,
}

/// The outcome that no candidate was evaluated; it is never preferred.
pub open spec fn no_result() -> FullpelSearchResult {
    FullpelSearchResult { mv: MotionVector { row: 0, col: 0 }, cost: u64::MAX, sad: u32::MAX }
}

fn none_found() -> (r: FullpelSearchResult)
    ensures
        r == no_result(),
{
    FullpelSearchResult { mv: MotionVector { row: 0, col: 0 }, cost: u64::MAX, sad: u32::MAX }
}

/// What stays fixed while one block is searched in one reference plane.
pub struct SearchContext<'a> {
    /// The source block; its top-left `w` by `h` pixels are matched.
    pub org: Slice2D<'a, u16>,
    /// The reference plane searched.
    pub p_ref: &'a Plane,
    /// Position of the block in the reference plane, in pixels.
    pub po: PlaneOffset,
    pub w: usize,
    pub h: usize,
    /// Weight of the rate term.
    pub lambda: u32,
    /// The two predictors that the rate is measured against.
    pub pmv: [MotionVector; 2],
    pub allow_high_precision_mv: bool,
    pub bounds: MvBounds,
}

/// The values of a `SearchContext`.
pub struct SearchView {
    pub org: View2D<u16>,
    pub p_ref: Plane,
    pub po: PlaneOffset,
    pub w: usize,
    pub h: usize,
    pub lambda: u32,
    pub pmv: [MotionVector; 2],
    pub allow_high_precision_mv: bool,
    pub bounds: MvBounds,
}

impl<'a> View for SearchContext<'a> {
    type V = SearchView;

    open spec fn view(&self) -> SearchView {
        SearchView {
            org: self.org@,
            p_ref: *self.p_ref,
            po: self.po,
            w: self.w,
            h: self.h,
            lambda: self.lambda,
            pmv: self.pmv,
            allow_high_precision_mv: self.allow_high_precision_mv,
            bounds: self.bounds,
        }
    }
}

impl<'a> SearchContext<'a> {
    pub open spec fn wf(&self) -> bool {
        self@.wf()
    }
}

impl SearchView {
    pub open spec fn wf(&self) -> bool {
        &&& self.org.wf()
        &&& self.w <= self.org.view_width()
        &&& self.h <= self.org.view_height()
        &&& self.w <= MAX_BLOCK_SIDE
        &&& self.h <= MAX_BLOCK_SIDE
        &&& self.p_ref.wf()
        &&& -MAX_PLANE_SIDE <= self.po.x <= MAX_PLANE_SIDE
        &&& -MAX_PLANE_SIDE <= self.po.y <= MAX_PLANE_SIDE
        &&& self.bounds.wf()
    }

    /// The reference window that a full-pel vector `(row, col)` points at.
    pub open spec fn cand_window(&self, row: int, col: int) -> View2D<u16> {
        self.p_ref.window(self.po.x + col / 8, self.po.y + row / 8, self.w as nat, self.h as nat)
    }

    /// The vector `(row, col)` is in range and its window lies in the plane.
    pub open spec fn legal(&self, row: int, col: int) -> bool {
        &&& self.bounds.contains(row, col)
        &&& self.p_ref.window_fits(self.po.x + col / 8, self.po.y + row / 8, self.w as nat, self.h as nat)
    }

    /// Distortion of the source block against `win`.
    pub open spec fn distortion(&self, use_satd: bool, win: View2D<u16>) -> int {
        if use_satd {
            satd_spec(self.org, win, self.w as nat, self.h as nat)
        } else {
            sad_spec(self.org, win, self.w as nat, self.h as nat)
        }
    }

    /// The rate-distortion cost of `mv` whose prediction is `win`.
    pub open spec fn cost_with(&self, use_satd: bool, mv: MotionVector, win: View2D<u16>) -> int {
        rd_cost_spec(
            self.distortion(use_satd, win),
            mv_rate_spec(mv, self.pmv[0], self.pmv[1], self.allow_high_precision_mv) as int,
            self.lambda as int,
        )
    }

    /// Cost and distortion of the full-pel vector `mv`; `(u64::MAX, u32::MAX)`
    /// where it is not legal.
    pub open spec fn fullpel_rd(&self, use_satd: bool, mv: MotionVector) -> (int, int) {
        if !self.legal(mv.row as int, mv.col as int) {
            (u64::MAX as int, u32::MAX as int)
        } else {
            let win = self.cand_window(mv.row as int, mv.col as int);
            (self.cost_with(use_satd, mv, win), self.distortion(use_satd, win))
        }
    }

    /// The outcome of evaluating `mv` by its SAD.
    pub open spec fn eval(&self, mv: MotionVector) -> FullpelSearchResult {
        let (c, d) = self.fullpel_rd(false, mv);
        FullpelSearchResult { mv, cost: c as u64, sad: d as u32 }
    }

    /// The outcome of evaluating the vector `(row, col)`, which may lie
    /// outside the `i16` range.
    pub open spec fn eval_at(&self, row: int, col: int) -> FullpelSearchResult {
        if self.bounds.contains(row, col) {
            self.eval(MotionVector { row: row as i16, col: col as i16 })
        } else {
            no_result()
        }
    }
}

/// `e` if it is strictly cheaper than `acc`, else `acc`.
pub open spec fn pick(acc: FullpelSearchResult, e: FullpelSearchResult) -> FullpelSearchResult {
    if e.cost < acc.cost { e } else { acc }
}

/// The first cheapest of `preds`, each evaluated once.
pub open spec fn best_of(ctx: SearchView, preds: Seq<MotionVector>) -> FullpelSearchResult
    decreases preds.len(),
{
    if preds.len() == 0 {
        no_result()
    } else {
        pick(best_of(ctx, preds.drop_last()), ctx.eval(preds.last()))
    }
}

/// The best of the four stencil points at distance `step` around `c`,
/// in the order down, right, up, left.
#[verifier::opaque]
pub open spec fn diamond_best(ctx: SearchView, c: MotionVector, step: int) -> FullpelSearchResult {
    let r1 = pick(no_result(), ctx.eval_at(c.row + step, c.col as int));
    let r2 = pick(r1, ctx.eval_at(c.row as int, c.col + step));
    let r3 = pick(r2, ctx.eval_at(c.row - step, c.col as int));
    pick(r3, ctx.eval_at(c.row as int, c.col - step))
}

/// Diamond search from `center` with stencil radius `2^radius`: move to the
/// best stencil point while it is strictly cheaper, else halve the radius,
/// until no point at radius `2^end` improves.
pub open spec fn diamond_from(ctx: SearchView, center: FullpelSearchResult, radius: nat, end: nat) -> FullpelSearchResult
    decreases center.cost, radius,
{
    let best = diamond_best(ctx, center.mv, pow2_spec(radius) as int);
    if center.cost <= best.cost {
        if radius <= end {
            center
        } else {
            diamond_from(ctx, center, (radius - 1) as nat, end)
        }
    } else {
        diamond_from(ctx, best, radius, end)
    }
}

/// Cost and distortion of `cand_mv` predicted by the window `plane_ref`.
pub fn compute_mv_rd_cost(
    ctx: &SearchContext,
    use_satd: bool,
    cand_mv: MotionVector,
    plane_org: &Slice2D<u16>,
    plane_ref: &Slice2D<u16>,
) -> (r: (u64, u32))
    requires
        ctx.wf(),
        *plane_org == ctx.org,
        plane_ref.wf(),
        ctx.w <= plane_ref.view_width(),
        ctx.h <= plane_ref.view_height(),
    ensures
        r.0 == ctx@.cost_with(use_satd, cand_mv, plane_ref@),
        r.1 == ctx@.distortion(use_satd, plane_ref@),
        r.0 < u64::MAX,
        !use_satd ==> r.1 <= 65535 * 128 * 128,
{
    let w = ctx.w;
    let h = ctx.h;
    let dist: u64 = if use_satd {
        proof {
            lemma_satd_sum_bounds(plane_org@, plane_ref@, (w / 4) as nat, (h / 4) as nat);
            vstd::arithmetic::div_mod::lemma_div_is_ordered(w as int, 128, 4);
            vstd::arithmetic::div_mod::lemma_div_is_ordered(h as int, 128, 4);
            assert(4 * (w / 4) <= w && 4 * (h / 4) <= h) by (nonlinear_arith);
            assert(16 * 16 * 65535 * (w / 4) * (h / 4) <= 16 * 16 * 65535 * 32 * 32) by (nonlinear_arith)
                requires w / 4 <= 32, h / 4 <= 32;
        }
        compute_satd(plane_org, plane_ref, w, h)
    } else {
        proof {
            lemma_sad_bounds(plane_org@, plane_ref@, w as nat, h as nat);
            assert(65535 * w * h <= 65535 * 128 * 128) by (nonlinear_arith)
                requires w <= 128, h <= 128;
        }
        compute_sad(plane_org, plane_ref, w, h) as u64
    };
    let rate = mv_rate(cand_mv, ctx.pmv, ctx.allow_high_precision_mv);
    proof {
        assert(rate as int * ctx.lambda as int <= 64 * 4294967295) by (nonlinear_arith)
            requires rate <= 64, ctx.lambda <= 4294967295;
    }
    (256 * dist + rate as u64 * ctx.lambda as u64, dist as u32)
}

/// Cost and distortion of the full-pel vector `cand_mv`, or
/// `(u64::MAX, u32::MAX)` where it is out of range.
pub fn get_fullpel_mv_rd_cost(ctx: &SearchContext, use_satd: bool, cand_mv: MotionVector) -> (r: (u64, u32))
    requires
        ctx.wf(),
    ensures
        r.0 as int == ctx@.fullpel_rd(use_satd, cand_mv).0,
        r.1 as int == ctx@.fullpel_rd(use_satd, cand_mv).1,
        r.0 < u64::MAX <==> ctx@.legal(cand_mv.row as int, cand_mv.col as int),
{
    if !ctx.bounds.contains_mv(cand_mv) {
        return (u64::MAX, u32::MAX);
    }
    let x = ctx.po.x + floor_div8(cand_mv.col as i32) as isize;
    let y = ctx.po.y + floor_div8(cand_mv.row as i32) as isize;
    match ctx.p_ref.region(x, y, ctx.w, ctx.h) {
        None => (u64::MAX, u32::MAX),
        Some(plane_ref) => compute_mv_rd_cost(ctx, use_satd, cand_mv, &ctx.org, &plane_ref),
    }
}

/// The first cheapest of `predictors` by SAD cost; `no_result()` where none is legal.
pub fn get_best_predictor(ctx: &SearchContext, predictors: &[MotionVector]) -> (r: FullpelSearchResult)
    requires
        ctx.wf(),
    ensures
        r == best_of(ctx@, predictors@),
{
    let mut best = none_found();
    let mut i: usize = 0;
    while i < predictors.len()
        invariant
            ctx.wf(),
            i <= predictors@.len(),
            best == best_of(ctx@, predictors@.subrange(0, i as int)),
        decreases predictors@.len() - i,
    {
        let init_mv = predictors[i];
        let cost = get_fullpel_mv_rd_cost(ctx, false, init_mv);
        proof {
            let s = predictors@.subrange(0, i as int + 1);
            assert(s.drop_last() =~= predictors@.subrange(0, i as int));
            assert(s.last() == init_mv);
        }
        if cost.0 < best.cost {
            best = FullpelSearchResult { mv: init_mv, cost: cost.0, sad: cost.1 };
        }
        i = i + 1;
    }
    assert(predictors@.subrange(0, predictors@.len() as int) =~= predictors@);
    best
}

/// The candidate `(center.row + dr, center.col + dc)` where it is in range.
pub(crate) fn stencil_point(ctx: &SearchContext, center: MotionVector, dr: i32, dc: i32) -> (r: Option<MotionVector>)
    requires
        ctx.bounds.wf(),
        -16 <= dr <= 16,
        -16 <= dc <= 16,
    ensures
        r is Some <==> ctx.bounds.contains(center.row + dr, center.col + dc),
        r matches Some(mv) ==> mv.row == center.row + dr && mv.col == center.col + dc,
{
    let row = center.row as i32 + dr;
    let col = center.col as i32 + dc;
    let b = ctx.bounds;
    if (col as isize) < b.mvx_min || (col as isize) > b.mvx_max || (row as isize) < b.mvy_min
        || (row as isize) > b.mvy_max {
        None
    } else {
        Some(MotionVector { row: row as i16, col: col as i16 })
    }
}

/// `eval_at` of the stencil point, folded into `acc` by `pick`.
fn try_stencil(ctx: &SearchContext, acc: FullpelSearchResult, center: MotionVector, dr: i32, dc: i32)
    -> (r: FullpelSearchResult)
    requires
        ctx.wf(),
        -16 <= dr <= 16,
        -16 <= dc <= 16,
    ensures
        r == pick(acc, ctx@.eval_at(center.row + dr, center.col + dc)),
{
    match stencil_point(ctx, center, dr, dc) {
        None => acc,
        Some(cand_mv) => {
            let rd_cost = get_fullpel_mv_rd_cost(ctx, false, cand_mv);
            assert(cand_mv == (MotionVector { row: (center.row + dr) as i16, col: (center.col + dc) as i16 }));
            if rd_cost.0 < acc.cost {
                FullpelSearchResult { mv: cand_mv, cost: rd_cost.0, sad: rd_cost.1 }
            } else {
                acc
            }
        }
    }
}

fn radius_step(radius: u8) -> (r: i32)
    requires
        radius <= 4,
    ensures
        r == pow2_spec(radius as nat) as int,
        1 <= r <= 16,
{
    reveal_with_fuel(pow2_spec, 5);
    if radius == 0 { 1 } else if radius == 1 { 2 } else if radius == 2 { 4 } else if radius == 3 { 8 } else { 16 }
}

/// The best stencil point at distance `2^radius` around `center`.
fn diamond_round(ctx: &SearchContext, center: MotionVector, radius: u8) -> (r: FullpelSearchResult)
    requires
        ctx.wf(),
        radius <= 4,
    ensures
        r == diamond_best(ctx@, center, pow2_spec(radius as nat) as int),
{
    reveal(diamond_best);
    let step = radius_step(radius);
    let r1 = try_stencil(ctx, none_found(), center, step, 0);
    let r2 = try_stencil(ctx, r1, center, 0, step);
    let r3 = try_stencil(ctx, r2, center, -step, 0);
    try_stencil(ctx, r3, center, 0, -step)
}

/// Diamond search from `center` with radii `2^4` down to `2^3`.
fn diamond_loop(ctx: &SearchContext, center: FullpelSearchResult) -> (r: FullpelSearchResult)
    requires
        ctx.wf(),
    ensures
        r == diamond_from(ctx@, center, 4, 3),
{
    let mut center = center;
    let ghost start = center;
    let mut diamond_radius: u8 = 4;
    let diamond_radius_end: u8 = 3;
    loop
        invariant
            ctx.wf(),
            3 <= diamond_radius <= 4,
            diamond_radius_end == 3,
            diamond_from(ctx@, center, diamond_radius as nat, 3) == diamond_from(ctx@, start, 4, 3),
        ensures
            center == diamond_from(ctx@, start, 4, 3),
        decreases center.cost, diamond_radius,
    {
        let best_diamond = diamond_round(ctx, center.mv, diamond_radius);
        if center.cost <= best_diamond.cost {
            if diamond_radius == diamond_radius_end {
                break;
            } else {
                diamond_radius = diamond_radius - 1;
            }
        } else {
            center = best_diamond;
        }
    }
    center
}

/// Diamond search seeded with the best of `predictors`.
pub fn fullpel_diamond_me_search(ctx: &SearchContext, predictors: &[MotionVector]) -> (r: FullpelSearchResult)
    requires
        ctx.wf(),
    ensures
        r == diamond_from(ctx@, best_of(ctx@, predictors@), 4, 3),
{
    let center = get_best_predictor(ctx, predictors);
    diamond_loop(ctx, center)
}

/// Diamond search that continues from `center` in place.
pub fn fullpel_diamond_me_search_alt(ctx: &SearchContext, center: &mut FullpelSearchResult)
    requires
        ctx.wf(),
    ensures
        *final(center) == diamond_from(ctx@, *old(center), 4, 3),
{
    *center = diamond_loop(ctx, *center);
}

/// The outcome of the full-pel vector that moves the block to pixel `(x, y)`.
pub open spec fn eval_px(ctx: SearchView, x: int, y: int) -> FullpelSearchResult {
    ctx.eval_at(8 * (y - ctx.po.y), 8 * (x - ctx.po.x))
}

/// Number of positions `lo, lo + step, ...` that do not pass `hi`.
pub open spec fn count_steps(lo: int, hi: int, step: int) -> nat {
    if hi < lo || step <= 0 { 0 } else { ((hi - lo) / step + 1) as nat }
}

/// `acc` folded by `pick` with the first `n` positions of row `y`.
pub open spec fn fs_row(ctx: SearchView, acc: FullpelSearchResult, y: int, x_lo: int, step: int, n: nat)
    -> FullpelSearchResult
    decreases n,
{
    if n == 0 {
        acc
    } else {
        pick(fs_row(ctx, acc, y, x_lo, step, (n - 1) as nat), eval_px(ctx, x_lo + (n - 1) * step, y))
    }
}

/// The first `ny` rows of the grid, scanned row by row.
pub open spec fn fs_rows(ctx: SearchView, x_lo: int, nx: nat, y_lo: int, ny: nat, step: int)
    -> FullpelSearchResult
    decreases ny,
{
    if ny == 0 {
        no_result()
    } else {
        fs_row(ctx, fs_rows(ctx, x_lo, nx, y_lo, (ny - 1) as nat, step), y_lo + (ny - 1) * step, x_lo, step, nx)
    }
}

/// The first cheapest position of the grid `x_lo..=x_hi` by `y_lo..=y_hi`
/// with spacing `step`, in raster order; `no_result()` where none is legal.
#[verifier::opaque]
pub open spec fn full_search_spec(ctx: SearchView, x_lo: int, x_hi: int, y_lo: int, y_hi: int, step: int)
    -> FullpelSearchResult
{
    fs_rows(ctx, x_lo, count_steps(x_lo, x_hi, step), y_lo, count_steps(y_lo, y_hi, step), step)
}

proof fn lemma_last_step(lo: int, hi: int, step: int)
    requires
        lo <= hi,
        step > 0,
    ensures
        lo + (count_steps(lo, hi, step) - 1) * step <= hi,
{
    let q = (hi - lo) / step;
    vstd::arithmetic::div_mod::lemma_fundamental_div_mod(hi - lo, step);
    vstd::arithmetic::div_mod::lemma_mod_bound(hi - lo, step);
    assert(q * step <= hi - lo) by (nonlinear_arith)
        requires hi - lo == step * q + (hi - lo) % step, 0 <= (hi - lo) % step;
}

fn steps(lo: isize, hi: isize, step: usize) -> (n: usize)
    requires
        -2 * MAX_PLANE_SIDE <= lo <= 2 * MAX_PLANE_SIDE,
        -2 * MAX_PLANE_SIDE <= hi <= 2 * MAX_PLANE_SIDE,
        step > 0,
    ensures
        n == count_steps(lo as int, hi as int, step as int),
        n <= 4 * MAX_PLANE_SIDE + 1,
{
    if hi < lo {
        0
    } else {
        proof {
            vstd::arithmetic::div_mod::lemma_div_is_ordered_by_denominator((hi - lo) as int, 1, step as int);
        }
        (hi - lo) as usize / step + 1
    }
}

/// `acc` folded with the positions of row `y`.
fn full_search_row(ctx: &SearchContext, acc: FullpelSearchResult, y: isize, x_lo: isize, x_hi: isize, step: usize)
    -> (r: FullpelSearchResult)
    requires
        ctx.wf(),
        -2 * MAX_PLANE_SIDE <= x_lo <= 2 * MAX_PLANE_SIDE,
        -2 * MAX_PLANE_SIDE <= x_hi <= 2 * MAX_PLANE_SIDE,
        -2 * MAX_PLANE_SIDE <= y <= 2 * MAX_PLANE_SIDE,
        step > 0,
    ensures
        r == fs_row(ctx@, acc, y as int, x_lo as int, step as int, count_steps(x_lo as int, x_hi as int, step as int)),
{
    let nx = steps(x_lo, x_hi, step);
    let mut best = acc;
    let mut k: usize = 0;
    while k < nx
        invariant
            ctx.wf(),
            -2 * MAX_PLANE_SIDE <= x_lo <= 2 * MAX_PLANE_SIDE,
            -2 * MAX_PLANE_SIDE <= x_hi <= 2 * MAX_PLANE_SIDE,
            -2 * MAX_PLANE_SIDE <= y <= 2 * MAX_PLANE_SIDE,
            step > 0,
            nx == count_steps(x_lo as int, x_hi as int, step as int),
            k <= nx,
            best == fs_row(ctx@, acc, y as int, x_lo as int, step as int, k as nat),
        decreases nx - k,
    {
        proof {
            lemma_last_step(x_lo as int, x_hi as int, step as int);
            assert(0 <= k * step <= (nx - 1) * step) by (nonlinear_arith)
                requires k <= nx - 1, step > 0;
        }
        let x = x_lo + (k * step) as isize;
        let row = 8 * (y - ctx.po.y);
        let col = 8 * (x - ctx.po.x);
        let b = ctx.bounds;
        if col >= b.mvx_min && col <= b.mvx_max && row >= b.mvy_min && row <= b.mvy_max {
            let mv = MotionVector { row: row as i16, col: col as i16 };
            let cost_sad = get_fullpel_mv_rd_cost(ctx, false, mv);
            if cost_sad.0 < best.cost {
                best = FullpelSearchResult { mv, cost: cost_sad.0, sad: cost_sad.1 };
            }
        }
        k = k + 1;
    }
    best
}

/// Exhaustive search of the pixel positions `x_lo..=x_hi` by `y_lo..=y_hi`
/// with spacing `step`.
pub fn full_search(ctx: &SearchContext, x_lo: isize, x_hi: isize, y_lo: isize, y_hi: isize, step: usize)
    -> (r: FullpelSearchResult)
    requires
        ctx.wf(),
        -2 * MAX_PLANE_SIDE <= x_lo <= 2 * MAX_PLANE_SIDE,
        -2 * MAX_PLANE_SIDE <= x_hi <= 2 * MAX_PLANE_SIDE,
        -2 * MAX_PLANE_SIDE <= y_lo <= 2 * MAX_PLANE_SIDE,
        -2 * MAX_PLANE_SIDE <= y_hi <= 2 * MAX_PLANE_SIDE,
        step > 0,
    ensures
        r == full_search_spec(ctx@, x_lo as int, x_hi as int, y_lo as int, y_hi as int, step as int),
{
    reveal(full_search_spec);
    let ny = steps(y_lo, y_hi, step);
    let mut best = none_found();
    let mut k: usize = 0;
    while k < ny
        invariant
            ctx.wf(),
            -2 * MAX_PLANE_SIDE <= x_lo <= 2 * MAX_PLANE_SIDE,
            -2 * MAX_PLANE_SIDE <= x_hi <= 2 * MAX_PLANE_SIDE,
            -2 * MAX_PLANE_SIDE <= y_lo <= 2 * MAX_PLANE_SIDE,
            -2 * MAX_PLANE_SIDE <= y_hi <= 2 * MAX_PLANE_SIDE,
            step > 0,
            ny == count_steps(y_lo as int, y_hi as int, step as int),
            k <= ny,
            best == fs_rows(ctx@, x_lo as int, count_steps(x_lo as int, x_hi as int, step as int),
                y_lo as int, k as nat, step as int),
        decreases ny - k,
    {
        proof {
            lemma_last_step(y_lo as int, y_hi as int, step as int);
            assert(0 <= k * step <= (ny - 1) * step) by (nonlinear_arith)
                requires k <= ny - 1, step > 0;
        }
        let y = y_lo + (k * step) as isize;
        best = full_search_row(ctx, best, y, x_lo, x_hi, step);
        k = k + 1;
    }
    best
}

/// A result that carries a finite cost holds an in-range vector; one with
/// the infinite cost holds the zero vector.
pub open spec fn in_range(ctx: SearchView, r: FullpelSearchResult) -> bool {
    &&& r.cost < u64::MAX ==> ctx.bounds.contains(r.mv.row as int, r.mv.col as int)
    &&& r.cost == u64::MAX ==> r.mv == (MotionVector { row: 0, col: 0 })
}

pub proof fn lemma_best_of_in_range(ctx: SearchView, preds: Seq<MotionVector>)
    ensures
        in_range(ctx, best_of(ctx, preds)),
    decreases preds.len(),
{
    if preds.len() > 0 {
        lemma_best_of_in_range(ctx, preds.drop_last());
    }
}

proof fn lemma_diamond_best_in_range(ctx: SearchView, c: MotionVector, step: int)
    requires
        ctx.bounds.wf(),
    ensures
        in_range(ctx, diamond_best(ctx, c, step)),
{
    reveal(diamond_best);
}

/// Diamond search from an outcome whose vector is in range (or that has
/// the infinite cost and the zero vector) ends in such an outcome.
pub proof fn lemma_diamond_from_in_range(ctx: SearchView, center: FullpelSearchResult, radius: nat, end: nat)
    requires
        ctx.bounds.wf(),
        in_range(ctx, center),
    ensures
        in_range(ctx, diamond_from(ctx, center, radius, end)),
    decreases center.cost, radius,
{
    let best = diamond_best(ctx, center.mv, pow2_spec(radius) as int);
    lemma_diamond_best_in_range(ctx, center.mv, pow2_spec(radius) as int);
    if center.cost <= best.cost {
        if radius > end {
            lemma_diamond_from_in_range(ctx, center, (radius - 1) as nat, end);
        }
    } else {
        lemma_diamond_from_in_range(ctx, best, radius, end);
    }
}

/// Each round of diamond search keeps or lowers the center's cost, so the
/// outcome costs no more than the center it starts from.
pub proof fn lemma_diamond_non_increasing(ctx: SearchView, center: FullpelSearchResult, radius: nat, end: nat)
    ensures
        diamond_from(ctx, center, radius, end).cost <= center.cost,
    decreases center.cost, radius,
{
    let best = diamond_best(ctx, center.mv, pow2_spec(radius) as int);
    if center.cost <= best.cost {
        if radius > end {
            lemma_diamond_non_increasing(ctx, center, (radius - 1) as nat, end);
        }
    } else {
        lemma_diamond_non_increasing(ctx, best, radius, end);
    }
}

proof fn lemma_best_of_le(ctx: SearchView, preds: Seq<MotionVector>, i: int)
    requires
        0 <= i < preds.len(),
    ensures
        best_of(ctx, preds).cost <= ctx.eval(preds[i]).cost,
    decreases preds.len(),
{
    if i < preds.len() - 1 {
        lemma_best_of_le(ctx, preds.drop_last(), i);
    }
}

/// Every vector that diamond search returns with a finite cost lies in range.
pub proof fn lemma_diamond_search_in_range(ctx: SearchView, preds: Seq<MotionVector>)
    requires
        ctx.bounds.wf(),
    ensures
        in_range(ctx, diamond_from(ctx, best_of(ctx, preds), 4, 3)),
{
    lemma_best_of_in_range(ctx, preds);
    lemma_diamond_from_in_range(ctx, best_of(ctx, preds), 4, 3);
}

/// A legal full-pel vector has a finite cost.
pub proof fn lemma_legal_cost_finite(ctx: SearchView, mv: MotionVector)
    requires
        ctx.wf(),
        ctx.legal(mv.row as int, mv.col as int),
    ensures
        ctx.eval(mv).cost < u64::MAX,
{
    let win = ctx.cand_window(mv.row as int, mv.col as int);
    lemma_sad_bounds(ctx.org, win, ctx.w as nat, ctx.h as nat);
    crate::cost::lemma_mv_rate_bound(mv, ctx.pmv[0], ctx.pmv[1], ctx.allow_high_precision_mv);
    let d = ctx.distortion(false, win);
    let rate = mv_rate_spec(mv, ctx.pmv[0], ctx.pmv[1], ctx.allow_high_precision_mv) as int;
    assert(65535 * ctx.w * ctx.h <= 65535 * 128 * 128) by (nonlinear_arith)
        requires ctx.w <= 128, ctx.h <= 128;
    assert(rate * ctx.lambda <= 64 * 4294967295) by (nonlinear_arith)
        requires 0 <= rate <= 64, ctx.lambda <= 4294967295;
    assert(0 <= rate * ctx.lambda) by (nonlinear_arith) requires 0 <= rate, 0 <= ctx.lambda;
}

/// Where some predictor is legal, diamond search ends with a finite cost on
/// an in-range vector.
pub proof fn lemma_diamond_search_finds_legal(ctx: SearchView, preds: Seq<MotionVector>, i: int)
    requires
        ctx.wf(),
        0 <= i < preds.len(),
        ctx.legal(preds[i].row as int, preds[i].col as int),
    ensures
        diamond_from(ctx, best_of(ctx, preds), 4, 3).cost < u64::MAX,
        ctx.bounds.contains(diamond_from(ctx, best_of(ctx, preds), 4, 3).mv.row as int,
            diamond_from(ctx, best_of(ctx, preds), 4, 3).mv.col as int),
{
    lemma_legal_cost_finite(ctx, preds[i]);
    lemma_diamond_search_beats_predictors(ctx, preds, i);
    lemma_diamond_search_in_range(ctx, preds);
}

/// A result with a finite cost is the evaluation of its own vector.
pub open spec fn self_evaluated(ctx: SearchView, r: FullpelSearchResult) -> bool {
    r.cost < u64::MAX ==> r == ctx.eval(r.mv)
}

proof fn lemma_best_of_evaluated(ctx: SearchView, preds: Seq<MotionVector>)
    ensures
        self_evaluated(ctx, best_of(ctx, preds)),
    decreases preds.len(),
{
    if preds.len() > 0 {
        lemma_best_of_evaluated(ctx, preds.drop_last());
    }
}

proof fn lemma_diamond_from_evaluated(ctx: SearchView, center: FullpelSearchResult, radius: nat, end: nat)
    requires
        self_evaluated(ctx, center),
    ensures
        self_evaluated(ctx, diamond_from(ctx, center, radius, end)),
    decreases center.cost, radius,
{
    reveal(diamond_best);
    let best = diamond_best(ctx, center.mv, pow2_spec(radius) as int);
    if center.cost <= best.cost {
        if radius > end {
            lemma_diamond_from_evaluated(ctx, center, (radius - 1) as nat, end);
        }
    } else {
        lemma_diamond_from_evaluated(ctx, best, radius, end);
    }
}

/// The cost and SAD that diamond search returns with a finite cost are
/// those of its vector.
pub proof fn lemma_diamond_search_cost_is_its_vectors(ctx: SearchView, preds: Seq<MotionVector>)
    ensures
        self_evaluated(ctx, diamond_from(ctx, best_of(ctx, preds), 4, 3)),
{
    lemma_best_of_evaluated(ctx, preds);
    lemma_diamond_from_evaluated(ctx, best_of(ctx, preds), 4, 3);
}

/// Diamond search costs no more than any of its initial predictors.
pub proof fn lemma_diamond_search_beats_predictors(ctx: SearchView, preds: Seq<MotionVector>, i: int)
    requires
        0 <= i < preds.len(),
    ensures
        diamond_from(ctx, best_of(ctx, preds), 4, 3).cost <= best_of(ctx, preds).cost,
        diamond_from(ctx, best_of(ctx, preds), 4, 3).cost <= ctx.eval(preds[i]).cost,
{
    lemma_diamond_non_increasing(ctx, best_of(ctx, preds), 4, 3);
    lemma_best_of_le(ctx, preds, i);
}

/// With the zero vector among the predictors, diamond search costs no more
/// than the zero vector.
pub proof fn lemma_diamond_search_zero_floor(ctx: SearchView, preds: Seq<MotionVector>)
    requires
        preds.contains(MotionVector { row: 0, col: 0 }),
    ensures
        diamond_from(ctx, best_of(ctx, preds), 4, 3).cost <= ctx.eval(MotionVector { row: 0, col: 0 }).cost,
{
    let i = choose|i: int| 0 <= i < preds.len() && preds[i] == MotionVector { row: 0, col: 0 };
    lemma_diamond_search_beats_predictors(ctx, preds, i);
}

proof fn lemma_fs_row_in_range(ctx: SearchView, acc: FullpelSearchResult, y: int, x_lo: int, step: int, n: nat)
    requires
        ctx.bounds.wf(),
        in_range(ctx, acc),
    ensures
        in_range(ctx, fs_row(ctx, acc, y, x_lo, step, n)),
    decreases n,
{
    if n > 0 {
        lemma_fs_row_in_range(ctx, acc, y, x_lo, step, (n - 1) as nat);
    }
}

pub proof fn lemma_fs_rows_in_range(ctx: SearchView, x_lo: int, nx: nat, y_lo: int, ny: nat, step: int)
    requires
        ctx.bounds.wf(),
    ensures
        in_range(ctx, fs_rows(ctx, x_lo, nx, y_lo, ny, step)),
    decreases ny,
{
    if ny > 0 {
        lemma_fs_rows_in_range(ctx, x_lo, nx, y_lo, (ny - 1) as nat, step);
        lemma_fs_row_in_range(ctx, fs_rows(ctx, x_lo, nx, y_lo, (ny - 1) as nat, step),
            y_lo + (ny - 1) * step, x_lo, step, nx);
    }
}

/// Every vector that exhaustive search returns with a finite cost lies in range.
pub proof fn lemma_full_search_in_range(ctx: SearchView, x_lo: int, x_hi: int, y_lo: int, y_hi: int, step: int)
    requires
        ctx.bounds.wf(),
    ensures
        in_range(ctx, full_search_spec(ctx, x_lo, x_hi, y_lo, y_hi, step)),
{
    reveal(full_search_spec);
    lemma_fs_rows_in_range(ctx, x_lo, count_steps(x_lo, x_hi, step), y_lo, count_steps(y_lo, y_hi, step), step);
}

/// Where the source block and the whole reference plane hold one value, every
/// legal window has zero SAD.
proof fn lemma_flat_window(ctx: SearchView, mv: MotionVector, k: u16)
    requires
        ctx.wf(),
        ctx.legal(mv.row as int, mv.col as int),
        forall|r: int, c: int| 0 <= r < ctx.h && 0 <= c < ctx.w ==> #[trigger] ctx.org.at(r, c) == k,
        forall|i: int| 0 <= i < ctx.p_ref.data.items().len() ==> #[trigger] ctx.p_ref.data.items()[i] == k,
    ensures
        ctx.eval(mv).sad == 0,
        ctx.eval(mv).cost == mv_rate_spec(mv, ctx.pmv[0], ctx.pmv[1], ctx.allow_high_precision_mv) * ctx.lambda,
{
    let win = ctx.cand_window(mv.row as int, mv.col as int);
    let p = ctx.p_ref;
    let cols = p.data.cols_spec() as int;
    let x0 = ctx.po.x + mv.col as int / 8 + p.xorigin;
    let y0 = ctx.po.y + mv.row as int / 8 + p.yorigin;
    assert(0 <= y0 * cols + x0 <= MAX_PLANE_SIDE * MAX_PLANE_SIDE + MAX_PLANE_SIDE) by (nonlinear_arith)
        requires 0 <= y0 <= p.data.rows_spec(), 0 <= x0 <= cols, cols <= MAX_PLANE_SIDE,
            p.data.rows_spec() <= MAX_PLANE_SIDE;
    assert(win.parts.offset == y0 * cols + x0);
    assert forall|r: int, c: int| 0 <= r < ctx.h && 0 <= c < ctx.w implies #[trigger] ctx.org.at(r, c) == win.at(r, c) by {
        assert(0 <= (y0 + r) * cols + x0 + c < cols * p.data.rows_spec()) by (nonlinear_arith)
            requires 0 <= y0, y0 + ctx.h <= p.data.rows_spec(), 0 <= x0, x0 + ctx.w <= cols, 0 <= r < ctx.h,
                0 <= c < ctx.w;
        assert(win.parts.index_of(r, c) == (y0 + r) * cols + x0 + c) by (nonlinear_arith)
            requires win.parts.offset == y0 * cols + x0, win.parts.stride == cols;
    }
    assert(same_pixels(ctx.org, win, ctx.w as nat, ctx.h as nat));
    lemma_identical_windows_zero(ctx.org, win, ctx.w as nat, ctx.h as nat);
    crate::cost::lemma_mv_rate_bound(mv, ctx.pmv[0], ctx.pmv[1], ctx.allow_high_precision_mv);
    let rate = mv_rate_spec(mv, ctx.pmv[0], ctx.pmv[1], ctx.allow_high_precision_mv) as int;
    assert(0 <= rate * ctx.lambda <= 64 * 4294967295) by (nonlinear_arith)
        requires 0 <= rate <= 64, 0 <= ctx.lambda <= 4294967295;
}

/// Two identical flat pictures: with the zero vector among the predictors and
/// zero predictors for the rate, diamond search returns the zero vector with
/// zero cost and zero SAD.
pub proof fn lemma_flat_search_keeps_zero(ctx: SearchView, preds: Seq<MotionVector>, k: u16)
    requires
        ctx.wf(),
        ctx.lambda > 0,
        ctx.allow_high_precision_mv,
        ctx.pmv[0] == (MotionVector { row: 0, col: 0 }),
        ctx.pmv[1] == (MotionVector { row: 0, col: 0 }),
        preds.contains(MotionVector { row: 0, col: 0 }),
        ctx.legal(0, 0),
        forall|r: int, c: int| 0 <= r < ctx.h && 0 <= c < ctx.w ==> #[trigger] ctx.org.at(r, c) == k,
        forall|i: int| 0 <= i < ctx.p_ref.data.items().len() ==> #[trigger] ctx.p_ref.data.items()[i] == k,
    ensures
        diamond_from(ctx, best_of(ctx, preds), 4, 3).mv == (MotionVector { row: 0, col: 0 }),
        diamond_from(ctx, best_of(ctx, preds), 4, 3).cost == 0,
        diamond_from(ctx, best_of(ctx, preds), 4, 3).sad == 0,
{
    let z = MotionVector { row: 0, col: 0 };
    let res = diamond_from(ctx, best_of(ctx, preds), 4, 3);
    lemma_flat_window(ctx, z, k);
    lemma_diamond_search_zero_floor(ctx, preds);
    assert(mv_rate_spec(z, z, z, true) == 0);
    assert(mv_rate_spec(z, ctx.pmv[0], ctx.pmv[1], ctx.allow_high_precision_mv) == 0);
    let rz = mv_rate_spec(z, ctx.pmv[0], ctx.pmv[1], ctx.allow_high_precision_mv);
    assert(rz * ctx.lambda == 0) by (nonlinear_arith) requires rz == 0;
    assert(ctx.eval(z).cost == 0);
    assert(res.cost == 0);
    lemma_diamond_search_cost_is_its_vectors(ctx, preds);
    assert(res == ctx.eval(res.mv));
    assert(ctx.legal(res.mv.row as int, res.mv.col as int));
    lemma_flat_window(ctx, res.mv, k);
    let rate = mv_rate_spec(res.mv, z, z, true) as int;
    assert(rate == 0) by (nonlinear_arith) requires rate * ctx.lambda == 0, ctx.lambda > 0, rate >= 0;
    assert(crate::cost::mv_delta_rate(res.mv, z, true) == 0);
    assert(res.mv.row == 0 && res.mv.col == 0);
}

} // verus!
