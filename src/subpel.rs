//! Sub-pel refinement: diamond search whose candidates are predicted by an
//! inter-prediction collaborator that the caller supplies.
use vstd::prelude::*;
use crate::block::pow2_spec;
use crate::mv::{floor_div8, MotionVector};
use crate::plane::{Plane, PlaneOffset, MAX_PLANE_SIDE};
use crate::search::{compute_mv_rd_cost, stencil_point, MVSearchResult, SearchContext, SearchView};
use crate::slice2d::{Slice2D, Slice2DRawParts, View2D};

verus! {

/// Inter prediction at a fractional motion vector.
pub trait BlockPredictor {
    /// The predicted block, row by row; one of another length than `w * h`
    /// counts as a failed prediction.
    spec fn prediction(&self, po: PlaneOffset, mv: MotionVector, w: usize, h: usize) -> Seq<u16>;

    /// The `w` by `h` block of the reference whose top-left pixel is at `po`,
    /// displaced by `mv` (1/8-pel units), row by row.
    fn predict_block(&self, po: PlaneOffset, mv: MotionVector, w: usize, h: usize) -> (r: Vec<u16>)
        ensures
            r@ == self.prediction(po, mv, w, h);
}

/// The `w` by `h` window of `p` at `(x, y)`, row by row.
pub open spec fn window_items(p: Plane, x: int, y: int, w: nat, h: nat) -> Seq<u16> {
    Seq::new(w * h, |i: int| p.window(x, y, w, h).at(i / w as int, i % w as int))
}

/// A plane predicts a block by the full-pel position at or above-left of the
/// vector; outside the plane the prediction fails.
impl BlockPredictor for Plane {
    open spec fn prediction(&self, po: PlaneOffset, mv: MotionVector, w: usize, h: usize) -> Seq<u16> {
        let x = po.x + mv.col as int / 8;
        let y = po.y + mv.row as int / 8;
        if self.wf() && -MAX_PLANE_SIDE <= po.x <= MAX_PLANE_SIDE && -MAX_PLANE_SIDE <= po.y <= MAX_PLANE_SIDE
            && w <= MAX_PLANE_SIDE && h <= MAX_PLANE_SIDE && self.window_fits(x, y, w as nat, h as nat) {
            window_items(*self, x, y, w as nat, h as nat)
        } else {
            Seq::empty()
        }
    }

    fn predict_block(&self, po: PlaneOffset, mv: MotionVector, w: usize, h: usize) -> (r: Vec<u16>) {
        let mut out: Vec<u16> = Vec::new();
        let cols = self.data.cols();
        let rows = self.data.rows();
        if cols > MAX_PLANE_SIDE || rows > MAX_PLANE_SIDE {
            return out;
        }
        proof {
            assert(cols * rows <= MAX_PLANE_SIDE * MAX_PLANE_SIDE) by (nonlinear_arith)
                requires cols <= MAX_PLANE_SIDE, rows <= MAX_PLANE_SIDE;
        }
        if !(self.xorigin <= cols && self.yorigin <= rows && self.data.items_len() == cols * rows)
            || po.x < -(MAX_PLANE_SIDE as isize) || po.x > MAX_PLANE_SIDE as isize
            || po.y < -(MAX_PLANE_SIDE as isize) || po.y > MAX_PLANE_SIDE as isize
            || w > MAX_PLANE_SIDE || h > MAX_PLANE_SIDE {
            return out;
        }
        let x = po.x + floor_div8(mv.col as i32) as isize;
        let y = po.y + floor_div8(mv.row as i32) as isize;
        match self.region(x, y, w, h) {
            None => out,
            Some(win) => {
                let ghost items = window_items(*self, x as int, y as int, w as nat, h as nat);
                let mut r: usize = 0;
                while r < h
                    invariant
                        win.wf(),
                        win@ == self.window(x as int, y as int, w as nat, h as nat),
                        w <= MAX_PLANE_SIDE,
                        h <= MAX_PLANE_SIDE,
                        r <= h,
                        out@.len() == r * w,
                        forall|i: int| 0 <= i < r * w ==> #[trigger] out@[i] == items[i],
                        items == window_items(*self, x as int, y as int, w as nat, h as nat),
                    decreases h - r,
                {
                    let mut c: usize = 0;
                    while c < w
                        invariant
                            win.wf(),
                            win@ == self.window(x as int, y as int, w as nat, h as nat),
                            w <= MAX_PLANE_SIDE,
                            h <= MAX_PLANE_SIDE,
                            r < h,
                            c <= w,
                            out@.len() == r * w + c,
                            forall|i: int| 0 <= i < r * w + c ==> #[trigger] out@[i] == items[i],
                            items == window_items(*self, x as int, y as int, w as nat, h as nat),
                        decreases w - c,
                    {
                        proof {
                            assert(r * w + c < w * h) by (nonlinear_arith) requires r < h, c < w;
                            assert(r * w + c <= MAX_PLANE_SIDE * MAX_PLANE_SIDE) by (nonlinear_arith)
                                requires r < h, c < w, h <= MAX_PLANE_SIDE, w <= MAX_PLANE_SIDE;
                        }
                        let v = *win.get(r, c);
                        proof {
                            let i = r * w + c;
                            vstd::arithmetic::div_mod::lemma_fundamental_div_mod_converse(i as int, w as int,
                                r as int, c as int);
                            assert(i as int / w as int == r && i as int % w as int == c);
                            assert(win.at(r as int, c as int) == win@.at(r as int, c as int));
                            assert(items[i as int] == self.window(x as int, y as int, w as nat, h as nat).at(
                                r as int, c as int));
                            assert(items[i as int] == v);
                        }
                        out.push(v);
                        c = c + 1;
                    }
                    proof {
                        assert((r + 1) * w == r * w + w) by (nonlinear_arith);
                    }
                    r = r + 1;
                }
                proof {
                    assert(h * w == w * h) by (nonlinear_arith);
                    assert(items.len() == w * h);
                    assert(out@ =~= items);
                }
                out
            },
        }
    }
}

/// The prediction buffer `b` seen as a `w` by `h` window.
pub open spec fn pred_view(b: Seq<u16>, w: usize, h: usize) -> View2D<u16> {
    View2D { items: b, parts: Slice2DRawParts { offset: 0, width: w, height: h, stride: w } }
}

/// Cost of the sub-pel vector `cand` predicted as `b`: `u64::MAX` where the
/// vector is out of range or `b` is not `w * h` pixels long.
pub open spec fn subpel_cost_spec(v: SearchView, use_satd: bool, cand: MotionVector, b: Seq<u16>) -> u64 {
    if !v.bounds.contains(cand.row as int, cand.col as int) || b.len() != v.w * v.h {
        u64::MAX
    } else {
        v.cost_with(use_satd, cand, pred_view(b, v.w, v.h)) as u64
    }
}

/// The outcome that no candidate was evaluated.
pub open spec fn no_subpel_result() -> MVSearchResult {
    MVSearchResult { mv: MotionVector { row: 0, col: 0 }, cost: u64::MAX }
}

/// The outcome of the sub-pel vector `(row, col)`.
pub open spec fn subpel_eval_at<P: BlockPredictor>(v: SearchView, use_satd: bool, pred: P, row: int, col: int)
    -> MVSearchResult
{
    if v.bounds.contains(row, col) {
        let m = MotionVector { row: row as i16, col: col as i16 };
        MVSearchResult { mv: m, cost: subpel_cost_spec(v, use_satd, m, pred.prediction(v.po, m, v.w, v.h)) }
    } else {
        no_subpel_result()
    }
}

/// `e` if it is strictly cheaper than `acc`, else `acc`.
pub open spec fn pick_sub(acc: MVSearchResult, e: MVSearchResult) -> MVSearchResult {
    if e.cost < acc.cost { e } else { acc }
}

/// The best of the four stencil points at distance `step` around `c`, in the
/// order down, right, up, left.
#[verifier::opaque]
pub open spec fn subpel_best<P: BlockPredictor>(v: SearchView, use_satd: bool, pred: P, c: MotionVector, step: int)
    -> MVSearchResult
{
    let r1 = pick_sub(no_subpel_result(), subpel_eval_at(v, use_satd, pred, c.row + step, c.col as int));
    let r2 = pick_sub(r1, subpel_eval_at(v, use_satd, pred, c.row as int, c.col + step));
    let r3 = pick_sub(r2, subpel_eval_at(v, use_satd, pred, c.row - step, c.col as int));
    pick_sub(r3, subpel_eval_at(v, use_satd, pred, c.row as int, c.col - step))
}

/// Sub-pel diamond search from `center` with radius `2^radius`, as
/// `diamond_from` but with predicted candidates.
pub open spec fn subpel_from<P: BlockPredictor>(v: SearchView, use_satd: bool, pred: P, center: MVSearchResult,
    radius: nat, end: nat) -> MVSearchResult
    decreases center.cost, radius,
{
    let best = subpel_best(v, use_satd, pred, center.mv, pow2_spec(radius) as int);
    if center.cost <= best.cost {
        if radius <= end {
            center
        } else {
            subpel_from(v, use_satd, pred, center, (radius - 1) as nat, end)
        }
    } else {
        subpel_from(v, use_satd, pred, best, radius, end)
    }
}

/// The last radius of the sub-pel search: 1/8 pel with high precision, else 1/4 pel.
pub open spec fn subpel_end(allow_high_precision_mv: bool) -> nat {
    if allow_high_precision_mv { 0 } else { 1 }
}

/// Cost of the sub-pel vector `cand_mv` predicted by `pred`.
pub fn get_subpel_mv_rd_cost<P: BlockPredictor>(ctx: &SearchContext, use_satd: bool, cand_mv: MotionVector, pred: &P)
    -> (r: u64)
    requires
        ctx.wf(),
    ensures
        r == subpel_cost_spec(ctx@, use_satd, cand_mv, pred.prediction(ctx.po, cand_mv, ctx.w, ctx.h)),
{
    if !ctx.bounds.contains_mv(cand_mv) {
        return u64::MAX;
    }
    let buf = pred.predict_block(ctx.po, cand_mv, ctx.w, ctx.h);
    let w = ctx.w;
    let h = ctx.h;
    proof {
        assert(w * h <= 128 * 128) by (nonlinear_arith) requires w <= 128, h <= 128;
    }
    if buf.len() != w * h {
        return u64::MAX;
    }
    proof {
        if h > 0 && w > 0 {
            assert((h - 1) * w + w == w * h) by (nonlinear_arith);
        }
    }
    let plane_ref = Slice2D::new(buf.as_slice(), w, h, w);
    let c = compute_mv_rd_cost(ctx, use_satd, cand_mv, &ctx.org, &plane_ref);
    c.0
}

fn subpel_radius_step(radius: u8) -> (r: i32)
    requires
        radius <= 2,
    ensures
        r == pow2_spec(radius as nat),
        1 <= r <= 4,
{
    reveal_with_fuel(pow2_spec, 3);
    if radius == 0 { 1 } else if radius == 1 { 2 } else { 4 }
}

/// One stencil point folded into `best`, keeping the first strictly cheaper one.
fn subpel_try<P: BlockPredictor>(ctx: &SearchContext, use_satd: bool, best: MVSearchResult, center: MotionVector,
    dr: i32, dc: i32, pred: &P) -> (r: MVSearchResult)
    requires
        ctx.wf(),
        -16 <= dr <= 16,
        -16 <= dc <= 16,
    ensures
        r == pick_sub(best, subpel_eval_at(ctx@, use_satd, *pred, center.row + dr, center.col + dc)),
{
    match stencil_point(ctx, center, dr, dc) {
        None => best,
        Some(cand_mv) => {
            let rd_cost = get_subpel_mv_rd_cost(ctx, use_satd, cand_mv, pred);
            assert(cand_mv == (MotionVector { row: (center.row + dr) as i16, col: (center.col + dc) as i16 }));
            if rd_cost < best.cost {
                MVSearchResult { mv: cand_mv, cost: rd_cost }
            } else {
                best
            }
        }
    }
}

/// The best stencil point at distance `2^radius` around `c`.
fn subpel_round<P: BlockPredictor>(ctx: &SearchContext, use_satd: bool, c: MotionVector, radius: u8, pred: &P)
    -> (r: MVSearchResult)
    requires
        ctx.wf(),
        radius <= 2,
    ensures
        r == subpel_best(ctx@, use_satd, *pred, c, pow2_spec(radius as nat) as int),
{
    reveal(subpel_best);
    let step = subpel_radius_step(radius);
    let none = MVSearchResult { mv: MotionVector { row: 0, col: 0 }, cost: u64::MAX };
    let r1 = subpel_try(ctx, use_satd, none, c, step, 0, pred);
    let r2 = subpel_try(ctx, use_satd, r1, c, 0, step, pred);
    let r3 = subpel_try(ctx, use_satd, r2, c, -step, 0, pred);
    subpel_try(ctx, use_satd, r3, c, 0, -step, pred)
}

/// Sub-pel diamond search from `center`, with radii from 4 (half-pel) down to
/// 1 (1/8-pel) where high precision is allowed, else down to 2 (quarter-pel).
pub fn subpel_diamond_me_search<P: BlockPredictor>(ctx: &SearchContext, use_satd: bool, center: &mut MVSearchResult,
    pred: &P)
    requires
        ctx.wf(),
    ensures
        *final(center) == subpel_from(ctx@, use_satd, *pred, *old(center), 2, subpel_end(ctx.allow_high_precision_mv)),
{
    let mut diamond_radius: u8 = 2;
    let diamond_radius_end: u8 = if ctx.allow_high_precision_mv { 0 } else { 1 };
    let ghost start = *center;
    let ghost end = subpel_end(ctx.allow_high_precision_mv);
    loop
        invariant
            ctx.wf(),
            diamond_radius_end == end,
            diamond_radius_end <= diamond_radius <= 2,
            subpel_from(ctx@, use_satd, *pred, *center, diamond_radius as nat, end)
                == subpel_from(ctx@, use_satd, *pred, start, 2, end),
        ensures
            *center == subpel_from(ctx@, use_satd, *pred, start, 2, end),
        decreases center.cost, diamond_radius,
    {
        let best_diamond = subpel_round(ctx, use_satd, center.mv, diamond_radius, pred);
        if center.cost <= best_diamond.cost {
            if diamond_radius == diamond_radius_end {
                break;
            } else {
                diamond_radius = diamond_radius - 1;
            }
        } else {
            *center = best_diamond;
        }
    }
}

/// Sub-pel refinement of `best`.
pub fn sub_pixel_me<P: BlockPredictor>(ctx: &SearchContext, use_satd: bool, best: &mut MVSearchResult, pred: &P)
    requires
        ctx.wf(),
    ensures
        *final(best) == subpel_from(ctx@, use_satd, *pred, *old(best), 2, subpel_end(ctx.allow_high_precision_mv)),
{
    subpel_diamond_me_search(ctx, use_satd, best, pred);
}

/// Sub-pel search never raises the cost, and a moved center holds an in-range
/// vector.
pub proof fn lemma_subpel_non_increasing<P: BlockPredictor>(v: SearchView, use_satd: bool, pred: P,
    center: MVSearchResult, radius: nat, end: nat)
    ensures
        subpel_from(v, use_satd, pred, center, radius, end).cost <= center.cost,
        subpel_from(v, use_satd, pred, center, radius, end) != center ==> {
            &&& subpel_from(v, use_satd, pred, center, radius, end).cost < center.cost
            &&& v.bounds.contains(subpel_from(v, use_satd, pred, center, radius, end).mv.row as int,
                subpel_from(v, use_satd, pred, center, radius, end).mv.col as int)
        },
    decreases center.cost, radius,
{
    reveal(subpel_best);
    let best = subpel_best(v, use_satd, pred, center.mv, pow2_spec(radius) as int);
    if center.cost <= best.cost {
        if radius > end {
            lemma_subpel_non_increasing(v, use_satd, pred, center, (radius - 1) as nat, end);
        }
    } else {
        lemma_subpel_non_increasing(v, use_satd, pred, best, radius, end);
    }
}

/// The stencil point chosen at radius `2^radius` differs from the center by
/// `2^radius` in one component.
proof fn lemma_subpel_best_step<P: BlockPredictor>(v: SearchView, use_satd: bool, pred: P, c: MotionVector, step: int)
    requires
        v.bounds.wf(),
        subpel_best(v, use_satd, pred, c, step).cost < u64::MAX,
    ensures
        ({
            let m = subpel_best(v, use_satd, pred, c, step).mv;
            (m.row - c.row == step || m.row - c.row == -step || m.row == c.row)
                && (m.col - c.col == step || m.col - c.col == -step || m.col == c.col)
        }),
{
    reveal(subpel_best);
}

/// Without high precision, sub-pel search moves the vector in even steps:
/// it stays on the quarter-pel grid of its start.
pub proof fn lemma_subpel_quarter_pel_grid<P: BlockPredictor>(v: SearchView, use_satd: bool, pred: P,
    center: MVSearchResult, radius: nat)
    requires
        v.bounds.wf(),
        1 <= radius,
    ensures
        (subpel_from(v, use_satd, pred, center, radius, 1).mv.row - center.mv.row) % 2 == 0,
        (subpel_from(v, use_satd, pred, center, radius, 1).mv.col - center.mv.col) % 2 == 0,
    decreases center.cost, radius,
{
    let step = pow2_spec(radius) as int;
    let best = subpel_best(v, use_satd, pred, center.mv, step);
    assert(step % 2 == 0) by {
        assert(pow2_spec(radius) == 2 * pow2_spec((radius - 1) as nat));
    }
    if center.cost <= best.cost {
        if radius > 1 {
            lemma_subpel_quarter_pel_grid(v, use_satd, pred, center, (radius - 1) as nat);
        }
    } else {
        lemma_subpel_best_step(v, use_satd, pred, center.mv, step);
        lemma_subpel_quarter_pel_grid(v, use_satd, pred, best, radius);
        let f = subpel_from(v, use_satd, pred, best, radius, 1);
        assert((best.mv.row - center.mv.row) % 2 == 0);
        assert((best.mv.col - center.mv.col) % 2 == 0);
        assert((f.mv.row - center.mv.row) == (f.mv.row - best.mv.row) + (best.mv.row - center.mv.row));
        assert((f.mv.col - center.mv.col) == (f.mv.col - best.mv.col) + (best.mv.col - center.mv.col));
    }
}

} // verus!
