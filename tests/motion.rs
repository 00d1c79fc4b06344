use motion_search::block::{BlockSize, TileBlockOffset};
use motion_search::cost::{get_mv_rate, ilog, mv_rate, rd_cost};
use motion_search::data2d::Data2D;
use motion_search::dist::{compute_sad, compute_satd};
use motion_search::me::{adjust_bo, get_mv_range};
use motion_search::mv::{floor_div8, MotionVector};
use motion_search::plane::{Plane, PlaneOffset};
use motion_search::search::{
    full_search, fullpel_diamond_me_search, get_best_predictor, get_fullpel_mv_rd_cost, MvBounds, SearchContext,
};
use motion_search::slice2d::Slice2D;

const PAD: usize = 96;

fn mv(row: i16, col: i16) -> MotionVector {
    MotionVector { row, col }
}

/// A padded `w` by `h` plane whose pixel `(x, y)` is `f(x, y)`.
fn plane_from(w: usize, h: usize, f: impl Fn(isize, isize) -> u16) -> Plane {
    let mut data: Data2D<u16> = Data2D::new(w + 2 * PAD, h + 2 * PAD);
    for r in 0..h + 2 * PAD {
        for c in 0..w + 2 * PAD {
            data.set(r, c, f(c as isize - PAD as isize, r as isize - PAD as isize));
        }
    }
    Plane { data, xorigin: PAD, yorigin: PAD }
}

fn ctx<'a>(org: Slice2D<'a, u16>, p_ref: &'a Plane, po: PlaneOffset, w: usize, h: usize, lambda: u32,
    bounds: MvBounds) -> SearchContext<'a> {
    SearchContext {
        org,
        p_ref,
        po,
        w,
        h,
        lambda,
        pmv: [MotionVector::default(); 2],
        allow_high_precision_mv: true,
        bounds,
    }
}

fn wide_bounds() -> MvBounds {
    MvBounds { mvx_min: -512, mvx_max: 512, mvy_min: -512, mvy_max: 512 }
}

#[test]
fn identical_flat_windows_give_zero_distortion_and_zero_vector() {
    let src = plane_from(64, 64, |_, _| 128);
    let rf = plane_from(64, 64, |_, _| 128);
    let org = src.region(0, 0, 64, 64).unwrap();
    let win = rf.region(0, 0, 64, 64).unwrap();
    assert_eq!(compute_sad(&org, &win, 64, 64), 0);
    assert_eq!(compute_satd(&org, &win, 64, 64), 0);
    let bounds = get_mv_range(16, 16, TileBlockOffset { x: 0, y: 0 }, 64, 64);
    let c = ctx(org, &rf, PlaneOffset { x: 0, y: 0 }, 64, 64, 100, bounds);
    let preds = [mv(16, 8), mv(0, 0), mv(-24, 40)];
    let r = fullpel_diamond_me_search(&c, &preds);
    assert_eq!(r.mv, mv(0, 0));
    assert_eq!(r.cost, 0);
    assert_eq!(r.sad, 0);
    // Away from zero, the cost is the rate times lambda only.
    let (cost, sad) = get_fullpel_mv_rd_cost(&c, false, mv(16, 8));
    assert_eq!(sad, 0);
    assert_eq!(cost, mv_rate(mv(16, 8), [mv(0, 0); 2], true) as u64 * 100);
}

#[test]
fn full_search_finds_a_four_pixel_shift() {
    let src = plane_from(64, 64, |x, _| (x + PAD as isize) as u16 % 256);
    let rf = plane_from(64, 64, |x, _| (x - 4 + PAD as isize) as u16 % 256);
    let org = src.region(16, 16, 16, 16).unwrap();
    let c = ctx(org, &rf, PlaneOffset { x: 16, y: 16 }, 16, 16, 4, wide_bounds());
    let r = full_search(&c, 8, 24, 14, 18, 1);
    assert_eq!(r.mv, mv(0, 32));
    let (zero_cost, zero_sad) = get_fullpel_mv_rd_cost(&c, false, mv(0, 0));
    assert_eq!(zero_sad, 4 * 16 * 16);
    assert!(r.cost < zero_cost);
    assert_eq!(r.sad, 0);
}

#[test]
fn full_search_outside_the_bounds_finds_nothing() {
    let src = plane_from(32, 32, |_, _| 10);
    let rf = plane_from(32, 32, |_, _| 10);
    let org = src.region(0, 0, 8, 8).unwrap();
    let c = ctx(org, &rf, PlaneOffset { x: 0, y: 0 }, 8, 8, 4, wide_bounds());
    // An empty window.
    let r = full_search(&c, 5, 4, 0, 0, 1);
    assert_eq!(r.cost, u64::MAX);
    assert_eq!(r.mv, mv(0, 0));
    // A window whose vectors all lie outside the legal range.
    let tight = MvBounds { mvx_min: 0, mvx_max: 0, mvy_min: 0, mvy_max: 0 };
    let org2 = src.region(0, 0, 8, 8).unwrap();
    let c2 = ctx(org2, &rf, PlaneOffset { x: 0, y: 0 }, 8, 8, 4, tight);
    let r2 = full_search(&c2, 2, 6, 2, 6, 1);
    assert_eq!(r2.cost, u64::MAX);
}

#[test]
fn diamond_search_is_deterministic_in_bounds_and_no_worse_than_zero() {
    let src = plane_from(64, 64, |x, y| ((x * 7 + y * 3 + PAD as isize * 10) % 251) as u16);
    let rf = plane_from(64, 64, |x, y| ((x * 7 + y * 3 + 9 + PAD as isize * 10) % 251) as u16);
    let bounds = MvBounds { mvx_min: -64, mvx_max: 64, mvy_min: -40, mvy_max: 40 };
    let preds = [mv(0, 0), mv(8, 8), mv(-16, 24)];
    let c1 = ctx(src.region(16, 16, 16, 16).unwrap(), &rf, PlaneOffset { x: 16, y: 16 }, 16, 16, 40, bounds);
    let c2 = ctx(src.region(16, 16, 16, 16).unwrap(), &rf, PlaneOffset { x: 16, y: 16 }, 16, 16, 40, bounds);
    let a = fullpel_diamond_me_search(&c1, &preds);
    let b = fullpel_diamond_me_search(&c2, &preds);
    assert_eq!(a, b);
    assert!(a.cost < u64::MAX);
    assert!(bounds.mvx_min <= a.mv.col as isize && a.mv.col as isize <= bounds.mvx_max);
    assert!(bounds.mvy_min <= a.mv.row as isize && a.mv.row as isize <= bounds.mvy_max);
    let (zero_cost, _) = get_fullpel_mv_rd_cost(&c1, false, mv(0, 0));
    assert!(a.cost <= zero_cost);
    let start = get_best_predictor(&c1, &preds);
    assert!(a.cost <= start.cost);
    for p in preds.iter() {
        assert!(a.cost <= get_fullpel_mv_rd_cost(&c1, false, *p).0);
    }
}

#[test]
fn out_of_range_candidates_cost_the_maximum() {
    let src = plane_from(32, 32, |_, _| 3);
    let rf = plane_from(32, 32, |_, _| 3);
    let bounds = MvBounds { mvx_min: -8, mvx_max: 8, mvy_min: -8, mvy_max: 8 };
    let c = ctx(src.region(0, 0, 8, 8).unwrap(), &rf, PlaneOffset { x: 0, y: 0 }, 8, 8, 4, bounds);
    assert_eq!(get_fullpel_mv_rd_cost(&c, false, mv(0, 16)), (u64::MAX, u32::MAX));
    assert_eq!(get_fullpel_mv_rd_cost(&c, false, mv(-16, 0)), (u64::MAX, u32::MAX));
    assert_eq!(get_best_predictor(&c, &[mv(0, 16)]).cost, u64::MAX);
}

#[test]
fn sad_of_eight_bit_blocks_stays_in_range() {
    let a = plane_from(16, 16, |_, _| 0);
    let b = plane_from(16, 16, |_, _| 255);
    let wa = a.region(0, 0, 8, 4).unwrap();
    let wb = b.region(0, 0, 8, 4).unwrap();
    assert_eq!(compute_sad(&wa, &wb, 8, 4), 255 * 8 * 4);
    let c = plane_from(16, 16, |x, y| ((x * 31 + y * 17 + 500) % 256) as u16);
    let wc = c.region(2, 3, 8, 4).unwrap();
    let s = compute_sad(&wa, &wc, 8, 4);
    assert!(s <= 255 * 8 * 4);
}

#[test]
fn satd_of_a_single_step_difference() {
    let a = plane_from(8, 8, |_, _| 0);
    let b = plane_from(8, 8, |x, y| if x == 0 && y == 0 { 4 } else { 0 });
    let wa = a.region(0, 0, 4, 4).unwrap();
    let wb = b.region(0, 0, 4, 4).unwrap();
    // One difference of 4 spreads to 16 coefficients of magnitude 4: 64, then divided by four.
    assert_eq!(compute_satd(&wa, &wb, 4, 4), 16);
    assert_eq!(compute_sad(&wa, &wb, 4, 4), 4);
}

#[test]
fn mv_rate_is_symmetric_and_exact() {
    assert_eq!(ilog(0), 0);
    assert_eq!(ilog(1), 1);
    assert_eq!(ilog(8), 4);
    assert_eq!(ilog(65535), 16);
    assert_eq!(get_mv_rate(mv(8, 0), mv(0, 0), true), 8);
    assert_eq!(get_mv_rate(mv(8, 0), mv(0, 0), false), 6);
    assert_eq!(get_mv_rate(mv(3, -5), mv(0, 0), true), 4 + 6);
    for &(a, b) in [(mv(3, -5), mv(-7, 2)), (mv(1, 0), mv(0, 0)), (mv(-32768, 32767), mv(32767, -32768))].iter() {
        for &hp in [true, false].iter() {
            assert_eq!(get_mv_rate(a, b, hp), get_mv_rate(b, a, hp));
        }
    }
    // The second predictor costs one unit more.
    assert_eq!(mv_rate(mv(8, 0), [mv(0, 0), mv(8, 0)], true), 1);
    assert_eq!(mv_rate(mv(8, 0), [mv(8, 0), mv(0, 0)], true), 0);
    assert_eq!(rd_cost(10, 3, 7), 256 * 10 + 21);
}

#[test]
fn quantize_to_fullpel_is_idempotent() {
    for &v in [mv(0, 0), mv(7, -7), mv(-1, 9), mv(-32768, 32767), mv(17, -17)].iter() {
        let q = v.quantize_to_fullpel();
        assert_eq!(q.quantize_to_fullpel(), q);
        assert_eq!(q.row % 8, 0);
        assert_eq!(q.col % 8, 0);
    }
    assert_eq!(mv(-1, 9).quantize_to_fullpel(), mv(-8, 8));
    assert_eq!(floor_div8(-1), -1);
    assert_eq!(floor_div8(15), 1);
}

#[test]
fn mv_range_and_block_adjustment() {
    let b = get_mv_range(40, 30, TileBlockOffset { x: 4, y: 2 }, 16, 8);
    assert_eq!(b.mvx_min, -4 * 32 - (128 + 128));
    assert_eq!(b.mvx_max, (40 - 4 - 4) * 32 + 128 + 128);
    assert_eq!(b.mvy_min, -2 * 32 - (128 + 64));
    assert_eq!(b.mvy_max, (30 - 2 - 2) * 32 + 128 + 64);
    let far = get_mv_range(4000, 4000, TileBlockOffset { x: 0, y: 0 }, 16, 16);
    assert_eq!(far.mvx_max, (4000 - 4) * 32 + 256);
    let mid = get_mv_range(2048, 16, TileBlockOffset { x: 1024, y: 0 }, 128, 16);
    assert_eq!(mid.mvx_min, -1024 * 32 - (128 + 1024));
    assert_eq!(adjust_bo(TileBlockOffset { x: 7, y: 9 }, 20, 10, 16, 16), TileBlockOffset { x: 4, y: 6 });
    assert_eq!(adjust_bo(TileBlockOffset { x: 19, y: 1 }, 20, 10, 16, 16), TileBlockOffset { x: 16, y: 1 });
    assert_eq!(adjust_bo(TileBlockOffset { x: 3, y: 3 }, 2, 2, 16, 16), TileBlockOffset { x: 0, y: 0 });
    let bs = BlockSize { width_log2: 4, height_log2: 3 };
    assert_eq!((bs.width(), bs.height(), bs.width_mi(), bs.height_mi()), (16, 8, 4, 2));
}
