use motion_search::block::{BlockSize, TileBlockOffset};
use motion_search::data2d::Data2D;
use motion_search::me::{
    estimate_motion, estimate_motion_alt, estimate_motion_ss2, estimate_motion_ss4, motion_estimation,
    prep_tile_motion_estimation, save_me_stats, FrameInvariants, MeLambdas, ReferenceFrame, TileState,
};
use motion_search::mv::MotionVector;
use motion_search::plane::{Plane, PlaneOffset};
use motion_search::predictors::BlockCorner;
use motion_search::stats::{FrameMEStats, FrameMotionVectors, MEStats};
use motion_search::subpel::BlockPredictor;

const PAD: usize = 96;

fn mv(row: i16, col: i16) -> MotionVector {
    MotionVector { row, col }
}

fn plane_from(w: usize, h: usize, f: impl Fn(isize, isize) -> u16) -> Plane {
    let mut data: Data2D<u16> = Data2D::new(w + 2 * PAD, h + 2 * PAD);
    for r in 0..h + 2 * PAD {
        for c in 0..w + 2 * PAD {
            data.set(r, c, f(c as isize - PAD as isize, r as isize - PAD as isize));
        }
    }
    Plane { data, xorigin: PAD, yorigin: PAD }
}

/// A horizontal ramp; the reference holds it moved 4 pixels to the right.
fn ramp(x: isize, _y: isize) -> u16 {
    (3 * (x + 300)) as u16
}

fn grids() -> (Vec<FrameMEStats>, Vec<FrameMotionVectors>) {
    ((0..7).map(|_| FrameMEStats::new(16, 16)).collect(), (0..7).map(|_| FrameMotionVectors::new(16, 16)).collect())
}

fn setup(with_reference: bool) -> (FrameInvariants, TileState) {
    let (ref_stats, ref_mvs) = grids();
    let rec = ReferenceFrame {
        frame: plane_from(64, 64, |x, y| ramp(x - 4, y)),
        input_hres: plane_from(32, 32, |x, y| ramp(2 * x - 4, 2 * y)),
        input_qres: plane_from(16, 16, |x, y| ramp(4 * x - 4, 4 * y)),
        frame_me_stats: ref_stats,
        frame_mvs: ref_mvs,
    };
    let fi = FrameInvariants {
        w_in_b: 16,
        h_in_b: 16,
        me_range_scale: 1,
        allow_high_precision_mv: true,
        use_satd_subpel: false,
        lambdas: MeLambdas { fullpel: 8, fullpel_large: 2, half_res: 1, quarter_res: 1 },
        rec_buffer: vec![if with_reference { Some(rec) } else { None }],
        ref_frames: vec![0; 7],
    };
    let (me_stats, mvs) = grids();
    let ts = TileState {
        x: 0,
        y: 0,
        mi_width: 16,
        mi_height: 16,
        sb_width: 1,
        sb_height: 1,
        input: plane_from(64, 64, ramp),
        input_hres: plane_from(32, 32, |x, y| ramp(2 * x, 2 * y)),
        input_qres: plane_from(16, 16, |x, y| ramp(4 * x, 4 * y)),
        me_stats,
        mvs,
    };
    (fi, ts)
}

#[test]
fn each_resolution_finds_the_shift() {
    let (fi, ts) = setup(true);
    let b16 = BlockSize { width_log2: 4, height_log2: 4 };
    let bo = TileBlockOffset { x: 4, y: 4 };
    assert_eq!(estimate_motion(&fi, &ts, b16, bo, &[None, Some(mv(8, 0))], 0), Some(mv(0, 32)));
    assert_eq!(estimate_motion_ss2(&fi, &ts, b16, bo, &[None, None, None], 0), Some(mv(0, 32)));
    let b64 = BlockSize { width_log2: 6, height_log2: 6 };
    assert_eq!(estimate_motion_ss4(&fi, &ts, b64, 0, TileBlockOffset { x: 0, y: 0 }), Some(mv(0, 32)));
    let alt = estimate_motion_alt(&fi, &ts, b16, bo, 0, BlockCorner::INIT, true).unwrap();
    assert_eq!(alt.mv, mv(0, 32));
    assert_eq!(alt.sad, 0);
}

#[test]
fn sub_pel_refinement_keeps_an_exact_match() {
    let (fi, ts) = setup(true);
    let b16 = BlockSize { width_log2: 4, height_log2: 4 };
    let pred = plane_from(64, 64, |x, y| ramp(x - 4, y));
    let (v, sad) = motion_estimation(&fi, &ts, b16, TileBlockOffset { x: 4, y: 4 }, 0, mv(0, 0), [mv(0, 0); 2], &pred);
    assert_eq!(v, mv(0, 32));
    assert_eq!(sad, 0);
}

#[test]
fn missing_reference_gives_no_motion() {
    let (fi, ts) = setup(false);
    let b16 = BlockSize { width_log2: 4, height_log2: 4 };
    let bo = TileBlockOffset { x: 4, y: 4 };
    assert_eq!(estimate_motion(&fi, &ts, b16, bo, &[], 0), None);
    assert_eq!(estimate_motion_ss2(&fi, &ts, b16, bo, &[None, None, None], 0), None);
    assert_eq!(estimate_motion_ss4(&fi, &ts, b16, 0, bo), None);
    assert!(estimate_motion_alt(&fi, &ts, b16, bo, 0, BlockCorner::INIT, true).is_none());
    let pred = plane_from(8, 8, |_, _| 0);
    assert_eq!(motion_estimation(&fi, &ts, b16, bo, 0, mv(0, 0), [mv(0, 0); 2], &pred), (mv(0, 0), u32::MAX));
}

#[test]
fn tile_sweep_fills_the_grids() {
    let (fi, mut ts) = setup(true);
    prep_tile_motion_estimation(&fi, &mut ts, &[0]);
    assert_eq!(ts.mvs[0].get(4, 4), mv(0, 32));
    assert_eq!(ts.me_stats[0].get(12, 12).mv, mv(0, 32));
    assert_eq!(ts.mvs[1].get(4, 4), mv(0, 0));
}

#[test]
fn saved_stats_cover_the_block_only() {
    let (_, mut ts) = setup(true);
    let b16 = BlockSize { width_log2: 4, height_log2: 4 };
    let st = MEStats { mv: mv(8, -8), sad: 12 };
    save_me_stats(&mut ts, b16, TileBlockOffset { x: 14, y: 2 }, 3, st);
    assert_eq!(ts.me_stats[3].get(2, 15), st);
    assert_eq!(ts.mvs[3].get(5, 14), mv(8, -8));
    assert_eq!(ts.me_stats[3].get(6, 14), MEStats::default());
    assert_eq!(ts.me_stats[3].get(2, 13), MEStats::default());
    assert_eq!(ts.me_stats[2].get(2, 15), MEStats::default());
}

#[test]
fn plane_predicts_the_full_pel_window() {
    let p = plane_from(16, 16, |x, y| (x * 10 + y + 500) as u16);
    let b = p.predict_block(PlaneOffset { x: 2, y: 3 }, mv(-1, 17), 2, 2);
    // (-1, 17) rounds down to one row up and two columns right.
    assert_eq!(b, vec![542u16, 552, 543, 553]);
    assert!(p.predict_block(PlaneOffset { x: 200, y: 0 }, mv(0, 0), 4, 4).is_empty());
}
