use motion_search::block::{BlockSize, TileBlockOffset};
use motion_search::mv::MotionVector;
use motion_search::predictors::{get_subset_predictors, get_subset_predictors_alt, BlockCorner, SubsetQuery};
use motion_search::search::MvBounds;
use motion_search::stats::{FrameMEStats, FrameMotionVectors, MEStats};

fn mv(row: i16, col: i16) -> MotionVector {
    MotionVector { row, col }
}

fn wide_bounds() -> MvBounds {
    MvBounds { mvx_min: -2000, mvx_max: 2000, mvy_min: -2000, mvy_max: 2000 }
}

#[test]
fn median_of_equal_neighbours_is_that_vector() {
    let mut g = FrameMEStats::new(16, 16);
    g.fill_rect(0, 0, 16, 16, MEStats { mv: mv(8, 8), sad: 100 });
    let q = SubsetQuery {
        tile_bo: TileBlockOffset { x: 4, y: 4 },
        tile_origin: TileBlockOffset { x: 0, y: 0 },
        bsize: BlockSize { width_log2: 4, height_log2: 4 },
        bounds: wide_bounds(),
        corner: BlockCorner::INIT,
        ssdec: 0,
    };
    let s = get_subset_predictors_alt(&q, &g, None);
    assert_eq!(s.median, Some(mv(8, 8)));
    assert_eq!(s.subset_b.as_slice(), &[mv(8, 8), mv(8, 8), mv(8, 8), mv(0, 0)]);
    assert_eq!(s.subset_b.as_slice().last(), Some(&mv(0, 0)));
    assert!(s.subset_c.as_slice().is_empty());
    assert_eq!(s.min_sad, 100 >> 6);
}

#[test]
fn later_sweeps_take_the_block_cell_as_median_and_scale_down() {
    let mut g = FrameMEStats::new(16, 16);
    g.fill_rect(0, 0, 16, 16, MEStats { mv: mv(-20, 44), sad: 64 });
    let mut prev = FrameMEStats::new(16, 16);
    prev.fill_rect(0, 0, 16, 16, MEStats { mv: mv(16, -8), sad: 32 });
    let q = SubsetQuery {
        tile_bo: TileBlockOffset { x: 0, y: 0 },
        tile_origin: TileBlockOffset { x: 0, y: 0 },
        bsize: BlockSize { width_log2: 4, height_log2: 4 },
        bounds: MvBounds { mvx_min: -100, mvx_max: 20, mvy_min: -100, mvy_max: 100 },
        corner: BlockCorner::NW,
        ssdec: 1,
    };
    let s = get_subset_predictors_alt(&q, &g, Some(&prev));
    // Quantized to (-24, 40), clamped to (-24, 20), halved to (-12, 10).
    assert_eq!(s.median, Some(mv(-12, 10)));
    assert_eq!(s.subset_b.as_slice().last(), Some(&mv(0, 0)));
    assert!(s.subset_b.as_slice().iter().take(s.subset_b.as_slice().len() - 1).all(|&v| v == mv(-12, 10)));
    assert!(!s.subset_c.as_slice().is_empty());
    assert!(s.subset_c.as_slice().iter().all(|&v| v == mv(8, -4)));
    assert_eq!(s.min_sad, 32 >> 4);
}

#[test]
fn corner_block_has_no_spatial_candidates() {
    let mut tile_mvs = FrameMotionVectors::new(8, 8);
    for y in 0..8 {
        for x in 0..8 {
            tile_mvs.set(y, x, mv(8, 8));
        }
    }
    let mut prev = FrameMotionVectors::new(8, 8);
    for y in 0..8 {
        for x in 0..8 {
            prev.set(y, x, mv(40, -8));
        }
    }
    let bsize = BlockSize { width_log2: 4, height_log2: 4 };
    let origin = TileBlockOffset { x: 0, y: 0 };
    let bo = TileBlockOffset { x: 0, y: 0 };
    let list = get_subset_predictors(bo, &[mv(17, 25)], &tile_mvs, origin, Some(&prev), bsize);
    assert_eq!(list.as_slice(), &[mv(0, 0), mv(16, 24), mv(40, -8)]);
    let alone = get_subset_predictors(bo, &[], &tile_mvs, origin, None, bsize);
    assert_eq!(alone.as_slice(), &[mv(0, 0)]);
}

#[test]
fn spatial_neighbours_are_quantized_and_deduplicated() {
    let mut tile_mvs = FrameMotionVectors::new(16, 16);
    for y in 0..16 {
        for x in 0..16 {
            tile_mvs.set(y, x, mv(9, 9));
        }
    }
    tile_mvs.set(3, 6, mv(-3, 30));
    let bsize = BlockSize { width_log2: 4, height_log2: 4 };
    let bo = TileBlockOffset { x: 4, y: 4 };
    let list = get_subset_predictors(bo, &[mv(4, 4)], &tile_mvs, TileBlockOffset { x: 0, y: 0 }, None, bsize);
    // The coarse (4, 4) quantizes to zero; the top neighbour (-3, 30) to (-8, 24).
    assert_eq!(list.as_slice(), &[mv(0, 0), mv(8, 8), mv(-8, 24)]);
}
