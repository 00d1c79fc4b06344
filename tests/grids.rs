use motion_search::data2d::Data2D;
use motion_search::slice2d::{HorizontalChunks2D, RowsIter, Slice2D, Slice2DMut, Slice2DRawParts, VerticalChunks2D};
use motion_search::stats::{FrameMEStats, FrameMotionVectors, MEStats};
use motion_search::mv::MotionVector;

#[test]
fn data2d_shape_and_access() {
    let mut d: Data2D<u16> = Data2D::new(3, 2);
    assert_eq!(d.width(), 3);
    assert_eq!(d.height(), 2);
    assert_eq!(d.cols(), 3);
    assert_eq!(d.rows(), 2);
    assert_eq!(*d.get(1, 2), 0);
    d.set(1, 2, 9);
    assert_eq!(*d.get(1, 2), 9);
    let s = d.slice();
    assert_eq!(s.width(), 3);
    assert_eq!(s.stride(), 3);
    assert_eq!(*s.get(1, 2), 9);
}

#[test]
fn slice2d_splits_and_subslices() {
    let data: Vec<u16> = (0..20).collect();
    let s = Slice2D::new(&data, 4, 5, 4);
    assert_eq!(s.rows(), 5);
    assert_eq!(s.cols(), 4);
    let (top, bottom) = s.horizontal_split(2);
    assert_eq!(top.height(), 2);
    assert_eq!(bottom.height(), 3);
    assert_eq!(*bottom.get(0, 1), 9);
    let (left, right) = bottom.vertical_split(1);
    assert_eq!(left.width(), 1);
    assert_eq!(*right.get(2, 0), 17);
    let mut whole = Slice2D::new(&data, 4, 5, 4);
    let sub = whole.tmp_subslice((1..3, 2..4));
    assert_eq!(sub.width(), 2);
    assert_eq!(sub.height(), 2);
    assert_eq!(*sub.get(1, 1), 11);
    assert_eq!(sub.as_ptr()[0], 6);
    let e: Slice2D<u16> = Slice2D::empty([]);
    assert_eq!(e.width(), 0);
    assert_eq!(e.height(), 0);
    let raw = Slice2DRawParts { offset: 5, width: 2, height: 2, stride: 4 };
    let r = Slice2D::from_raw_parts(&data, raw);
    assert_eq!(*r.get(1, 1), 10);
}

#[test]
fn slice2d_mut_writes() {
    let mut data: Vec<u16> = vec![0; 12];
    let mut m = Slice2DMut::new(&mut data, 3, 4, 3);
    assert_eq!(m.width(), 3);
    assert_eq!(m.height(), 4);
    assert_eq!(m.cols(), 3);
    assert_eq!(m.rows(), 4);
    assert_eq!(m.stride(), 3);
    m.set(2, 1, 5);
    assert_eq!(*m.as_const().get(2, 1), 5);
    assert_eq!(m.as_ptr()[7], 5);
    let e: Slice2DMut<u16> = Slice2DMut::empty([]);
    assert_eq!(e.width(), 0);
    drop(m);
    assert_eq!(data[7], 5);
}

#[test]
fn stats_grids_start_zero_and_store() {
    let mut s = FrameMEStats::new(4, 3);
    assert_eq!(s.get(2, 3), MEStats::default());
    let st = MEStats { mv: MotionVector { row: 8, col: -16 }, sad: 42 };
    s.fill_rect(1, 0, 3, 2, st);
    assert_eq!(s.get(1, 2), st);
    assert_eq!(s.get(2, 2), MEStats::default());
    assert_eq!(s.get(0, 0), MEStats::default());
    let mut m = FrameMotionVectors::new(2, 2);
    assert_eq!(m.get(1, 1), MotionVector::default());
    m.set(1, 1, MotionVector { row: 1, col: 2 });
    assert_eq!(m.get(1, 1), MotionVector { row: 1, col: 2 });
}

#[test]
fn rows_and_chunks_walk_the_view() {
    let data: Vec<u16> = (0..20).collect();
    let s = Slice2D::new(&data, 3, 4, 5);
    let mut rows = s.rows_iter();
    assert_eq!(rows.size_hint(), (4, Some(4)));
    assert_eq!(rows.next(), Some(&[0u16, 1, 2][..]));
    assert_eq!(rows.next(), Some(&[5u16, 6, 7][..]));
    assert_eq!(rows.size_hint(), (2, Some(2)));
    assert_eq!(rows.next(), Some(&[10u16, 11, 12][..]));
    assert_eq!(rows.next(), Some(&[15u16, 16, 17][..]));
    assert_eq!(rows.next(), None);
    let mut r2 = RowsIter::new(Slice2D::new(&data, 3, 4, 5));
    assert!(r2.next().is_some());

    let mut v = VerticalChunks2D::new(Slice2D::new(&data, 3, 4, 5), 3);
    assert_eq!(v.size_hint(), (2, Some(2)));
    let first = v.next().unwrap();
    assert_eq!(first.height(), 3);
    let second = v.next().unwrap();
    assert_eq!(second.height(), 1);
    assert_eq!(*second.get(0, 2), 17);
    assert!(v.next().is_none());

    let mut h = HorizontalChunks2D::new(Slice2D::new(&data, 3, 4, 5), 2);
    let left = h.next().unwrap();
    assert_eq!(left.width(), 2);
    let right = h.next().unwrap();
    assert_eq!(right.width(), 1);
    assert_eq!(*right.get(3, 0), 17);
    assert!(h.next().is_none());
}
