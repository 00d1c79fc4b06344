//! Per-cell motion statistics of a frame or tile: dense grids stored row by row.
use vstd::prelude::*;
use crate::mv::MotionVector;

verus! {

/// Largest number of grid cells on a side of a statistics grid.
pub const MAX_GRID_SIDE: usize = 4096;

/// The motion vector and SAD found for one grid cell.
#[derive(Clone, Copy, Debug, PartialEq, Eq, Structural)]
pub struct MEStats {
    pub mv: MotionVector,
    pub sad: u32,
}

impl Default for MEStats {
    fn default() -> (r: MEStats)
        ensures
            r.mv == (MotionVector { row: 0, col: 0 }),
            r.sad == 0,
    {
        MEStats { mv: MotionVector { row: 0, col: 0 }, sad: 0 }
    }
}

/// One motion vector per grid cell.
pub struct FrameMotionVectors {
    pub mvs: Vec<MotionVector>,
    pub cols: usize,
    pub rows: usize,
}

impl FrameMotionVectors {
    pub open spec fn cells(&self) -> Seq<MotionVector> {
        self.mvs@
    }

    pub open spec fn wf(&self) -> bool {
        &&& self.cols <= MAX_GRID_SIDE
        &&& self.rows <= MAX_GRID_SIDE
        &&& self.cells().len() == self.cols * self.rows
    }

    /// The vector of the cell at row `y`, column `x`.
    pub open spec fn at(&self, y: int, x: int) -> MotionVector {
        self.cells()[y * self.cols + x]
    }

    /// A `cols` by `rows` grid of zero vectors.
    pub fn new(cols: usize, rows: usize) -> (r: FrameMotionVectors)
        requires
            cols <= MAX_GRID_SIDE,
            rows <= MAX_GRID_SIDE,
        ensures
            r.wf(),
            r.cols == cols,
            r.rows == rows,
            forall|y: int, x: int| 0 <= y < rows && 0 <= x < cols
                ==> #[trigger] r.at(y, x) == (MotionVector { row: 0, col: 0 }),
    {
        proof {
            assert(cols * rows <= MAX_GRID_SIDE * MAX_GRID_SIDE) by (nonlinear_arith)
                requires cols <= MAX_GRID_SIDE, rows <= MAX_GRID_SIDE;
        }
        let len = cols * rows;
        let mut mvs: Vec<MotionVector> = Vec::with_capacity(len);
        while mvs.len() < len
            invariant
                mvs.len() <= len,
                forall|i: int| 0 <= i < mvs.len() ==> #[trigger] mvs@[i] == (MotionVector { row: 0, col: 0 }),
            decreases len - mvs.len(),
        {
            mvs.push(MotionVector { row: 0, col: 0 });
        }
        proof {
            assert forall|y: int, x: int| 0 <= y < rows && 0 <= x < cols implies
                #[trigger] mvs@[y * cols + x] == (MotionVector { row: 0, col: 0 }) by {
                assert(y * cols + x < cols * rows) by (nonlinear_arith)
                    requires 0 <= y < rows, 0 <= x < cols;
            }
        }
        FrameMotionVectors { mvs, cols, rows }
    }

    /// The vector of the cell at row `y`, column `x`.
    pub fn get(&self, y: usize, x: usize) -> (r: MotionVector)
        requires
            self.wf(),
            y < self.rows,
            x < self.cols,
        ensures
            r == self.at(y as int, x as int),
    {
        proof {
            assert(y * self.cols + x < self.cols * self.rows) by (nonlinear_arith)
                requires y < self.rows, x < self.cols;
            assert(self.cols * self.rows <= MAX_GRID_SIDE * MAX_GRID_SIDE) by (nonlinear_arith)
                requires self.cols <= MAX_GRID_SIDE, self.rows <= MAX_GRID_SIDE;
        }
        self.mvs[y * self.cols + x]
    }

    /// Stores `mv` in the cell at row `y`, column `x`.
    pub fn set(&mut self, y: usize, x: usize, mv: MotionVector)
        requires
            old(self).wf(),
            y < old(self).rows,
            x < old(self).cols,
        ensures
            final(self).wf(),
            final(self).cols == old(self).cols,
            final(self).rows == old(self).rows,
            forall|yy: int, xx: int| 0 <= yy < old(self).rows && 0 <= xx < old(self).cols
                ==> #[trigger] final(self).at(yy, xx) == if yy == y && xx == x { mv } else { old(self).at(yy, xx) },
    {
        proof {
            assert(y * self.cols + x < self.cols * self.rows) by (nonlinear_arith)
                requires y < self.rows, x < self.cols;
            assert(self.cols * self.rows <= MAX_GRID_SIDE * MAX_GRID_SIDE) by (nonlinear_arith)
                requires self.cols <= MAX_GRID_SIDE, self.rows <= MAX_GRID_SIDE;
        }
        let i = y * self.cols + x;
        self.mvs.set(i, mv);
        proof {
            assert forall|yy: int, xx: int| 0 <= yy < self.rows && 0 <= xx < self.cols
                implies #[trigger] self.at(yy, xx) == if yy == y && xx == x { mv } else { old(self).at(yy, xx) } by {
                assert(yy * self.cols + xx < self.cols * self.rows) by (nonlinear_arith)
                    requires 0 <= yy < self.rows, 0 <= xx < self.cols;
                if yy != y {
                    assert(yy * self.cols + xx != y * self.cols + x) by (nonlinear_arith)
                        requires yy != y, 0 <= xx < self.cols, x < self.cols;
                }
            }
        }
    }
}

/// One `MEStats` per grid cell.
pub struct FrameMEStats {
    pub stats: Vec<MEStats>,
    pub cols: usize,
    pub rows: usize,
}

impl FrameMEStats {
    pub open spec fn cells(&self) -> Seq<MEStats> {
        self.stats@
    }

    pub open spec fn wf(&self) -> bool {
        &&& self.cols <= MAX_GRID_SIDE
        &&& self.rows <= MAX_GRID_SIDE
        &&& self.cells().len() == self.cols * self.rows
    }

    /// The statistics of the cell at row `y`, column `x`.
    pub open spec fn at(&self, y: int, x: int) -> MEStats {
        self.cells()[y * self.cols + x]
    }

    /// A `cols` by `rows` grid of zero vectors with zero SAD.
    pub fn new(cols: usize, rows: usize) -> (r: FrameMEStats)
        requires
            cols <= MAX_GRID_SIDE,
            rows <= MAX_GRID_SIDE,
        ensures
            r.wf(),
            r.cols == cols,
            r.rows == rows,
            forall|y: int, x: int| 0 <= y < rows && 0 <= x < cols
                ==> #[trigger] r.at(y, x) == (MEStats { mv: MotionVector { row: 0, col: 0 }, sad: 0 }),
    {
        proof {
            assert(cols * rows <= MAX_GRID_SIDE * MAX_GRID_SIDE) by (nonlinear_arith)
                requires cols <= MAX_GRID_SIDE, rows <= MAX_GRID_SIDE;
        }
        let len = cols * rows;
        let zero = MEStats { mv: MotionVector { row: 0, col: 0 }, sad: 0 };
        let mut stats: Vec<MEStats> = Vec::with_capacity(len);
        while stats.len() < len
            invariant
                stats.len() <= len,
                forall|i: int| 0 <= i < stats.len() ==> #[trigger] stats@[i] == zero,
            decreases len - stats.len(),
        {
            stats.push(zero);
        }
        proof {
            assert forall|y: int, x: int| 0 <= y < rows && 0 <= x < cols implies
                #[trigger] stats@[y * cols + x] == zero by {
                assert(y * cols + x < cols * rows) by (nonlinear_arith)
                    requires 0 <= y < rows, 0 <= x < cols;
            }
        }
        FrameMEStats { stats, cols, rows }
    }

    /// The statistics of the cell at row `y`, column `x`.
    pub fn get(&self, y: usize, x: usize) -> (r: MEStats)
        requires
            self.wf(),
            y < self.rows,
            x < self.cols,
        ensures
            r == self.at(y as int, x as int),
    {
        proof {
            assert(y * self.cols + x < self.cols * self.rows) by (nonlinear_arith)
                requires y < self.rows, x < self.cols;
            assert(self.cols * self.rows <= MAX_GRID_SIDE * MAX_GRID_SIDE) by (nonlinear_arith)
                requires self.cols <= MAX_GRID_SIDE, self.rows <= MAX_GRID_SIDE;
        }
        self.stats[y * self.cols + x]
    }

    /// Stores `s` in the cell at row `y`, column `x`.
    pub fn set(&mut self, y: usize, x: usize, s: MEStats)
        requires
            old(self).wf(),
            y < old(self).rows,
            x < old(self).cols,
        ensures
            final(self).wf(),
            final(self).cols == old(self).cols,
            final(self).rows == old(self).rows,
            forall|yy: int, xx: int| 0 <= yy < old(self).rows && 0 <= xx < old(self).cols
                ==> #[trigger] final(self).at(yy, xx) == if yy == y && xx == x { s } else { old(self).at(yy, xx) },
    {
        proof {
            assert(y * self.cols + x < self.cols * self.rows) by (nonlinear_arith)
                requires y < self.rows, x < self.cols;
            assert(self.cols * self.rows <= MAX_GRID_SIDE * MAX_GRID_SIDE) by (nonlinear_arith)
                requires self.cols <= MAX_GRID_SIDE, self.rows <= MAX_GRID_SIDE;
        }
        let i = y * self.cols + x;
        self.stats.set(i, s);
        proof {
            assert forall|yy: int, xx: int| 0 <= yy < self.rows && 0 <= xx < self.cols
                implies #[trigger] self.at(yy, xx) == if yy == y && xx == x { s } else { old(self).at(yy, xx) } by {
                assert(yy * self.cols + xx < self.cols * self.rows) by (nonlinear_arith)
                    requires 0 <= yy < self.rows, 0 <= xx < self.cols;
                if yy != y {
                    assert(yy * self.cols + xx != y * self.cols + x) by (nonlinear_arith)
                        requires yy != y, 0 <= xx < self.cols, x < self.cols;
                }
            }
        }
    }
}

/// Whether cell `(y, x)` lies in columns `x0..x1` and rows `y0..y1`.
pub open spec fn in_rect(y: int, x: int, x0: int, y0: int, x1: int, y1: int) -> bool {
    x0 <= x < x1 && y0 <= y < y1
}

impl FrameMEStats {
    /// Stores `s` in every cell of columns `x0..x1` and rows `y0..y1`.
    pub fn fill_rect(&mut self, x0: usize, y0: usize, x1: usize, y1: usize, s: MEStats)
        requires
            old(self).wf(),
            x1 <= old(self).cols,
            y1 <= old(self).rows,
        ensures
            final(self).wf(),
            final(self).cols == old(self).cols,
            final(self).rows == old(self).rows,
            forall|y: int, x: int| 0 <= y < old(self).rows && 0 <= x < old(self).cols
                ==> #[trigger] final(self).at(y, x) == if in_rect(y, x, x0 as int, y0 as int, x1 as int, y1 as int) {
                    s
                } else {
                    old(self).at(y, x)
                },
    {
        let ghost start = *self;
        let mut yy = y0;
        while yy < y1
            invariant
                self.wf(),
                self.cols == start.cols,
                self.rows == start.rows,
                x1 <= self.cols,
                y1 <= self.rows,
                y0 <= yy,
                yy <= y1 || yy == y0,
                forall|y: int, x: int| 0 <= y < start.rows && 0 <= x < start.cols
                    ==> #[trigger] self.at(y, x) == if in_rect(y, x, x0 as int, y0 as int, x1 as int, yy as int) {
                        s
                    } else {
                        start.at(y, x)
                    },
            decreases y1 - yy,
        {
            let mut xx = x0;
            while xx < x1
                invariant
                    self.wf(),
                    self.cols == start.cols,
                    self.rows == start.rows,
                    x1 <= self.cols,
                    y0 <= yy < y1,
                    y1 <= self.rows,
                    x0 <= xx,
                    xx <= x1 || xx == x0,
                    forall|y: int, x: int| 0 <= y < start.rows && 0 <= x < start.cols
                        ==> #[trigger] self.at(y, x) == if in_rect(y, x, x0 as int, y0 as int, x1 as int, yy as int)
                            || (y == yy && x0 <= x < xx) {
                            s
                        } else {
                            start.at(y, x)
                        },
                decreases x1 - xx,
            {
                self.set(yy, xx, s);
                xx = xx + 1;
            }
            yy = yy + 1;
        }
    }
}

impl FrameMotionVectors {
    /// Stores `mv` in every cell of columns `x0..x1` and rows `y0..y1`.
    pub fn fill_rect(&mut self, x0: usize, y0: usize, x1: usize, y1: usize, mv: MotionVector)
        requires
            old(self).wf(),
            x1 <= old(self).cols,
            y1 <= old(self).rows,
        ensures
            final(self).wf(),
            final(self).cols == old(self).cols,
            final(self).rows == old(self).rows,
            forall|y: int, x: int| 0 <= y < old(self).rows && 0 <= x < old(self).cols
                ==> #[trigger] final(self).at(y, x) == if in_rect(y, x, x0 as int, y0 as int, x1 as int, y1 as int) {
                    mv
                } else {
                    old(self).at(y, x)
                },
    {
        let ghost start = *self;
        let mut yy = y0;
        while yy < y1
            invariant
                self.wf(),
                self.cols == start.cols,
                self.rows == start.rows,
                x1 <= self.cols,
                y1 <= self.rows,
                y0 <= yy,
                yy <= y1 || yy == y0,
                forall|y: int, x: int| 0 <= y < start.rows && 0 <= x < start.cols
                    ==> #[trigger] self.at(y, x) == if in_rect(y, x, x0 as int, y0 as int, x1 as int, yy as int) {
                        mv
                    } else {
                        start.at(y, x)
                    },
            decreases y1 - yy,
        {
            let mut xx = x0;
            while xx < x1
                invariant
                    self.wf(),
                    self.cols == start.cols,
                    self.rows == start.rows,
                    x1 <= self.cols,
                    y0 <= yy < y1,
                    y1 <= self.rows,
                    x0 <= xx,
                    xx <= x1 || xx == x0,
                    forall|y: int, x: int| 0 <= y < start.rows && 0 <= x < start.cols
                        ==> #[trigger] self.at(y, x) == if in_rect(y, x, x0 as int, y0 as int, x1 as int, yy as int)
                            || (y == yy && x0 <= x < xx) {
                            mv
                        } else {
                            start.at(y, x)
                        },
                decreases x1 - xx,
            {
                self.set(yy, xx, mv);
                xx = xx + 1;
            }
            yy = yy + 1;
        }
    }
}

} // verus!
