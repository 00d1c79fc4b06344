//! Padded pixel planes addressed in frame coordinates.
use vstd::prelude::*;
use crate::data2d::Data2D;
use crate::slice2d::{Slice2D, Slice2DRawParts, View2D};

verus! {

/// Largest number of rows or columns of a plane's storage.
pub const MAX_PLANE_SIDE: usize = 16384;

/// A position in a plane, in pixels; it may lie in the padding, left of or
/// above the visible area.
#[derive(Clone, Copy, Debug, PartialEq, Eq, Structural)]
pub struct PlaneOffset {
    pub x: isize,
    pub y: isize,
}

/// A pixel plane. Pixel `(x, y)` of the frame is stored at row `y + yorigin`,
/// column `x + xorigin` of `data`, so the padding holds negative coordinates.
pub struct Plane {
    pub data: Data2D<u16>,
    pub xorigin: usize,
    pub yorigin: usize,
}

impl Plane {
    pub open spec fn wf(&self) -> bool {
        &&& self.data.wf()
        &&& self.data.cols_spec() <= MAX_PLANE_SIDE
        &&& self.data.rows_spec() <= MAX_PLANE_SIDE
        &&& self.xorigin <= self.data.cols_spec()
        &&& self.yorigin <= self.data.rows_spec()
    }

    /// The `w` by `h` window whose top-left pixel is at `(x, y)` lies in the storage.
    pub open spec fn window_fits(&self, x: int, y: int, w: nat, h: nat) -> bool {
        &&& 0 <= x + self.xorigin
        &&& x + self.xorigin + w <= self.data.cols_spec()
        &&& 0 <= y + self.yorigin
        &&& y + self.yorigin + h <= self.data.rows_spec()
    }

    /// The `w` by `h` window whose top-left pixel is at `(x, y)`.
    pub open spec fn window(&self, x: int, y: int, w: nat, h: nat) -> View2D<u16> {
        View2D {
            items: self.data.items(),
            parts: Slice2DRawParts {
                offset: ((y + self.yorigin) * self.data.cols_spec() + x + self.xorigin) as usize,
                width: w as usize,
                height: h as usize,
                stride: self.data.cols_spec() as usize,
            },
        }
    }

    /// The window of `w` by `h` pixels at `(x, y)`, or `None` where it does
    /// not lie in the storage.
    pub fn region(&self, x: isize, y: isize, w: usize, h: usize) -> (r: Option<Slice2D<'_, u16>>)
        requires
            self.wf(),
            -2 * MAX_PLANE_SIDE <= x <= 2 * MAX_PLANE_SIDE,
            -2 * MAX_PLANE_SIDE <= y <= 2 * MAX_PLANE_SIDE,
            w <= MAX_PLANE_SIDE,
            h <= MAX_PLANE_SIDE,
        ensures
            r.is_some() == self.window_fits(x as int, y as int, w as nat, h as nat),
            r matches Some(s) ==> s.wf() && s@ == self.window(x as int, y as int, w as nat, h as nat),
    {
        let cols = self.data.cols();
        let rows = self.data.rows();
        let x0 = x + self.xorigin as isize;
        let y0 = y + self.yorigin as isize;
        if x0 < 0 || y0 < 0 || x0 + w as isize > cols as isize || y0 + h as isize > rows as isize {
            return None;
        }
        let xs = x0 as usize;
        let ys = y0 as usize;
        proof {
            assert(ys * cols + xs <= MAX_PLANE_SIDE * MAX_PLANE_SIDE + MAX_PLANE_SIDE) by (nonlinear_arith)
                requires ys <= MAX_PLANE_SIDE, xs <= MAX_PLANE_SIDE, cols <= MAX_PLANE_SIDE;
        }
        let offset = ys * cols + xs;
        let parts = Slice2DRawParts { offset, width: w, height: h, stride: cols };
        proof {
            if h > 0 && w > 0 {
                assert(ys * cols + xs + (h - 1) * cols + w <= cols * rows) by (nonlinear_arith)
                    requires ys + h <= rows, xs + w <= cols, h >= 1;
            }
        }
        let s = self.data.slice();
        let data = s.as_ptr();
        assert(data@ =~= self.data.items());
        Some(Slice2D::from_raw_parts(data, parts))
    }
}

} // verus!
