//! An owned, dense 2-D array stored row by row in one `Vec`.
use vstd::prelude::*;
use crate::slice2d::{Slice2D, Slice2DRawParts};

verus! {

/// `height` rows of `width` items, row `r` at `r * width`.
pub struct Data2D<T> {
    data: Vec<T>,
    width: usize,
    height: usize,
}

impl<T: Copy> Data2D<T> {
    /// A `width` by `height` array holding `value` everywhere.
    pub fn filled(width: usize, height: usize, value: T) -> (r: Data2D<T>)
        requires
            width * height <= usize::MAX,
        ensures
            r.wf(),
            r.cols_spec() == width,
            r.rows_spec() == height,
            forall|i: int| 0 <= i < width * height ==> #[trigger] r.items()[i] == value,
    {
        let len = width * height;
        let mut data: Vec<T> = Vec::with_capacity(len);
        while data.len() < len
            invariant
                data.len() <= len,
                forall|i: int| 0 <= i < data.len() ==> #[trigger] data@[i] == value,
            decreases len - data.len(),
        {
            data.push(value);
        }
        Data2D { data, width, height }
    }
}

impl<T: Copy + Default> Data2D<T> {
    /// A `width` by `height` array holding `T::default()` everywhere.
    pub fn new(width: usize, height: usize) -> (r: Data2D<T>)
        requires
            width * height <= usize::MAX,
        ensures
            r.wf(),
            r.cols_spec() == width,
            r.rows_spec() == height,
            forall|i: int, j: int| 0 <= i < width * height && 0 <= j < width * height
                ==> #[trigger] r.items()[i] == #[trigger] r.items()[j],
    {
        Self::filled(width, height, T::default())
    }
}

impl<T> Data2D<T> {
    pub closed spec fn items(self) -> Seq<T> {
        self.data@
    }

    pub closed spec fn cols_spec(self) -> nat {
        self.width as nat
    }

    pub closed spec fn rows_spec(self) -> nat {
        self.height as nat
    }

    pub open spec fn wf(self) -> bool {
        self.items().len() == self.cols_spec() * self.rows_spec()
    }

    /// The item at row `r`, column `c`.
    pub open spec fn at(self, r: int, c: int) -> T {
        self.items()[r * self.cols_spec() + c]
    }

    pub fn width(&self) -> (r: usize)
        ensures
            r == self.cols_spec(),
    {
        self.width
    }

    pub fn height(&self) -> (r: usize)
        ensures
            r == self.rows_spec(),
    {
        self.height
    }

    /// Number of items stored.
    pub fn items_len(&self) -> (r: usize)
        ensures
            r == self.items().len(),
    {
        self.data.len()
    }

    /// Same as `width`.
    pub fn cols(&self) -> (r: usize)
        ensures
            r == self.cols_spec(),
    {
        self.width
    }

    /// Same as `height`.
    pub fn rows(&self) -> (r: usize)
        ensures
            r == self.rows_spec(),
    {
        self.height
    }

    fn slice_raw_parts(&self) -> (r: Slice2DRawParts)
        requires
            self.wf(),
        ensures
            r == (Slice2DRawParts { offset: 0, width: self.width, height: self.height, stride: self.width }),
            r.fits(self.items().len()),
    {
        proof {
            if self.height > 0 && self.width > 0 {
                assert((self.height - 1) * self.width + self.width == self.width * self.height)
                    by (nonlinear_arith);
            }
        }
        Slice2DRawParts { offset: 0, width: self.width, height: self.height, stride: self.width }
    }

    /// A read-only 2-D view of the whole array.
    pub fn slice(&self) -> (r: Slice2D<'_, T>)
        requires
            self.wf(),
        ensures
            r.wf(),
            r.view_width() == self.cols_spec(),
            r.view_height() == self.rows_spec(),
            r.parts().offset == 0,
            r.parts().stride == self.cols_spec(),
            r.backing() == self.items(),
    {
        let parts = self.slice_raw_parts();
        Slice2D::from_raw_parts(self.data.as_slice(), parts)
    }

    /// The item at row `r`, column `c`.
    pub fn get(&self, r: usize, c: usize) -> (x: &T)
        requires
            self.wf(),
            r < self.rows_spec(),
            c < self.cols_spec(),
        ensures
            *x == self.at(r as int, c as int),
    {
        let _ = self.data.len();
        proof {
            assert(r * self.width + c < self.width * self.height) by (nonlinear_arith)
                requires r < self.height, c < self.width;
        }
        &self.data[r * self.width + c]
    }

    /// Stores `value` at row `r`, column `c`.
    pub fn set(&mut self, r: usize, c: usize, value: T)
        requires
            old(self).wf(),
            r < old(self).rows_spec(),
            c < old(self).cols_spec(),
        ensures
            final(self).wf(),
            final(self).cols_spec() == old(self).cols_spec(),
            final(self).rows_spec() == old(self).rows_spec(),
            final(self).items() == old(self).items().update(r * old(self).cols_spec() + c, value),
    {
        let _ = self.data.len();
        proof {
            assert(r * self.width + c < self.width * self.height) by (nonlinear_arith)
                requires r < self.height, c < self.width;
        }
        let i = r * self.width + c;
        self.data.set(i, value);
    }
}

} // verus!
