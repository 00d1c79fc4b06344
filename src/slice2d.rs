//! Two-dimensional views (rows of `width` items, `stride` apart) into a flat slice.
use vstd::prelude::*;

verus! {

/// Where a 2-D view starts in its backing slice, and its shape.
#[derive(Clone, Copy, Debug)]
pub struct Slice2DRawParts {
    /// Index of the first item of the first row in the backing slice.
    pub offset: usize,
    pub width: usize,
    pub height: usize,
    pub stride: usize,
}

impl Slice2DRawParts {
    /// The shape fits in a backing slice of `len` items.
    pub open spec fn fits(self, len: nat) -> bool {
        &&& self.width <= self.stride
        &&& (self.height == 0 || self.width == 0
            || self.offset + (self.height - 1) * self.stride + self.width <= len)
    }

    /// Index in the backing slice of the item at row `r`, column `c`.
    pub open spec fn index_of(self, r: int, c: int) -> int {
        self.offset + r * self.stride + c
    }

    /// Splits into rows `[0, mid)` and `[mid, height)`.
    pub fn horizontal_split(self, mid: usize, Ghost(len): Ghost<nat>) -> (r: (Slice2DRawParts, Slice2DRawParts))
        requires
            mid <= self.height,
            self.fits(len),
            len <= usize::MAX,
        ensures
            r.0 == (Slice2DRawParts { height: mid, ..self }),
            r.1.offset == if mid < self.height && self.width > 0 { self.offset + mid * self.stride } else { self.offset as int },
            r.1.width == self.width,
            r.1.stride == self.stride,
            r.1.height == self.height - mid,
            r.0.fits(len),
            r.1.fits(len),
            forall|i: int, j: int| 0 <= i < self.height - mid && 0 <= j < self.width
                ==> #[trigger] r.1.index_of(i, j) == self.index_of(i + mid, j),
    {
        let mut bottom = self;
        bottom.height = self.height - mid;
        proof {
            if mid > 0 {
                assert((mid - 1) * self.stride <= (self.height - 1) * self.stride) by (nonlinear_arith)
                    requires mid <= self.height;
            }
        }
        if mid < self.height && self.width > 0 {
            proof {
                assert(mid * self.stride <= (self.height - 1) * self.stride) by (nonlinear_arith)
                    requires mid <= self.height - 1;
            }
            bottom.offset = self.offset + mid * self.stride;
            proof {
                assert forall|i: int, j: int| 0 <= i < self.height - mid && 0 <= j < self.width
                    implies #[trigger] bottom.index_of(i, j) == self.index_of(i + mid, j) by {
                    assert((i + mid) * self.stride == i * self.stride + mid * self.stride) by (nonlinear_arith);
                }
                assert((bottom.height - 1) * self.stride + mid * self.stride == (self.height - 1) * self.stride)
                    by (nonlinear_arith) requires bottom.height == self.height - mid, bottom.height >= 1;
            }
        }
        (Slice2DRawParts { height: mid, ..self }, bottom)
    }

    /// Splits into columns `[0, mid)` and `[mid, width)`.
    pub fn vertical_split(self, mid: usize, Ghost(len): Ghost<nat>) -> (r: (Slice2DRawParts, Slice2DRawParts))
        requires
            mid <= self.width,
            self.fits(len),
            len <= usize::MAX,
        ensures
            r.0 == (Slice2DRawParts { width: mid, ..self }),
            r.1.width == self.width - mid,
            r.1.stride == self.stride,
            r.1.height == self.height,
            r.0.fits(len),
            r.1.fits(len),
            forall|i: int, j: int| 0 <= i < self.height && 0 <= j < self.width - mid
                ==> #[trigger] r.1.index_of(i, j) == self.index_of(i, j + mid),
    {
        let mut right = self;
        right.width = self.width - mid;
        if mid < self.width && self.height > 0 {
            right.offset = self.offset + mid;
        }
        (Slice2DRawParts { width: mid, ..self }, right)
    }
}

/// What a 2-D view shows: its backing items and where it lies in them.
pub struct View2D<T> {
    pub items: Seq<T>,
    pub parts: Slice2DRawParts,
}

impl<T> View2D<T> {
    pub open spec fn wf(self) -> bool {
        self.parts.fits(self.items.len())
    }

    pub open spec fn view_width(self) -> nat {
        self.parts.width as nat
    }

    pub open spec fn view_height(self) -> nat {
        self.parts.height as nat
    }

    /// The item at row `r`, column `c`.
    pub open spec fn at(self, r: int, c: int) -> T {
        self.items[self.parts.index_of(r, c)]
    }
}

/// A read-only 2-D view.
pub struct Slice2D<'a, T> {
    data: &'a [T],
    raw_parts: Slice2DRawParts,
}

/// A 2-D view with write access.
pub struct Slice2DMut<'a, T> {
    data: &'a mut [T],
    raw_parts: Slice2DRawParts,
}

impl<'a, T> View for Slice2D<'a, T> {
    type V = View2D<T>;

    open spec fn view(&self) -> View2D<T> {
        View2D { items: self.backing(), parts: self.parts() }
    }
}

impl<'a, T> Slice2D<'a, T> {
    pub closed spec fn backing(self) -> Seq<T> {
        self.data@
    }

    pub closed spec fn parts(self) -> Slice2DRawParts {
        self.raw_parts
    }

    pub open spec fn wf(self) -> bool {
        self.parts().fits(self.backing().len())
    }

    pub open spec fn view_width(self) -> nat {
        self.parts().width as nat
    }

    pub open spec fn view_height(self) -> nat {
        self.parts().height as nat
    }

    /// The item at row `r`, column `c`.
    pub open spec fn at(self, r: int, c: int) -> T {
        self.backing()[self.parts().index_of(r, c)]
    }

    /// A view with no rows and no columns.
    pub fn empty(backing: [T; 0]) -> (r: Slice2D<'a, T>)
        ensures
            r.wf(),
            r.view_width() == 0,
            r.view_height() == 0,
    {
        Slice2D { data: &[], raw_parts: Slice2DRawParts { offset: 0, width: 0, height: 0, stride: 0 } }
    }

    /// A view whose first row starts at the start of `data`.
    pub fn new(data: &'a [T], width: usize, height: usize, stride: usize) -> (r: Slice2D<'a, T>)
        requires
            (Slice2DRawParts { offset: 0, width, height, stride }).fits(data@.len()),
        ensures
            r.wf(),
            r.backing() == data@,
            r.parts() == (Slice2DRawParts { offset: 0, width, height, stride }),
    {
        Slice2D { data, raw_parts: Slice2DRawParts { offset: 0, width, height, stride } }
    }

    /// A view of `data` with the given placement.
    pub fn from_raw_parts(data: &'a [T], raw_parts: Slice2DRawParts) -> (r: Slice2D<'a, T>)
        requires
            raw_parts.fits(data@.len()),
        ensures
            r.wf(),
            r.backing() == data@,
            r.parts() == raw_parts,
    {
        Slice2D { data, raw_parts }
    }

    /// The backing items from the first item of the view on.
    pub fn as_ptr(&self) -> (r: &'a [T])
        requires
            self.wf(),
            self.parts().offset <= self.backing().len(),
        ensures
            r@ == self.backing().subrange(self.parts().offset as int, self.backing().len() as int),
    {
        vstd::slice::slice_subrange(self.data, self.raw_parts.offset, self.data.len())
    }

    pub fn width(&self) -> (r: usize)
        ensures
            r == self.view_width(),
    {
        self.raw_parts.width
    }

    pub fn height(&self) -> (r: usize)
        ensures
            r == self.view_height(),
    {
        self.raw_parts.height
    }

    /// Same as `width`.
    pub fn cols(&self) -> (r: usize)
        ensures
            r == self.view_width(),
    {
        self.raw_parts.width
    }

    /// Same as `height`.
    pub fn rows(&self) -> (r: usize)
        ensures
            r == self.view_height(),
    {
        self.raw_parts.height
    }

    pub fn stride(&self) -> (r: usize)
        ensures
            r == self.parts().stride,
    {
        self.raw_parts.stride
    }

    /// The item at row `r`, column `c`.
    pub fn get(&self, r: usize, c: usize) -> (x: &'a T)
        requires
            self.wf(),
            r < self.view_height(),
            c < self.view_width(),
        ensures
            *x == self.at(r as int, c as int),
    {
        let _ = self.data.len();
        proof {
            let p = self.raw_parts;
            assert(r * p.stride <= (p.height - 1) * p.stride) by (nonlinear_arith)
                requires r <= p.height - 1;
        }
        &self.data[self.raw_parts.offset + r * self.raw_parts.stride + c]
    }

    /// Rows `[0, mid)` and rows `[mid, height)`.
    pub fn horizontal_split(self, mid: usize) -> (r: (Slice2D<'a, T>, Slice2D<'a, T>))
        requires
            self.wf(),
            mid <= self.view_height(),
        ensures
            r.0.wf(),
            r.1.wf(),
            r.0.view_height() == mid,
            r.1.view_height() == self.view_height() - mid,
            r.0.view_width() == self.view_width(),
            r.1.view_width() == self.view_width(),
            forall|i: int, j: int| 0 <= i < mid && 0 <= j < self.view_width()
                ==> #[trigger] r.0.at(i, j) == self.at(i, j),
            forall|i: int, j: int| 0 <= i < self.view_height() - mid && 0 <= j < self.view_width()
                ==> #[trigger] r.1.at(i, j) == self.at(i + mid, j),
    {
        let _ = self.data.len();
        let (top, bottom) = self.raw_parts.horizontal_split(mid, Ghost(self.data@.len()));
        (Slice2D { data: self.data, raw_parts: top }, Slice2D { data: self.data, raw_parts: bottom })
    }

    /// Columns `[0, mid)` and columns `[mid, width)`.
    pub fn vertical_split(self, mid: usize) -> (r: (Slice2D<'a, T>, Slice2D<'a, T>))
        requires
            self.wf(),
            mid <= self.view_width(),
        ensures
            r.0.wf(),
            r.1.wf(),
            r.0.view_width() == mid,
            r.1.view_width() == self.view_width() - mid,
            r.0.view_height() == self.view_height(),
            r.1.view_height() == self.view_height(),
            forall|i: int, j: int| 0 <= i < self.view_height() && 0 <= j < mid
                ==> #[trigger] r.0.at(i, j) == self.at(i, j),
            forall|i: int, j: int| 0 <= i < self.view_height() && 0 <= j < self.view_width() - mid
                ==> #[trigger] r.1.at(i, j) == self.at(i, j + mid),
    {
        let _ = self.data.len();
        let (left, right) = self.raw_parts.vertical_split(mid, Ghost(self.data@.len()));
        (Slice2D { data: self.data, raw_parts: left }, Slice2D { data: self.data, raw_parts: right })
    }

    /// The view of rows `rows.start..rows.end` and columns `cols.start..cols.end`.
    pub fn tmp_subslice(&mut self, index: (std::ops::Range<usize>, std::ops::Range<usize>)) -> (r: Slice2D<'a, T>)
        requires
            old(self).wf(),
            index.0.start <= index.0.end <= old(self).view_height(),
            index.1.start <= index.1.end <= old(self).view_width(),
        ensures
            *final(self) == *old(self),
            r.wf(),
            r.view_height() == index.0.end - index.0.start,
            r.view_width() == index.1.end - index.1.start,
            forall|i: int, j: int| 0 <= i < r.view_height() && 0 <= j < r.view_width()
                ==> #[trigger] r.at(i, j) == old(self).at(i + index.0.start, j + index.1.start),
    {
        let _ = self.data.len();
        let p = self.raw_parts;
        let height = index.0.end - index.0.start;
        let width = index.1.end - index.1.start;
        let mut offset = p.offset;
        if height > 0 && width > 0 {
            proof {
                assert(index.0.start * p.stride + (height - 1) * p.stride == (index.0.end - 1) * p.stride)
                    by (nonlinear_arith) requires height == index.0.end - index.0.start, height >= 1;
                assert((index.0.end - 1) * p.stride <= (p.height - 1) * p.stride) by (nonlinear_arith)
                    requires index.0.end <= p.height, index.0.end >= 1;
            }
            offset = p.offset + index.0.start * p.stride + index.1.start;
        }
        let parts = Slice2DRawParts { offset, width, height, stride: p.stride };
        proof {
            assert forall|i: int, j: int| 0 <= i < height && 0 <= j < width
                implies #[trigger] parts.index_of(i, j) == p.index_of(i + index.0.start, j + index.1.start) by {
                assert((i + index.0.start) * p.stride == i * p.stride + index.0.start * p.stride)
                    by (nonlinear_arith);
            }
        }
        Slice2D { data: self.data, raw_parts: parts }
    }
}

impl<'a, T> Slice2DMut<'a, T> {
    pub closed spec fn backing(self) -> Seq<T> {
        self.data@
    }

    pub closed spec fn parts(self) -> Slice2DRawParts {
        self.raw_parts
    }

    pub open spec fn wf(self) -> bool {
        self.parts().fits(self.backing().len())
    }

    pub open spec fn view_width(self) -> nat {
        self.parts().width as nat
    }

    pub open spec fn view_height(self) -> nat {
        self.parts().height as nat
    }

    /// The item at row `r`, column `c`.
    pub open spec fn at(self, r: int, c: int) -> T {
        self.backing()[self.parts().index_of(r, c)]
    }

    /// A writable view of `data` with the given placement.
    pub fn from_raw_parts(data: &'a mut [T], raw_parts: Slice2DRawParts) -> (r: Slice2DMut<'a, T>)
        requires
            raw_parts.fits(old(data)@.len()),
        ensures
            r.wf(),
            r.backing() == old(data)@,
            r.parts() == raw_parts,
    {
        Slice2DMut { data, raw_parts }
    }

    /// A writable view whose first row starts at the start of `data`.
    pub fn new(data: &'a mut [T], width: usize, height: usize, stride: usize) -> (r: Slice2DMut<'a, T>)
        requires
            (Slice2DRawParts { offset: 0, width, height, stride }).fits(old(data)@.len()),
        ensures
            r.wf(),
            r.backing() == old(data)@,
            r.parts() == (Slice2DRawParts { offset: 0, width, height, stride }),
    {
        Slice2DMut { data, raw_parts: Slice2DRawParts { offset: 0, width, height, stride } }
    }

    /// A view with no rows and no columns.
    pub fn empty(backing: [T; 0]) -> (r: Slice2DMut<'a, T>)
        ensures
            r.wf(),
            r.view_width() == 0,
            r.view_height() == 0,
    {
        Slice2DMut { data: &mut [], raw_parts: Slice2DRawParts { offset: 0, width: 0, height: 0, stride: 0 } }
    }

    /// The backing items from the first item of the view on.
    pub fn as_ptr(&self) -> (r: &[T])
        requires
            self.parts().offset <= self.backing().len(),
        ensures
            r@ == self.backing().subrange(self.parts().offset as int, self.backing().len() as int),
    {
        vstd::slice::slice_subrange(&*self.data, self.raw_parts.offset, self.data.len())
    }

    pub fn width(&self) -> (r: usize)
        ensures
            r == self.view_width(),
    {
        self.raw_parts.width
    }

    pub fn height(&self) -> (r: usize)
        ensures
            r == self.view_height(),
    {
        self.raw_parts.height
    }

    /// Same as `width`.
    pub fn cols(&self) -> (r: usize)
        ensures
            r == self.view_width(),
    {
        self.raw_parts.width
    }

    /// Same as `height`.
    pub fn rows(&self) -> (r: usize)
        ensures
            r == self.view_height(),
    {
        self.raw_parts.height
    }

    pub fn stride(&self) -> (r: usize)
        ensures
            r == self.parts().stride,
    {
        self.raw_parts.stride
    }

    /// A read-only view of the same items.
    pub fn as_const(&self) -> (r: Slice2D<'_, T>)
        requires
            self.wf(),
        ensures
            r.wf(),
            r.backing() == self.backing(),
            r.parts() == self.parts(),
    {
        Slice2D::from_raw_parts(&*self.data, self.raw_parts)
    }

    /// Stores `value` at row `r`, column `c`.
    pub fn set(&mut self, r: usize, c: usize, value: T)
        requires
            old(self).wf(),
            r < old(self).view_height(),
            c < old(self).view_width(),
        ensures
            final(self).parts() == old(self).parts(),
            final(self).backing() == old(self).backing().update(
                old(self).parts().index_of(r as int, c as int), value),
    {
        let _ = self.data.len();
        proof {
            let p = self.raw_parts;
            assert(r * p.stride <= (p.height - 1) * p.stride) by (nonlinear_arith)
                requires r <= p.height - 1;
        }
        let i = self.raw_parts.offset + r * self.raw_parts.stride + c;
        self.data[i] = value;
    }
}

/// The rows of a 2-D view, one by one from the top.
pub struct RowsIter<'a, T> {
    /// The rows not yet handed out.
    slice: Slice2D<'a, T>,
}

impl<'a, T> RowsIter<'a, T> {
    pub closed spec fn rest(self) -> Slice2D<'a, T> {
        self.slice
    }

    /// The rows of `slice`.
    pub fn new(slice: Slice2D<'a, T>) -> (r: RowsIter<'a, T>)
        ensures
            r.rest() == slice,
    {
        RowsIter { slice }
    }

    /// The next row, or `None` after the last.
    pub fn next(&mut self) -> (r: Option<&'a [T]>)
        requires
            old(self).rest().wf(),
        ensures
            final(self).rest().wf(),
            old(self).rest().view_height() == 0 ==> r is None && final(self).rest() == old(self).rest(),
            old(self).rest().view_height() > 0 ==> {
                &&& r is Some
                &&& r->0@.len() == old(self).rest().view_width()
                &&& forall|j: int| 0 <= j < old(self).rest().view_width()
                    ==> #[trigger] r->0@[j] == old(self).rest().at(0, j)
                &&& final(self).rest().view_height() == old(self).rest().view_height() - 1
                &&& final(self).rest().view_width() == old(self).rest().view_width()
                &&& forall|i: int, j: int| 0 <= i < final(self).rest().view_height()
                    && 0 <= j < final(self).rest().view_width()
                    ==> #[trigger] final(self).rest().at(i, j) == old(self).rest().at(i + 1, j)
            },
    {
        if self.slice.raw_parts.height == 0 {
            return None;
        }
        let _ = self.slice.data.len();
        let p = self.slice.raw_parts;
        let row = if p.width == 0 {
            vstd::slice::slice_subrange(self.slice.data, 0, 0)
        } else {
            vstd::slice::slice_subrange(self.slice.data, p.offset, p.offset + p.width)
        };
        proof {
            if p.width > 0 {
                assert forall|j: int| 0 <= j < p.width implies #[trigger] row@[j] == old(self).rest().at(0, j) by {
                    assert(p.index_of(0, j) == p.offset + j);
                }
            }
        }
        let (_, bottom) = p.horizontal_split(1, Ghost(self.slice.data@.len()));
        self.slice = Slice2D { data: self.slice.data, raw_parts: bottom };
        Some(row)
    }

    /// Number of rows not yet handed out.
    pub fn size_hint(&self) -> (r: (usize, Option<usize>))
        ensures
            r.0 == self.rest().view_height(),
            r.1 == Some(self.rest().view_height() as usize),
    {
        (self.slice.raw_parts.height, Some(self.slice.raw_parts.height))
    }
}

impl<'a, T> Slice2D<'a, T> {
    /// The rows of the view, from the top.
    pub fn rows_iter(&self) -> (r: RowsIter<'a, T>)
        ensures
            r.rest() == *self,
    {
        RowsIter::new(Slice2D { data: self.data, raw_parts: self.raw_parts })
    }
}

/// Consecutive groups of `chunk_size` rows of a 2-D view; the last group may be shorter.
pub struct VerticalChunks2D<'a, T> {
    slice: Slice2D<'a, T>,
    chunk_size: usize,
}

/// Consecutive groups of `chunk_size` columns of a 2-D view; the last group may be narrower.
pub struct HorizontalChunks2D<'a, T> {
    slice: Slice2D<'a, T>,
    chunk_size: usize,
}

impl<'a, T> VerticalChunks2D<'a, T> {
    pub closed spec fn rest(self) -> Slice2D<'a, T> {
        self.slice
    }

    pub closed spec fn size(self) -> usize {
        self.chunk_size
    }

    /// Groups of `chunk_size` rows of `slice`.
    pub fn new(slice: Slice2D<'a, T>, chunk_size: usize) -> (r: VerticalChunks2D<'a, T>)
        requires
            chunk_size > 0,
        ensures
            r.rest() == slice,
            r.size() == chunk_size,
    {
        VerticalChunks2D { slice, chunk_size }
    }

    /// The next group of rows, or `None` after the last.
    pub fn next(&mut self) -> (r: Option<Slice2D<'a, T>>)
        requires
            old(self).rest().wf(),
            old(self).size() > 0,
        ensures
            final(self).rest().wf(),
            final(self).size() == old(self).size(),
            old(self).rest().view_height() == 0 <==> r is None,
            r matches Some(head) ==> {
                let n = if old(self).rest().view_height() < old(self).size() {
                    old(self).rest().view_height()
                } else {
                    old(self).size() as nat
                };
                &&& head.wf()
                &&& head.view_height() == n
                &&& head.view_width() == old(self).rest().view_width()
                &&& final(self).rest().view_height() == old(self).rest().view_height() - n
                &&& forall|i: int, j: int| 0 <= i < n && 0 <= j < head.view_width()
                    ==> #[trigger] head.at(i, j) == old(self).rest().at(i, j)
            },
    {
        let height = self.slice.height();
        if height == 0 {
            None
        } else {
            let chunksz = if height < self.chunk_size { height } else { self.chunk_size };
            let tmp = Slice2D { data: self.slice.data, raw_parts: self.slice.raw_parts };
            let (head, tail) = tmp.horizontal_split(chunksz);
            self.slice = tail;
            Some(head)
        }
    }

    /// Number of groups not yet handed out.
    pub fn size_hint(&self) -> (r: (usize, Option<usize>))
        requires
            self.size() > 0,
        ensures
            r.1 == Some(r.0),
            r.0 * self.size() >= self.rest().view_height(),
            r.0 * self.size() < self.rest().view_height() + self.size(),
    {
        let h = self.slice.raw_parts.height;
        let n = h / self.chunk_size;
        let rem = h % self.chunk_size;
        proof {
            if rem > 0 {
                assert(self.chunk_size >= 2);
                vstd::arithmetic::div_mod::lemma_div_is_ordered_by_denominator(h as int, 2, self.chunk_size as int);
            }
        }
        let n = if rem > 0 { n + 1 } else { n };
        proof {
            let c = self.chunk_size as int;
            let hi = h as int;
            let ni = n as int;
            vstd::arithmetic::div_mod::lemma_fundamental_div_mod(hi, c);
            vstd::arithmetic::div_mod::lemma_mod_bound(hi, c);
            assert(ni * c >= hi && ni * c < hi + c) by (nonlinear_arith)
                requires hi == c * (hi / c) + hi % c, 0 <= hi % c < c,
                    ni == if hi % c > 0 { hi / c + 1 } else { hi / c };
        }
        (n, Some(n))
    }
}

impl<'a, T> HorizontalChunks2D<'a, T> {
    pub closed spec fn rest(self) -> Slice2D<'a, T> {
        self.slice
    }

    pub closed spec fn size(self) -> usize {
        self.chunk_size
    }

    /// Groups of `chunk_size` columns of `slice`.
    pub fn new(slice: Slice2D<'a, T>, chunk_size: usize) -> (r: HorizontalChunks2D<'a, T>)
        requires
            chunk_size > 0,
        ensures
            r.rest() == slice,
            r.size() == chunk_size,
    {
        HorizontalChunks2D { slice, chunk_size }
    }

    /// The next group of columns, or `None` after the last.
    pub fn next(&mut self) -> (r: Option<Slice2D<'a, T>>)
        requires
            old(self).rest().wf(),
            old(self).size() > 0,
        ensures
            final(self).rest().wf(),
            final(self).size() == old(self).size(),
            old(self).rest().view_width() == 0 <==> r is None,
            r matches Some(head) ==> {
                let n = if old(self).rest().view_width() < old(self).size() {
                    old(self).rest().view_width()
                } else {
                    old(self).size() as nat
                };
                &&& head.wf()
                &&& head.view_width() == n
                &&& head.view_height() == old(self).rest().view_height()
                &&& final(self).rest().view_width() == old(self).rest().view_width() - n
                &&& forall|i: int, j: int| 0 <= i < head.view_height() && 0 <= j < n
                    ==> #[trigger] head.at(i, j) == old(self).rest().at(i, j)
            },
    {
        let width = self.slice.width();
        if width == 0 {
            None
        } else {
            let chunksz = if width < self.chunk_size { width } else { self.chunk_size };
            let tmp = Slice2D { data: self.slice.data, raw_parts: self.slice.raw_parts };
            let (head, tail) = tmp.vertical_split(chunksz);
            self.slice = tail;
            Some(head)
        }
    }
}

} // verus!
