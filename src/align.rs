//! Aligned storage for SIMD-friendly buffers.
use vstd::prelude::*;

verus! {

/// A marker whose zero-length arrays raise a struct's alignment to that of
/// `u128`.
pub struct Align32 {
    _lane: u128,
}

/// `data`, placed at an address aligned for `Align32`.
pub struct Aligned<T> {
    pub _alignment: [Align32; 0],
    pub data: T,
}

impl<T> Aligned<T> {
    /// Wraps `data`.
    pub fn new(data: T) -> (r: Aligned<T>)
        ensures
            r.data == data,
    {
        Aligned { _alignment: [], data }
    }
}

/// A fixed-length buffer of `T`.
pub struct AlignedBoxedSlice<T> {
    data: Vec<T>,
}

impl<T: Copy> AlignedBoxedSlice<T> {
    /// `len` copies of `val`.
    pub fn new(val: T, len: usize) -> (r: AlignedBoxedSlice<T>)
        ensures
            r@.len() == len,
            forall|i: int| 0 <= i < len ==> #[trigger] r@[i] == val,
    {
        let mut data: Vec<T> = Vec::with_capacity(len);
        while data.len() < len
            invariant
                data@.len() <= len,
                forall|i: int| 0 <= i < data@.len() ==> #[trigger] data@[i] == val,
            decreases len - data@.len(),
        {
            data.push(val);
        }
        AlignedBoxedSlice { data }
    }
}

impl<T> View for AlignedBoxedSlice<T> {
    type V = Seq<T>;

    closed spec fn view(&self) -> Seq<T> {
        self.data@
    }
}

impl<T> AlignedBoxedSlice<T> {
    /// The items.
    pub fn as_slice(&self) -> (r: &[T])
        ensures
            r@ == self@,
    {
        self.data.as_slice()
    }

    /// Number of items.
    pub fn len(&self) -> (r: usize)
        ensures
            r == self@.len(),
    {
        self.data.len()
    }
}

} // verus!
