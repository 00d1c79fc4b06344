//! Lane arithmetic of the forward transform kernels.
use vstd::prelude::*;

verus! {

/// The operations that the 1-D transform kernels apply to a lane type, with
/// the wrapping semantics of 32-bit vector lanes.
pub trait TxOperations: Copy {
    fn zero() -> Self;

    /// `self * mul.0`, plus half of `2^mul.1`, shifted right by `mul.1`.
    fn tx_mul(self, mul: (i32, i32)) -> Self;

    /// `self` halved, rounding toward zero.
    fn rshift1(self) -> Self;

    fn add(self, b: Self) -> Self;

    fn sub(self, b: Self) -> Self;

    /// `(self + b) >> 1`.
    fn add_avg(self, b: Self) -> Self;

    /// `(self - b) >> 1`.
    fn sub_avg(self, b: Self) -> Self;

    fn copy_fn(self) -> Self {
        self
    }
}

impl TxOperations for i32 {
    fn zero() -> (r: i32)
        ensures
            r == 0,
    {
        0
    }

    fn tx_mul(self, mul: (i32, i32)) -> (r: i32)
        ensures
            r == self.wrapping_mul(mul.0).wrapping_add(1i32.wrapping_shl(mul.1 as u32) >> 1i32)
                .wrapping_shr(mul.1 as u32),
    {
        self.wrapping_mul(mul.0).wrapping_add(1i32.wrapping_shl(mul.1 as u32) >> 1i32).wrapping_shr(mul.1 as u32)
    }

    fn rshift1(self) -> (r: i32)
        ensures
            r == (self + if self < 0 { 1i32 } else { 0i32 }) as i32 >> 1i32,
    {
        (self + if self < 0 { 1i32 } else { 0i32 }) >> 1i32
    }

    fn add(self, b: i32) -> (r: i32)
        ensures
            r == self.wrapping_add(b),
    {
        self.wrapping_add(b)
    }

    fn sub(self, b: i32) -> (r: i32)
        ensures
            r == self.wrapping_sub(b),
    {
        self.wrapping_sub(b)
    }

    fn add_avg(self, b: i32) -> (r: i32)
        ensures
            r == self.wrapping_add(b) >> 1i32,
    {
        self.wrapping_add(b) >> 1i32
    }

    fn sub_avg(self, b: i32) -> (r: i32)
        ensures
            r == self.wrapping_sub(b) >> 1i32,
    {
        self.wrapping_sub(b) >> 1i32
    }
}

} // verus!
