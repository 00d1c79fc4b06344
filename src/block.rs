//! Block sizes and block positions on the grid of 4x4 pixel units.
use vstd::prelude::*;

verus! {

/// Log2 of the largest block side, in grid units.
pub const MAX_MIB_SIZE_LOG2: usize = 5;

/// `2^k`.
pub open spec fn pow2_spec(k: nat) -> nat
    decreases k,
{
    if k == 0 { 1 } else { 2 * pow2_spec((k - 1) as nat) }
}

/// `2^k` for `k` up to 7.
pub fn pow2_small(k: usize) -> (r: usize)
    requires
        k <= 7,
    ensures
        r == pow2_spec(k as nat),
        1 <= r <= 128,
        k <= 5 ==> r <= 32,
        k >= 2 ==> r >= 4,
{
    reveal_with_fuel(pow2_spec, 8);
    if k == 0 { 1 } else if k == 1 { 2 } else if k == 2 { 4 } else if k == 3 { 8 }
    else if k == 4 { 16 } else if k == 5 { 32 } else if k == 6 { 64 } else { 128 }
}

/// A block of `2^width_log2` by `2^height_log2` pixels, from 4 to 128 on each side.
#[derive(Clone, Copy, Debug, PartialEq, Eq, Structural)]
pub struct BlockSize {
    pub width_log2: usize,
    pub height_log2: usize,
}

impl BlockSize {
    pub open spec fn wf(self) -> bool {
        2 <= self.width_log2 <= 7 && 2 <= self.height_log2 <= 7
    }

    pub open spec fn w(self) -> nat {
        pow2_spec(self.width_log2 as nat)
    }

    pub open spec fn h(self) -> nat {
        pow2_spec(self.height_log2 as nat)
    }

    pub open spec fn w_mi(self) -> nat {
        pow2_spec((self.width_log2 - 2) as nat)
    }

    pub open spec fn h_mi(self) -> nat {
        pow2_spec((self.height_log2 - 2) as nat)
    }

    /// Width in pixels.
    pub fn width(&self) -> (r: usize)
        requires
            self.wf(),
        ensures
            r == self.w(),
            4 <= r <= 128,
    {
        reveal_with_fuel(pow2_spec, 3);
        pow2_small(self.width_log2)
    }

    /// Height in pixels.
    pub fn height(&self) -> (r: usize)
        requires
            self.wf(),
        ensures
            r == self.h(),
            4 <= r <= 128,
    {
        reveal_with_fuel(pow2_spec, 3);
        pow2_small(self.height_log2)
    }

    /// Width in grid units.
    pub fn width_mi(&self) -> (r: usize)
        requires
            self.wf(),
        ensures
            r == self.w_mi(),
            1 <= r <= 32,
    {
        pow2_small(self.width_log2 - 2)
    }

    /// Height in grid units.
    pub fn height_mi(&self) -> (r: usize)
        requires
            self.wf(),
        ensures
            r == self.h_mi(),
            1 <= r <= 32,
    {
        pow2_small(self.height_log2 - 2)
    }
}

/// A block position on a tile's grid, in grid units.
#[derive(Clone, Copy, Debug, PartialEq, Eq, Structural)]
pub struct TileBlockOffset {
    pub x: usize,
    pub y: usize,
}

} // verus!
