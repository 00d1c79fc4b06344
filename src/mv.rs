//! Motion vectors in 1/8-pel units and their integer arithmetic.
use vstd::prelude::*;

verus! {

/// Largest multiple of 8 that is not above `v` (floor toward minus infinity).
pub open spec fn fullpel_of(v: int) -> int {
    (v / 8) * 8
}

/// A displacement in 1/8-pel units.
#[derive(Clone, Copy, Debug, PartialEq, Eq, Structural)]
pub struct MotionVector {
    pub row: i16,
    pub col: i16,
}

/// The floor of `v / 8`, with the quotient in `i32`.
pub fn floor_div8(v: i32) -> (r: i32)
    ensures
        r as int == v as int / 8,
{
    if v >= 0 {
        (v as u32 / 8) as i32
    } else {
        let m: u32 = (-(v as i64)) as u32;
        let q: u32 = (m + 7) / 8;
        proof {
            let vi = v as int;
            let qi = q as int;
            assert(8 * qi <= -vi + 7 < 8 * qi + 8);
            assert(8 * (-qi) <= vi < 8 * (-qi) + 8);
            assert(-qi == vi / 8);
        }
        -(q as i32)
    }
}

/// The floor of `v / d`, for a divisor from 1 to 8.
pub fn floor_div_small(v: i32, d: i32) -> (r: i32)
    requires
        1 <= d <= 8,
        v >= -1073741824,
    ensures
        r as int == v as int / d as int,
{
    if v >= 0 {
        (v / d) as i32
    } else {
        let m: i64 = -(v as i64);
        let q: i64 = (m + d as i64 - 1) / d as i64;
        proof {
            let vi = v as int;
            let qi = q as int;
            let di = d as int;
            assert(di * qi <= -vi + di - 1 < di * qi + di) by (nonlinear_arith)
                requires qi == (-vi + di - 1) / di, di >= 1, -vi + di - 1 >= 0;
            assert(di * (-qi) <= vi < di * (-qi) + di) by (nonlinear_arith)
                requires di * qi <= -vi + di - 1 < di * qi + di;
            assert(qi <= 1073741824) by (nonlinear_arith)
                requires di * qi <= -vi + di - 1, di >= 1, -vi <= 1073741824, qi >= 0;
            vstd::arithmetic::div_mod::lemma_fundamental_div_mod_converse(vi, di, -qi, vi - di * (-qi));
        }
        -(q as i32)
    }
}

impl MotionVector {
    /// The zero vector.
    pub fn zero() -> (r: MotionVector)
        ensures
            r.row == 0,
            r.col == 0,
    {
        MotionVector { row: 0, col: 0 }
    }

    pub open spec fn is_zero_spec(self) -> bool {
        self.row == 0 && self.col == 0
    }

    /// Whether both components are zero.
    pub fn is_zero(self) -> (r: bool)
        ensures
            r == self.is_zero_spec(),
    {
        self.row == 0 && self.col == 0
    }

    pub open spec fn quantize_spec(self) -> MotionVector {
        MotionVector { row: fullpel_of(self.row as int) as i16, col: fullpel_of(self.col as int) as i16 }
    }

    /// Clears the sub-pixel bits of both components, rounding toward minus infinity.
    pub fn quantize_to_fullpel(self) -> (r: MotionVector)
        ensures
            r.row as int == fullpel_of(self.row as int),
            r.col as int == fullpel_of(self.col as int),
            r == self.quantize_spec(),
    {
        let row = floor_div8(self.row as i32) * 8;
        let col = floor_div8(self.col as i32) * 8;
        MotionVector { row: row as i16, col: col as i16 }
    }
}

impl Default for MotionVector {
    fn default() -> (r: MotionVector)
        ensures
            r.row == 0,
            r.col == 0,
    {
        MotionVector { row: 0, col: 0 }
    }
}

/// Quantizing a vector that is already on the full-pel grid leaves it unchanged.
pub proof fn lemma_quantize_idempotent(v: MotionVector)
    ensures
        v.quantize_spec().quantize_spec() == v.quantize_spec(),
{
    let r = v.row as int;
    let c = v.col as int;
    assert(fullpel_of(fullpel_of(r)) == fullpel_of(r)) by {
        assert((r / 8) * 8 / 8 == r / 8) by (nonlinear_arith);
    };
    assert(fullpel_of(fullpel_of(c)) == fullpel_of(c)) by {
        assert((c / 8) * 8 / 8 == c / 8) by (nonlinear_arith);
    };
}

} // verus!
