//! Rate-distortion cost: an entropy proxy for signalling a motion vector as
//! a difference from a predictor, combined with a pixel distortion.
use vstd::prelude::*;
use crate::block::pow2_spec;
use crate::mv::MotionVector;

verus! {

/// Number of bits in the binary form of `x` (zero for zero).
pub open spec fn bit_len(x: nat) -> nat
    decreases x,
{
    if x == 0 { 0 } else { 1 + bit_len(x / 2) }
}

pub open spec fn abs_nat(x: int) -> nat {
    if x < 0 { (-x) as nat } else { x as nat }
}

/// Rate of one component of a motion vector difference: twice the bit length
/// of its magnitude, with the lowest precision bit dropped when 1/8-pel
/// precision is not allowed.
pub open spec fn diff_rate(d: int, allow_high_precision_mv: bool) -> nat {
    let m = abs_nat(d);
    2 * bit_len(if allow_high_precision_mv { m } else { m / 2 })
}

/// Rate of signalling `a` as a difference from the predictor `b`.
pub open spec fn mv_delta_rate(a: MotionVector, b: MotionVector, allow_high_precision_mv: bool) -> nat {
    diff_rate(a.row - b.row, allow_high_precision_mv) + diff_rate(a.col - b.col, allow_high_precision_mv)
}

/// Rate of `cand` against the better of two predictors; choosing the second
/// costs one more unit.
pub open spec fn mv_rate_spec(cand: MotionVector, p0: MotionVector, p1: MotionVector, allow_high_precision_mv: bool) -> nat {
    let r0 = mv_delta_rate(cand, p0, allow_high_precision_mv);
    let r1 = mv_delta_rate(cand, p1, allow_high_precision_mv) + 1;
    if r0 <= r1 { r0 } else { r1 }
}

/// The cost `256 * distortion + rate * lambda`.
pub open spec fn rd_cost_spec(distortion: int, rate: int, lambda: int) -> int {
    256 * distortion + rate * lambda
}

proof fn lemma_bit_len_bound(x: nat, k: nat)
    requires
        x < pow2_spec(k),
    ensures
        bit_len(x) <= k,
    decreases k,
{
    if x > 0 {
        assert(k > 0);
        lemma_bit_len_bound(x / 2, (k - 1) as nat);
    }
}

/// No vector difference costs more than 64 units.
pub proof fn lemma_mv_rate_bound(cand: MotionVector, p0: MotionVector, p1: MotionVector, allow_high_precision_mv: bool)
    ensures
        mv_rate_spec(cand, p0, p1, allow_high_precision_mv) <= 64,
{
    reveal_with_fuel(pow2_spec, 17);
    assert(pow2_spec(16) == 65536);
    let a = abs_nat(cand.row - p0.row);
    let b = abs_nat(cand.col - p0.col);
    lemma_bit_len_bound(a, 16);
    lemma_bit_len_bound(b, 16);
    lemma_bit_len_bound(a / 2, 16);
    lemma_bit_len_bound(b / 2, 16);
}

/// The bit length of `x`.
pub fn ilog(x: u32) -> (r: u32)
    requires
        x < 65536,
    ensures
        r == bit_len(x as nat),
        r <= 16,
{
    proof {
        reveal_with_fuel(pow2_spec, 17);
        assert(pow2_spec(16) == 65536);
        lemma_bit_len_bound(x as nat, 16);
    }
    let mut v: u32 = x;
    let mut n: u32 = 0;
    while v > 0
        invariant
            n + bit_len(v as nat) == bit_len(x as nat),
            bit_len(x as nat) <= 16,
        decreases v,
    {
        v = v / 2;
        n = n + 1;
    }
    n
}

fn diff_to_rate(diff: i32, allow_high_precision_mv: bool) -> (r: u32)
    requires
        -65535 <= diff <= 65535,
    ensures
        r == diff_rate(diff as int, allow_high_precision_mv),
        r <= 32,
{
    let m: u32 = if diff < 0 { (-diff) as u32 } else { diff as u32 };
    let d = if allow_high_precision_mv { m } else { m / 2 };
    2 * ilog(d)
}

/// The rate of signalling `a` as a difference from the predictor `b`.
pub fn get_mv_rate(a: MotionVector, b: MotionVector, allow_high_precision_mv: bool) -> (r: u32)
    ensures
        r == mv_delta_rate(a, b, allow_high_precision_mv),
        r <= 64,
{
    diff_to_rate(a.row as i32 - b.row as i32, allow_high_precision_mv)
        + diff_to_rate(a.col as i32 - b.col as i32, allow_high_precision_mv)
}

/// The rate of `cand` against the better of the two predictors in `pmv`.
pub fn mv_rate(cand: MotionVector, pmv: [MotionVector; 2], allow_high_precision_mv: bool) -> (r: u32)
    ensures
        r == mv_rate_spec(cand, pmv[0], pmv[1], allow_high_precision_mv),
        r <= 64,
{
    let rate1 = get_mv_rate(cand, pmv[0], allow_high_precision_mv);
    let rate2 = get_mv_rate(cand, pmv[1], allow_high_precision_mv);
    if rate1 <= rate2 + 1 { rate1 } else { rate2 + 1 }
}

/// The cost `256 * distortion + rate * lambda`.
pub fn rd_cost(distortion: u64, rate: u32, lambda: u32) -> (r: u64)
    requires
        rd_cost_spec(distortion as int, rate as int, lambda as int) <= u64::MAX,
    ensures
        r == rd_cost_spec(distortion as int, rate as int, lambda as int),
{
    proof {
        assert(0 <= rate as int * lambda as int) by (nonlinear_arith);
    }
    256 * distortion + rate as u64 * lambda as u64
}

/// The rate of a difference depends only on its magnitude: it is the same in
/// both directions.
pub proof fn lemma_mv_rate_symmetric(a: MotionVector, b: MotionVector, allow_high_precision_mv: bool)
    ensures
        mv_delta_rate(a, b, allow_high_precision_mv) == mv_delta_rate(b, a, allow_high_precision_mv),
{
    assert(abs_nat(a.row - b.row) == abs_nat(b.row - a.row));
    assert(abs_nat(a.col - b.col) == abs_nat(b.col - a.col));
}

} // verus!
