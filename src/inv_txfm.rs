//! The 4x4 inverse DCT, added to a block of reconstructed pixels.
use vstd::prelude::*;
use crate::block::pow2_spec;
use crate::predictors::clamp_int;

verus! {

/// Cosine of 16 pi / 128, in units of 2^-12.
pub const COSPI_16: i32 = 3784;
/// Cosine of 32 pi / 128, in units of 2^-12.
pub const COSPI_32: i32 = 2896;
/// Cosine of 48 pi / 128, in units of 2^-12.
pub const COSPI_48: i32 = 1567;

/// `value / 2^bit`, rounded to nearest with ties toward plus infinity.
pub open spec fn round_shift_spec(value: int, bit: nat) -> int {
    (value + pow2_spec((bit - 1) as nat)) / pow2_spec(bit) as int
}

/// `(w0 * in0 + w1 * in1) / 2^bit`, rounded as `round_shift_spec`.
pub open spec fn half_btf_spec(w0: int, in0: int, w1: int, in1: int, bit: nat) -> int {
    round_shift_spec(w0 * in0 + w1 * in1, bit)
}

/// `value` clamped to a signed `bit`-bit range; unchanged for `bit == 0`.
pub open spec fn clamp_value_spec(value: int, bit: nat) -> int {
    if bit == 0 {
        value
    } else {
        clamp_int(value, -(pow2_spec((bit - 1) as nat) as int), pow2_spec((bit - 1) as nat) - 1)
    }
}

/// The 4-point inverse DCT of `(x0, x1, x2, x3)`, each output clamped to
/// `range` bits.
pub open spec fn idct4_spec(x0: int, x1: int, x2: int, x3: int, range: nat) -> (int, int, int, int) {
    let s0 = half_btf_spec(COSPI_32 as int, x0, COSPI_32 as int, x2, 12);
    let s1 = half_btf_spec(COSPI_32 as int, x0, -COSPI_32, x2, 12);
    let s2 = half_btf_spec(COSPI_48 as int, x1, -COSPI_16, x3, 12);
    let s3 = half_btf_spec(COSPI_16 as int, x1, COSPI_48 as int, x3, 12);
    (clamp_value_spec(s0 + s3, range), clamp_value_spec(s1 + s2, range), clamp_value_spec(s1 - s2, range),
        clamp_value_spec(s0 - s3, range))
}

pub open spec fn sel4(t: (int, int, int, int), i: int) -> int {
    if i == 0 { t.0 } else if i == 1 { t.1 } else if i == 2 { t.2 } else { t.3 }
}

/// The intermediate ranges of the row and column passes at bit depth `bd`.
pub open spec fn ranges_spec(bd: int) -> (nat, nat) {
    if bd == 8 { (16, 16) } else if bd == 10 { (18, 16) } else { (20, 18) }
}

/// Row `r` of the 4x4 coefficients `input` after the row pass.
#[verifier::opaque]
pub open spec fn row_pass(input: Seq<i32>, bd: int, r: int) -> (int, int, int, int) {
    let b = (bd + 8) as nat;
    idct4_spec(clamp_value_spec(input[4 * r] as int, b), clamp_value_spec(input[4 * r + 1] as int, b),
        clamp_value_spec(input[4 * r + 2] as int, b), clamp_value_spec(input[4 * r + 3] as int, b),
        ranges_spec(bd).0)
}

/// Column `c` after both passes.
#[verifier::opaque]
pub open spec fn col_pass(input: Seq<i32>, bd: int, c: int) -> (int, int, int, int) {
    let b = (bd + 8) as nat;
    idct4_spec(clamp_value_spec(sel4(row_pass(input, bd, 0), c), b), clamp_value_spec(sel4(row_pass(input, bd, 1), c), b),
        clamp_value_spec(sel4(row_pass(input, bd, 2), c), b), clamp_value_spec(sel4(row_pass(input, bd, 3), c), b),
        ranges_spec(bd).1)
}

/// The pixel `old` at row `r`, column `c` with the residual added, clamped
/// to `bd` bits.
#[verifier::opaque]
pub open spec fn recon_spec(input: Seq<i32>, bd: int, r: int, c: int, old: u16) -> u16 {
    clamp_int(old as int + round_shift_spec(sel4(col_pass(input, bd, c), r), 4), 0,
        pow2_spec(bd as nat) - 1) as u16
}

fn pow2_i64(k: u32) -> (r: i64)
    requires
        k <= 20,
    ensures
        r == pow2_spec(k as nat),
        1 <= r <= 0x10_0000,
{
    proof {
        reveal_with_fuel(pow2_spec, 21);
        assert(pow2_spec(20) == 0x10_0000);
        assert(pow2_spec(19) == 0x8_0000);
    }
    let mut r: i64 = 1;
    let mut i: u32 = 0;
    while i < k
        invariant
            i <= k <= 20,
            r == pow2_spec(i as nat),
            1 <= r,
            pow2_spec(19) == 0x8_0000,
        decreases k - i,
    {
        proof {
            lemma_pow2_mono(i as nat, 19);
        }
        r = r * 2;
        i = i + 1;
    }
    proof {
        lemma_pow2_mono(k as nat, 20);
    }
    r
}

/// The floor of `v / d`.
fn floor_div_i64(v: i64, d: i64) -> (r: i64)
    requires
        1 <= d <= 0x10_0000,
        -0x1000_0000_0000_0000 <= v <= 0x1000_0000_0000_0000,
    ensures
        r == v as int / d as int,
{
    if v >= 0 {
        v / d
    } else {
        let q: i64 = (-v + d - 1) / d;
        proof {
            let vi = v as int;
            let qi = q as int;
            let di = d as int;
            assert(di * qi <= -vi + di - 1 < di * qi + di) by (nonlinear_arith)
                requires qi == (-vi + di - 1) / di, di >= 1, -vi + di - 1 >= 0;
            assert(di * (-qi) <= vi < di * (-qi) + di) by (nonlinear_arith)
                requires di * qi <= -vi + di - 1 < di * qi + di;
            vstd::arithmetic::div_mod::lemma_fundamental_div_mod_converse(vi, di, -qi, vi - di * (-qi));
            assert(qi <= -vi + di) by (nonlinear_arith)
                requires di * qi <= -vi + di - 1, di >= 1, qi >= 0;
        }
        -q
    }
}

fn round_shift(value: i64, bit: u32) -> (r: i64)
    requires
        1 <= bit <= 12,
        -0x10_0000_0000 <= value <= 0x10_0000_0000,
    ensures
        r == round_shift_spec(value as int, bit as nat),
{
    let half = pow2_i64(bit - 1);
    let d = pow2_i64(bit);
    floor_div_i64(value + half, d)
}

fn half_btf(w0: i32, in0: i32, w1: i32, in1: i32, bit: u32) -> (r: i64)
    requires
        -4096 <= w0 <= 4096,
        -4096 <= w1 <= 4096,
        -0x10_0000 <= in0 <= 0x10_0000,
        -0x10_0000 <= in1 <= 0x10_0000,
        bit == 12,
    ensures
        r == half_btf_spec(w0 as int, in0 as int, w1 as int, in1 as int, bit as nat),
        -0x20_0000 <= r <= 0x20_0000,
{
    proof {
        assert(-0x1_0000_0000 <= w0 as int * in0 as int <= 0x1_0000_0000) by (nonlinear_arith)
            requires -4096 <= w0 <= 4096, -0x10_0000 <= in0 <= 0x10_0000;
        assert(-0x1_0000_0000 <= w1 as int * in1 as int <= 0x1_0000_0000) by (nonlinear_arith)
            requires -4096 <= w1 <= 4096, -0x10_0000 <= in1 <= 0x10_0000;
    }
    let result = w0 as i64 * in0 as i64 + w1 as i64 * in1 as i64;
    let r = round_shift(result, bit);
    proof {
        reveal_with_fuel(pow2_spec, 13);
        let v = result as int + 2048;
        vstd::arithmetic::div_mod::lemma_div_is_ordered(v, 0x2_0000_0800, 4096);
        vstd::arithmetic::div_mod::lemma_div_is_ordered(-0x2_0000_0000, v, 4096);
    }
    r
}

fn clamp_value(value: i64, bit: usize) -> (r: i32)
    requires
        1 <= bit <= 21,
    ensures
        r == clamp_value_spec(value as int, bit as nat),
        -0x10_0000 <= r <= 0x10_0000,
{
    let half = pow2_i64((bit - 1) as u32);
    proof {
        assert(pow2_spec(20) == 0x10_0000) by {
            reveal_with_fuel(pow2_spec, 21);
        }
        lemma_pow2_mono((bit - 1) as nat, 20);
    }
    let max_value = half - 1;
    let min_value = -half;
    if value < min_value {
        min_value as i32
    } else if value > max_value {
        max_value as i32
    } else {
        value as i32
    }
}

proof fn lemma_pow2_mono(a: nat, b: nat)
    requires
        a <= b,
    ensures
        pow2_spec(a) <= pow2_spec(b),
    decreases b,
{
    if a < b {
        lemma_pow2_mono(a, (b - 1) as nat);
    }
}

/// The 4-point inverse DCT of `input`, with outputs clamped to `range` bits.
fn av1_idct4(input: [i32; 4], range: usize) -> (r: [i32; 4])
    requires
        1 <= range <= 21,
        forall|i: int| 0 <= i < 4 ==> -0x10_0000 <= #[trigger] input[i] <= 0x10_0000,
    ensures
        forall|i: int| 0 <= i < 4 ==> -0x10_0000 <= #[trigger] r[i] <= 0x10_0000,
        r[0] == idct4_spec(input[0] as int, input[1] as int, input[2] as int, input[3] as int, range as nat).0,
        r[1] == idct4_spec(input[0] as int, input[1] as int, input[2] as int, input[3] as int, range as nat).1,
        r[2] == idct4_spec(input[0] as int, input[1] as int, input[2] as int, input[3] as int, range as nat).2,
        r[3] == idct4_spec(input[0] as int, input[1] as int, input[2] as int, input[3] as int, range as nat).3,
{
    let cos_bit: u32 = 12;
    // stage 1
    let stg1 = [input[0], input[2], input[1], input[3]];
    // stage 2
    let s0 = half_btf(COSPI_32, stg1[0], COSPI_32, stg1[1], cos_bit);
    let s1 = half_btf(COSPI_32, stg1[0], -COSPI_32, stg1[1], cos_bit);
    let s2 = half_btf(COSPI_48, stg1[2], -COSPI_16, stg1[3], cos_bit);
    let s3 = half_btf(COSPI_16, stg1[2], COSPI_48, stg1[3], cos_bit);
    // stage 3
    [clamp_value(s0 + s3, range), clamp_value(s1 + s2, range), clamp_value(s1 - s2, range), clamp_value(s0 - s3, range)]
}

fn get_ranges(bd: usize) -> (r: [usize; 2])
    requires
        bd == 8 || bd == 10 || bd == 12,
    ensures
        r[0] == ranges_spec(bd as int).0,
        r[1] == ranges_spec(bd as int).1,
{
    if bd == 8 { [16, 16] } else if bd == 10 { [18, 16] } else { [20, 18] }
}

/// The pixel at index `i` of a block with rows `stride` apart lies in the
/// top-left 4x4 corner.
pub open spec fn in_corner(i: int, stride: int) -> bool {
    i / stride < 4 && i % stride < 4
}

proof fn lemma_corner_index(r: int, c: int, stride: int)
    requires
        0 <= r < 4,
        0 <= c < 4,
        4 <= stride,
    ensures
        (r * stride + c) / stride == r,
        (r * stride + c) % stride == c,
{
    vstd::arithmetic::div_mod::lemma_fundamental_div_mod_converse(r * stride + c, stride, r, c);
}

/// Column `c` of the row-transformed `buffer`, transformed.
fn column_pass(input: &[i32], buffer: &[i32; 16], c: usize, range: usize, bd: usize) -> (r: [i32; 4])
    requires
        input@.len() >= 16,
        bd == 8 || bd == 10 || bd == 12,
        range == ranges_spec(bd as int).1,
        c < 4,
        forall|rr: int, j: int| 0 <= rr < 4 && 0 <= j < 4 ==> #[trigger] buffer[4 * rr + j]
            == sel4(row_pass(input@, bd as int, rr), j),
    ensures
        forall|i: int| 0 <= i < 4 ==> -0x10_0000 <= #[trigger] r[i] <= 0x10_0000,
        forall|i: int| 0 <= i < 4 ==> #[trigger] r[i] == sel4(col_pass(input@, bd as int, c as int), i),
{
    reveal(col_pass);
    assert(buffer[c as int] == buffer[4 * 0 + c as int]);
    assert(buffer[4 + c as int] == buffer[4 * 1 + c as int]);
    assert(buffer[8 + c as int] == buffer[4 * 2 + c as int]);
    assert(buffer[12 + c as int] == buffer[4 * 3 + c as int]);
    let temp_in = [
        clamp_value(buffer[c] as i64, bd + 8),
        clamp_value(buffer[4 + c] as i64, bd + 8),
        clamp_value(buffer[8 + c] as i64, bd + 8),
        clamp_value(buffer[12 + c] as i64, bd + 8),
    ];
    av1_idct4(temp_in, range)
}

/// The pixel `cur` with the residual `t` of row `r`, column `c` added.
fn recon_px(Ghost(input): Ghost<Seq<i32>>, bd: usize, r: usize, c: usize, cur: u16, t: i32, max_px: i64) -> (px: u16)
    requires
        bd == 8 || bd == 10 || bd == 12,
        max_px == pow2_spec(bd as nat) - 1,
        r < 4,
        c < 4,
        -0x10_0000 <= t <= 0x10_0000,
        t == sel4(col_pass(input, bd as int, c as int), r as int),
    ensures
        px == recon_spec(input, bd as int, r as int, c as int, cur),
{
    reveal(recon_spec);
    proof {
        reveal_with_fuel(pow2_spec, 13);
    }
    let rs = round_shift(t as i64, 4);
    proof {
        vstd::arithmetic::div_mod::lemma_div_is_ordered(t as int + 8, 0x10_0008, 16);
        vstd::arithmetic::div_mod::lemma_div_is_ordered(-0x10_0000, t as int + 8, 16);
    }
    let v = cur as i64 + rs;
    let px = if v < 0 { 0 } else if v > max_px { max_px } else { v };
    px as u16
}

/// Adds the 4x4 inverse DCT of the coefficients `input` (row by row) to the
/// top-left 4x4 pixels of `output`, whose rows are `stride` apart, clamping
/// each pixel to `bd` bits.
pub fn inv_txfm2d_add_4x4_rs(input: &[i32], output: &mut [u16], stride: usize, bd: usize)
    requires
        input@.len() >= 16,
        4 <= stride,
        3 * stride + 4 <= old(output)@.len(),
        bd == 8 || bd == 10 || bd == 12,
    ensures
        final(output)@.len() == old(output)@.len(),
        forall|r: int, c: int| 0 <= r < 4 && 0 <= c < 4 ==> #[trigger] final(output)@[r * stride + c]
            == recon_spec(input@, bd as int, r, c, old(output)@[r * stride + c]),
        forall|i: int| 0 <= i < old(output)@.len() && !in_corner(i, stride as int)
            ==> #[trigger] final(output)@[i] == old(output)@[i],
{
    let ranges = get_ranges(bd);
    let mut buffer: [i32; 16] = [0; 16];
    // perform inv txfm on every row
    let mut r: usize = 0;
    while r < 4
        invariant
            input@.len() >= 16,
            bd == 8 || bd == 10 || bd == 12,
            ranges[0] == ranges_spec(bd as int).0,
            r <= 4,
            forall|rr: int, j: int| 0 <= rr < r && 0 <= j < 4 ==> #[trigger] buffer[4 * rr + j]
                == sel4(row_pass(input@, bd as int, rr), j),
            forall|i: int| 0 <= i < 4 * r ==> -0x10_0000 <= #[trigger] buffer[i] <= 0x10_0000,
        decreases 4 - r,
    {
        let temp_in = [
            clamp_value(input[4 * r] as i64, bd + 8),
            clamp_value(input[4 * r + 1] as i64, bd + 8),
            clamp_value(input[4 * r + 2] as i64, bd + 8),
            clamp_value(input[4 * r + 3] as i64, bd + 8),
        ];
        let row = av1_idct4(temp_in, ranges[0]);
        buffer[4 * r] = row[0];
        buffer[4 * r + 1] = row[1];
        buffer[4 * r + 2] = row[2];
        buffer[4 * r + 3] = row[3];
        proof {
            assert forall|rr: int, j: int| 0 <= rr < r + 1 && 0 <= j < 4 implies #[trigger] buffer[4 * rr + j]
                == sel4(row_pass(input@, bd as int, rr), j) by {
                if rr == r {
                    reveal(row_pass);
                    assert(row[j] == sel4(row_pass(input@, bd as int, rr), j));
                }
            }
        }
        r = r + 1;
    }

    // perform inv txfm on every col
    let ghost old_out = output@;
    let olen = output.len();
    let mut c: usize = 0;
    while c < 4
        invariant
            input@.len() >= 16,
            bd == 8 || bd == 10 || bd == 12,
            ranges[1] == ranges_spec(bd as int).1,
            4 <= stride,
            3 * stride + 4 <= old_out.len(),
            output@.len() == old_out.len(),
            olen == old_out.len(),
            c <= 4,
            forall|rr: int, j: int| 0 <= rr < 4 && 0 <= j < 4 ==> #[trigger] buffer[4 * rr + j]
                == sel4(row_pass(input@, bd as int, rr), j),
            forall|i: int| 0 <= i < 16 ==> -0x10_0000 <= #[trigger] buffer[i] <= 0x10_0000,
            forall|rr: int, cc: int| 0 <= rr < 4 && 0 <= cc < c ==> #[trigger] output@[rr * stride + cc]
                == recon_spec(input@, bd as int, rr, cc, old_out[rr * stride + cc]),
            forall|i: int| 0 <= i < old_out.len() && !(in_corner(i, stride as int) && i % (stride as int) < c)
                ==> #[trigger] output@[i] == old_out[i],
        decreases 4 - c,
    {
        let temp_out = column_pass(input, &buffer, c, ranges[1], bd);
        let max_px = pow2_i64(bd as u32) - 1;
        let mut r: usize = 0;
        while r < 4
            invariant
                input@.len() >= 16,
                bd == 8 || bd == 10 || bd == 12,
                max_px == pow2_spec(bd as nat) - 1,
                4 <= stride,
                3 * stride + 4 <= old_out.len(),
                output@.len() == old_out.len(),
                olen == old_out.len(),
                c < 4,
                r <= 4,
                forall|i: int| 0 <= i < 4 ==> -0x10_0000 <= #[trigger] temp_out[i] <= 0x10_0000,
                forall|i: int| 0 <= i < 4 ==> #[trigger] temp_out[i] == sel4(col_pass(input@, bd as int, c as int), i),
                forall|rr: int, cc: int| 0 <= rr < 4 && 0 <= cc < c ==> #[trigger] output@[rr * stride + cc]
                    == recon_spec(input@, bd as int, rr, cc, old_out[rr * stride + cc]),
                forall|rr: int| 0 <= rr < r ==> #[trigger] output@[rr * stride + c]
                    == recon_spec(input@, bd as int, rr, c as int, old_out[rr * stride + c]),
                forall|i: int| 0 <= i < old_out.len() && !(in_corner(i, stride as int) && (i % (stride as int) < c
                    || (i % (stride as int) == c && i / (stride as int) < r)))
                    ==> #[trigger] output@[i] == old_out[i],
            decreases 4 - r,
        {
            proof {
                assert(r * stride + c <= 3 * stride + 3) by (nonlinear_arith) requires r <= 3, c <= 3;
                lemma_corner_index(r as int, c as int, stride as int);
            }
            let idx = r * stride + c;
            let cur = output[idx];
            proof {
                assert(cur == old_out[idx as int]);
            }
            let px = recon_px(Ghost(input@), bd, r, c, cur, temp_out[r], max_px);
            let ghost prev = output@;
            output[idx] = px;
            proof {
                assert forall|rr: int, cc: int| 0 <= rr < 4 && 0 <= cc < c implies #[trigger] output@[rr * stride + cc]
                    == recon_spec(input@, bd as int, rr, cc, old_out[rr * stride + cc]) by {
                    lemma_corner_index(rr, cc, stride as int);
                    assert(rr * stride + cc <= 3 * stride + 3) by (nonlinear_arith)
                        requires rr <= 3, cc <= 3;
                    assert(rr * stride + cc != idx);
                    assert(prev[rr * stride + cc] == recon_spec(input@, bd as int, rr, cc, old_out[rr * stride + cc]));
                }
                assert forall|rr: int| 0 <= rr < r + 1 implies #[trigger] output@[rr * stride + c]
                    == recon_spec(input@, bd as int, rr, c as int, old_out[rr * stride + c]) by {
                    lemma_corner_index(rr, c as int, stride as int);
                }
            }
            r = r + 1;
        }
        c = c + 1;
    }
}

} // verus!
