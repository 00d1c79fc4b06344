//! Distortion between two equally sized pixel windows: the sum of absolute
//! differences, and the sum of absolute 4x4 Walsh-Hadamard coefficients of the
//! difference.
use vstd::prelude::*;
use crate::slice2d::{Slice2D, View2D};

verus! {

/// Largest block side that the distortion functions accept.
pub const MAX_BLOCK_SIDE: usize = 128;

/// Pixel difference at row `r`, column `c`.
pub open spec fn pix_diff(a: View2D<u16>, b: View2D<u16>, r: int, c: int) -> int {
    a.at(r, c) as int - b.at(r, c) as int
}

pub open spec fn abs_int(x: int) -> int {
    if x < 0 { -x } else { x }
}

/// Sum of absolute differences over the first `w` columns of row `r`.
pub open spec fn sad_row(a: View2D<u16>, b: View2D<u16>, r: int, w: nat) -> int
    decreases w,
{
    if w == 0 {
        0
    } else {
        sad_row(a, b, r, (w - 1) as nat) + abs_int(pix_diff(a, b, r, w - 1))
    }
}

/// Sum of absolute differences over the top-left `w` by `h` block.
pub open spec fn sad_spec(a: View2D<u16>, b: View2D<u16>, w: nat, h: nat) -> int
    decreases h,
{
    if h == 0 {
        0
    } else {
        sad_spec(a, b, w, (h - 1) as nat) + sad_row(a, b, h - 1, w)
    }
}

/// Output `u` of the 4-point Walsh-Hadamard transform of `(x0, x1, x2, x3)`.
pub open spec fn wht4(u: int, x0: int, x1: int, x2: int, x3: int) -> int {
    if u == 0 {
        x0 + x1 + x2 + x3
    } else if u == 1 {
        x0 - x1 + x2 - x3
    } else if u == 2 {
        x0 + x1 - x2 - x3
    } else {
        x0 - x1 - x2 + x3
    }
}

/// Output `v` of the transform of row `i` of the 4x4 difference block at `(r0, c0)`.
pub open spec fn row_coef(a: View2D<u16>, b: View2D<u16>, r0: int, c0: int, i: int, v: int) -> int {
    wht4(v, pix_diff(a, b, r0 + i, c0), pix_diff(a, b, r0 + i, c0 + 1),
        pix_diff(a, b, r0 + i, c0 + 2), pix_diff(a, b, r0 + i, c0 + 3))
}

/// Coefficient `(u, v)` of the 2-D transform of the 4x4 difference block at `(r0, c0)`.
pub open spec fn coef(a: View2D<u16>, b: View2D<u16>, r0: int, c0: int, u: int, v: int) -> int {
    wht4(u, row_coef(a, b, r0, c0, 0, v), row_coef(a, b, r0, c0, 1, v),
        row_coef(a, b, r0, c0, 2, v), row_coef(a, b, r0, c0, 3, v))
}

pub open spec fn coef_col_abs(a: View2D<u16>, b: View2D<u16>, r0: int, c0: int, v: int) -> int {
    abs_int(coef(a, b, r0, c0, 0, v)) + abs_int(coef(a, b, r0, c0, 1, v))
        + abs_int(coef(a, b, r0, c0, 2, v)) + abs_int(coef(a, b, r0, c0, 3, v))
}

/// Sum of the absolute transform coefficients of the 4x4 block at `(r0, c0)`.
pub open spec fn block_satd(a: View2D<u16>, b: View2D<u16>, r0: int, c0: int) -> int {
    coef_col_abs(a, b, r0, c0, 0) + coef_col_abs(a, b, r0, c0, 1)
        + coef_col_abs(a, b, r0, c0, 2) + coef_col_abs(a, b, r0, c0, 3)
}

/// Sum of `block_satd` over the first `nbw` 4x4 blocks of block row `br`.
pub open spec fn satd_block_row(a: View2D<u16>, b: View2D<u16>, br: int, nbw: nat) -> int
    decreases nbw,
{
    if nbw == 0 {
        0
    } else {
        satd_block_row(a, b, br, (nbw - 1) as nat) + block_satd(a, b, 4 * br, 4 * (nbw - 1))
    }
}

/// Sum of `block_satd` over the top-left `nbw` by `nbh` grid of 4x4 blocks.
pub open spec fn satd_sum(a: View2D<u16>, b: View2D<u16>, nbw: nat, nbh: nat) -> int
    decreases nbh,
{
    if nbh == 0 {
        0
    } else {
        satd_sum(a, b, nbw, (nbh - 1) as nat) + satd_block_row(a, b, nbh - 1, nbw)
    }
}

/// The SATD of the top-left `w` by `h` block: the coefficient sum, divided by
/// four with rounding to nearest.
pub open spec fn satd_spec(a: View2D<u16>, b: View2D<u16>, w: nat, h: nat) -> int {
    (satd_sum(a, b, w / 4, h / 4) + 2) / 4
}

/// Both windows cover at least `w` columns and `h` rows.
pub open spec fn windows_cover(a: View2D<u16>, b: View2D<u16>, w: nat, h: nat) -> bool {
    &&& a.wf()
    &&& b.wf()
    &&& w <= a.view_width()
    &&& w <= b.view_width()
    &&& h <= a.view_height()
    &&& h <= b.view_height()
}

proof fn lemma_sad_row_bounds(a: View2D<u16>, b: View2D<u16>, r: int, w: nat)
    ensures
        0 <= sad_row(a, b, r, w) <= 65535 * w,
    decreases w,
{
    if w > 0 {
        lemma_sad_row_bounds(a, b, r, (w - 1) as nat);
    }
}

pub proof fn lemma_sad_bounds(a: View2D<u16>, b: View2D<u16>, w: nat, h: nat)
    ensures
        0 <= sad_spec(a, b, w, h) <= 65535 * w * h,
    decreases h,
{
    if h > 0 {
        lemma_sad_bounds(a, b, w, (h - 1) as nat);
        lemma_sad_row_bounds(a, b, h - 1, w);
        assert(65535 * w * (h - 1) + 65535 * w == 65535 * w * h) by (nonlinear_arith);
    }
}

/// The sum of absolute differences of the top-left `w` by `h` blocks of `a` and `b`.
pub fn compute_sad(a: &Slice2D<u16>, b: &Slice2D<u16>, w: usize, h: usize) -> (r: u32)
    requires
        windows_cover(a@, b@, w as nat, h as nat),
        w <= MAX_BLOCK_SIDE,
        h <= MAX_BLOCK_SIDE,
    ensures
        r == sad_spec(a@, b@, w as nat, h as nat),
{
    let mut sum: u32 = 0;
    let mut y: usize = 0;
    while y < h
        invariant
            windows_cover(a@, b@, w as nat, h as nat),
            w <= MAX_BLOCK_SIDE,
            h <= MAX_BLOCK_SIDE,
            y <= h,
            sum == sad_spec(a@, b@, w as nat, y as nat),
        decreases h - y,
    {
        proof {
            lemma_sad_bounds(a@, b@, w as nat, y as nat);
            assert(65535 * w * y <= 65535 * 128 * 127) by (nonlinear_arith)
                requires w <= 128, y <= 127;
        }
        let mut row: u32 = 0;
        let mut x: usize = 0;
        while x < w
            invariant
                windows_cover(a@, b@, w as nat, h as nat),
                w <= MAX_BLOCK_SIDE,
                y < h,
                x <= w,
                row == sad_row(a@, b@, y as int, x as nat),
            decreases w - x,
        {
            proof {
                lemma_sad_row_bounds(a@, b@, y as int, x as nat);
            }
            let pa = *a.get(y, x);
            let pb = *b.get(y, x);
            let d: u32 = if pa >= pb { (pa - pb) as u32 } else { (pb - pa) as u32 };
            row = row + d;
            x = x + 1;
        }
        proof {
            lemma_sad_row_bounds(a@, b@, y as int, w as nat);
        }
        sum = sum + row;
        y = y + 1;
    }
    sum
}

/// The 4-point Walsh-Hadamard transform, in natural order.
fn wht4_exec(x0: i32, x1: i32, x2: i32, x3: i32) -> (r: (i32, i32, i32, i32))
    requires
        -262140 <= x0 <= 262140,
        -262140 <= x1 <= 262140,
        -262140 <= x2 <= 262140,
        -262140 <= x3 <= 262140,
    ensures
        r.0 == wht4(0, x0 as int, x1 as int, x2 as int, x3 as int),
        r.1 == wht4(1, x0 as int, x1 as int, x2 as int, x3 as int),
        r.2 == wht4(2, x0 as int, x1 as int, x2 as int, x3 as int),
        r.3 == wht4(3, x0 as int, x1 as int, x2 as int, x3 as int),
{
    let a0 = x0 + x1;
    let a1 = x0 - x1;
    let a2 = x2 + x3;
    let a3 = x2 - x3;
    (a0 + a2, a1 + a3, a0 - a2, a1 - a3)
}

fn diff_at(a: &Slice2D<u16>, b: &Slice2D<u16>, r: usize, c: usize) -> (d: i32)
    requires
        a.wf(),
        b.wf(),
        r < a.view_height(),
        r < b.view_height(),
        c < a.view_width(),
        c < b.view_width(),
    ensures
        d == pix_diff(a@, b@, r as int, c as int),
        -65535 <= d <= 65535,
{
    *a.get(r, c) as i32 - *b.get(r, c) as i32
}

fn abs_i32(x: i32) -> (r: u64)
    requires
        x > i32::MIN,
    ensures
        r == abs_int(x as int),
{
    if x < 0 { (-x) as u64 } else { x as u64 }
}

/// Row `i` of the 4x4 block at `(r0, c0)`, transformed.
fn row_wht(a: &Slice2D<u16>, b: &Slice2D<u16>, r0: usize, c0: usize, i: usize) -> (t: (i32, i32, i32, i32))
    requires
        a.wf(),
        b.wf(),
        i < 4,
        r0 + 4 <= a.view_height(),
        r0 + 4 <= b.view_height(),
        c0 + 4 <= a.view_width(),
        c0 + 4 <= b.view_width(),
    ensures
        t.0 == row_coef(a@, b@, r0 as int, c0 as int, i as int, 0),
        t.1 == row_coef(a@, b@, r0 as int, c0 as int, i as int, 1),
        t.2 == row_coef(a@, b@, r0 as int, c0 as int, i as int, 2),
        t.3 == row_coef(a@, b@, r0 as int, c0 as int, i as int, 3),
        -262140 <= t.0 <= 262140,
        -262140 <= t.1 <= 262140,
        -262140 <= t.2 <= 262140,
        -262140 <= t.3 <= 262140,
{
    wht4_exec(diff_at(a, b, r0 + i, c0), diff_at(a, b, r0 + i, c0 + 1),
        diff_at(a, b, r0 + i, c0 + 2), diff_at(a, b, r0 + i, c0 + 3))
}

/// Sum of absolute values of the column transform of `(x0, x1, x2, x3)`.
fn col_abs_sum(x0: i32, x1: i32, x2: i32, x3: i32) -> (s: u64)
    requires
        -262140 <= x0 <= 262140,
        -262140 <= x1 <= 262140,
        -262140 <= x2 <= 262140,
        -262140 <= x3 <= 262140,
    ensures
        s == abs_int(wht4(0, x0 as int, x1 as int, x2 as int, x3 as int))
            + abs_int(wht4(1, x0 as int, x1 as int, x2 as int, x3 as int))
            + abs_int(wht4(2, x0 as int, x1 as int, x2 as int, x3 as int))
            + abs_int(wht4(3, x0 as int, x1 as int, x2 as int, x3 as int)),
        s <= 16 * 262140,
{
    let (c0, c1, c2, c3) = wht4_exec(x0, x1, x2, x3);
    abs_i32(c0) + abs_i32(c1) + abs_i32(c2) + abs_i32(c3)
}

/// `block_satd` of the 4x4 block whose top-left pixel is at row `r0`, column `c0`.
fn satd_4x4(a: &Slice2D<u16>, b: &Slice2D<u16>, r0: usize, c0: usize) -> (s: u64)
    requires
        a.wf(),
        b.wf(),
        r0 + 4 <= a.view_height(),
        r0 + 4 <= b.view_height(),
        c0 + 4 <= a.view_width(),
        c0 + 4 <= b.view_width(),
    ensures
        s == block_satd(a@, b@, r0 as int, c0 as int),
        s <= 16 * 16 * 65535,
{
    let t0 = row_wht(a, b, r0, c0, 0);
    let t1 = row_wht(a, b, r0, c0, 1);
    let t2 = row_wht(a, b, r0, c0, 2);
    let t3 = row_wht(a, b, r0, c0, 3);
    let s0 = col_abs_sum(t0.0, t1.0, t2.0, t3.0);
    let s1 = col_abs_sum(t0.1, t1.1, t2.1, t3.1);
    let s2 = col_abs_sum(t0.2, t1.2, t2.2, t3.2);
    let s3 = col_abs_sum(t0.3, t1.3, t2.3, t3.3);
    s0 + s1 + s2 + s3
}

proof fn lemma_satd_row_bounds(a: View2D<u16>, b: View2D<u16>, br: int, nbw: nat)
    requires
        0 <= br,
        a.wf(),
        b.wf(),
        4 * br + 4 <= a.view_height(),
        4 * br + 4 <= b.view_height(),
        4 * nbw <= a.view_width(),
        4 * nbw <= b.view_width(),
    ensures
        0 <= satd_block_row(a, b, br, nbw) <= 16 * 16 * 65535 * nbw,
    decreases nbw,
{
    if nbw > 0 {
        lemma_satd_row_bounds(a, b, br, (nbw - 1) as nat);
        lemma_block_satd_bounds(a, b, 4 * br, 4 * (nbw - 1));
        assert(satd_block_row(a, b, br, nbw) == satd_block_row(a, b, br, (nbw - 1) as nat)
            + block_satd(a, b, 4 * br, 4 * (nbw - 1)));
        assert(16 * 16 * 65535 * ((nbw - 1) as nat) + 16 * 16 * 65535 == 16 * 16 * 65535 * nbw)
            by (nonlinear_arith) requires nbw >= 1;
    }
}

proof fn lemma_block_satd_bounds(a: View2D<u16>, b: View2D<u16>, r0: int, c0: int)
    requires
        a.wf(),
        b.wf(),
        0 <= r0,
        0 <= c0,
        r0 + 4 <= a.view_height(),
        r0 + 4 <= b.view_height(),
        c0 + 4 <= a.view_width(),
        c0 + 4 <= b.view_width(),
    ensures
        0 <= block_satd(a, b, r0, c0) <= 16 * 16 * 65535,
{
    assert forall|i: int, j: int| 0 <= i < 4 && 0 <= j < 4 implies
        -65535 <= #[trigger] pix_diff(a, b, r0 + i, c0 + j) <= 65535 by {
    }
    assert forall|i: int, v: int| 0 <= i < 4 && 0 <= v < 4 implies
        -4 * 65535 <= #[trigger] row_coef(a, b, r0, c0, i, v) <= 4 * 65535 by {
        assert(-65535 <= pix_diff(a, b, r0 + i, c0 + 0) <= 65535);
        assert(-65535 <= pix_diff(a, b, r0 + i, c0 + 1) <= 65535);
        assert(-65535 <= pix_diff(a, b, r0 + i, c0 + 2) <= 65535);
        assert(-65535 <= pix_diff(a, b, r0 + i, c0 + 3) <= 65535);
    }
    assert forall|u: int, v: int| 0 <= u < 4 && 0 <= v < 4 implies
        -16 * 65535 <= #[trigger] coef(a, b, r0, c0, u, v) <= 16 * 65535 by {
        assert(-4 * 65535 <= row_coef(a, b, r0, c0, 0, v) <= 4 * 65535);
        assert(-4 * 65535 <= row_coef(a, b, r0, c0, 1, v) <= 4 * 65535);
        assert(-4 * 65535 <= row_coef(a, b, r0, c0, 2, v) <= 4 * 65535);
        assert(-4 * 65535 <= row_coef(a, b, r0, c0, 3, v) <= 4 * 65535);
    }
    assert forall|v: int| 0 <= v < 4 implies
        0 <= #[trigger] coef_col_abs(a, b, r0, c0, v) <= 4 * 16 * 65535 by {
        assert(-16 * 65535 <= coef(a, b, r0, c0, 0, v) <= 16 * 65535);
        assert(-16 * 65535 <= coef(a, b, r0, c0, 1, v) <= 16 * 65535);
        assert(-16 * 65535 <= coef(a, b, r0, c0, 2, v) <= 16 * 65535);
        assert(-16 * 65535 <= coef(a, b, r0, c0, 3, v) <= 16 * 65535);
    }
    assert(0 <= coef_col_abs(a, b, r0, c0, 0) <= 4 * 16 * 65535);
    assert(0 <= coef_col_abs(a, b, r0, c0, 1) <= 4 * 16 * 65535);
    assert(0 <= coef_col_abs(a, b, r0, c0, 2) <= 4 * 16 * 65535);
    assert(0 <= coef_col_abs(a, b, r0, c0, 3) <= 4 * 16 * 65535);
}

pub proof fn lemma_satd_sum_bounds(a: View2D<u16>, b: View2D<u16>, nbw: nat, nbh: nat)
    requires
        a.wf(),
        b.wf(),
        4 * nbh <= a.view_height(),
        4 * nbh <= b.view_height(),
        4 * nbw <= a.view_width(),
        4 * nbw <= b.view_width(),
    ensures
        0 <= satd_sum(a, b, nbw, nbh) <= 16 * 16 * 65535 * nbw * nbh,
    decreases nbh,
{
    if nbh > 0 {
        lemma_satd_sum_bounds(a, b, nbw, (nbh - 1) as nat);
        lemma_satd_row_bounds(a, b, nbh - 1, nbw);
        assert(16 * 16 * 65535 * nbw * (nbh - 1) + 16 * 16 * 65535 * nbw == 16 * 16 * 65535 * nbw * nbh)
            by (nonlinear_arith);
    }
}

/// The sum of absolute 4x4 Walsh-Hadamard transformed differences of the
/// top-left `w` by `h` blocks of `a` and `b`, divided by four with rounding.
pub fn compute_satd(a: &Slice2D<u16>, b: &Slice2D<u16>, w: usize, h: usize) -> (r: u64)
    requires
        windows_cover(a@, b@, w as nat, h as nat),
        w <= MAX_BLOCK_SIDE,
        h <= MAX_BLOCK_SIDE,
    ensures
        r == satd_spec(a@, b@, w as nat, h as nat),
{
    let nbw = w / 4;
    let nbh = h / 4;
    proof {
        vstd::arithmetic::div_mod::lemma_div_is_ordered(w as int, 128, 4);
        vstd::arithmetic::div_mod::lemma_div_is_ordered(h as int, 128, 4);
    }
    let mut sum: u64 = 0;
    let mut by: usize = 0;
    while by < nbh
        invariant
            windows_cover(a@, b@, w as nat, h as nat),
            w <= MAX_BLOCK_SIDE,
            h <= MAX_BLOCK_SIDE,
            nbw == w / 4,
            nbh == h / 4,
            nbw <= 32,
            nbh <= 32,
            by <= nbh,
            sum == satd_sum(a@, b@, nbw as nat, by as nat),
        decreases nbh - by,
    {
        proof {
            lemma_satd_sum_bounds(a@, b@, nbw as nat, by as nat);
            assert(16 * 16 * 65535 * nbw * by <= 16 * 16 * 65535 * 32 * 32) by (nonlinear_arith)
                requires nbw <= 32, by <= 32;
        }
        let mut row: u64 = 0;
        let mut bx: usize = 0;
        while bx < nbw
            invariant
                windows_cover(a@, b@, w as nat, h as nat),
                w <= MAX_BLOCK_SIDE,
                nbw == w / 4,
                nbh == h / 4,
                nbw <= 32,
                nbh <= 32,
                by < nbh,
                bx <= nbw,
                row == satd_block_row(a@, b@, by as int, bx as nat),
            decreases nbw - bx,
        {
            proof {
                lemma_satd_row_bounds(a@, b@, by as int, bx as nat);
                assert(16 * 16 * 65535 * bx <= 16 * 16 * 65535 * 31) by (nonlinear_arith)
                    requires bx <= 31;
            }
            let s = satd_4x4(a, b, 4 * by, 4 * bx);
            row = row + s;
            bx = bx + 1;
        }
        proof {
            lemma_satd_row_bounds(a@, b@, by as int, nbw as nat);
            assert(16 * 16 * 65535 * nbw <= 16 * 16 * 65535 * 32) by (nonlinear_arith)
                requires nbw <= 32;
            lemma_satd_sum_bounds(a@, b@, nbw as nat, (by + 1) as nat);
            assert(16 * 16 * 65535 * nbw * (by + 1) <= 16 * 16 * 65535 * 32 * 32) by (nonlinear_arith)
                requires nbw <= 32, by + 1 <= 32;
        }
        sum = sum + row;
        by = by + 1;
    }
    proof {
        lemma_satd_sum_bounds(a@, b@, nbw as nat, nbh as nat);
        assert(16 * 16 * 65535 * nbw * nbh <= 16 * 16 * 65535 * 32 * 32) by (nonlinear_arith)
            requires nbw <= 32, nbh <= 32;
    }
    (sum + 2) / 4
}

/// The two windows agree on every pixel of the top-left `w` by `h` block.
pub open spec fn same_pixels(a: View2D<u16>, b: View2D<u16>, w: nat, h: nat) -> bool {
    forall|r: int, c: int| 0 <= r < h && 0 <= c < w ==> #[trigger] a.at(r, c) == b.at(r, c)
}

/// Every pixel of the top-left `w` by `h` block of `a` fits in 8 bits.
pub open spec fn pixels_8bit(a: View2D<u16>, w: nat, h: nat) -> bool {
    forall|r: int, c: int| 0 <= r < h && 0 <= c < w ==> #[trigger] a.at(r, c) <= 255
}

proof fn lemma_sad_row_same(a: View2D<u16>, b: View2D<u16>, r: int, w: nat, ww: nat, h: nat)
    requires
        same_pixels(a, b, ww, h),
        0 <= r < h,
        w <= ww,
    ensures
        sad_row(a, b, r, w) == 0,
    decreases w,
{
    if w > 0 {
        lemma_sad_row_same(a, b, r, (w - 1) as nat, ww, h);
        assert(a.at(r, w - 1) == b.at(r, w - 1));
    }
}

proof fn lemma_sad_same(a: View2D<u16>, b: View2D<u16>, w: nat, h: nat, hh: nat)
    requires
        same_pixels(a, b, w, hh),
        h <= hh,
    ensures
        sad_spec(a, b, w, h) == 0,
    decreases h,
{
    if h > 0 {
        lemma_sad_same(a, b, w, (h - 1) as nat, hh);
        lemma_sad_row_same(a, b, h - 1, w, w, hh);
    }
}

proof fn lemma_satd_row_same(a: View2D<u16>, b: View2D<u16>, br: int, nbw: nat, w: nat, h: nat)
    requires
        same_pixels(a, b, w, h),
        0 <= br,
        4 * br + 4 <= h,
        4 * nbw <= w,
    ensures
        satd_block_row(a, b, br, nbw) == 0,
    decreases nbw,
{
    if nbw > 0 {
        lemma_satd_row_same(a, b, br, (nbw - 1) as nat, w, h);
        let r0 = 4 * br;
        let c0 = 4 * (nbw - 1);
        assert forall|i: int, j: int| 0 <= i < 4 && 0 <= j < 4 implies
            #[trigger] pix_diff(a, b, r0 + i, c0 + j) == 0 by {
            assert(a.at(r0 + i, c0 + j) == b.at(r0 + i, c0 + j));
        }
        assert forall|i: int, v: int| 0 <= i < 4 && 0 <= v < 4 implies
            #[trigger] row_coef(a, b, r0, c0, i, v) == 0 by {
            assert(pix_diff(a, b, r0 + i, c0 + 0) == 0);
            assert(pix_diff(a, b, r0 + i, c0 + 1) == 0);
            assert(pix_diff(a, b, r0 + i, c0 + 2) == 0);
            assert(pix_diff(a, b, r0 + i, c0 + 3) == 0);
        }
        assert forall|v: int| 0 <= v < 4 implies #[trigger] coef_col_abs(a, b, r0, c0, v) == 0 by {
            assert(row_coef(a, b, r0, c0, 0, v) == 0);
            assert(row_coef(a, b, r0, c0, 1, v) == 0);
            assert(row_coef(a, b, r0, c0, 2, v) == 0);
            assert(row_coef(a, b, r0, c0, 3, v) == 0);
        }
        assert(coef_col_abs(a, b, r0, c0, 0) == 0);
        assert(coef_col_abs(a, b, r0, c0, 1) == 0);
        assert(coef_col_abs(a, b, r0, c0, 2) == 0);
        assert(coef_col_abs(a, b, r0, c0, 3) == 0);
    }
}

proof fn lemma_satd_same(a: View2D<u16>, b: View2D<u16>, nbw: nat, nbh: nat, w: nat, h: nat)
    requires
        same_pixels(a, b, w, h),
        4 * nbh <= h,
        4 * nbw <= w,
    ensures
        satd_sum(a, b, nbw, nbh) == 0,
    decreases nbh,
{
    if nbh > 0 {
        lemma_satd_same(a, b, nbw, (nbh - 1) as nat, w, h);
        lemma_satd_row_same(a, b, nbh - 1, nbw, w, h);
    }
}

/// Two windows that agree on every pixel of the block have zero SAD and zero SATD.
pub proof fn lemma_identical_windows_zero(a: View2D<u16>, b: View2D<u16>, w: nat, h: nat)
    requires
        same_pixels(a, b, w, h),
    ensures
        sad_spec(a, b, w, h) == 0,
        satd_spec(a, b, w, h) == 0,
{
    lemma_sad_same(a, b, w, h, h);
    assert(4 * (h / 4) <= h && 4 * (w / 4) <= w) by (nonlinear_arith);
    lemma_satd_same(a, b, w / 4, h / 4, w, h);
}

proof fn lemma_sad_row_8bit(a: View2D<u16>, b: View2D<u16>, r: int, w: nat, ww: nat, h: nat)
    requires
        pixels_8bit(a, ww, h),
        pixels_8bit(b, ww, h),
        0 <= r < h,
        w <= ww,
    ensures
        0 <= sad_row(a, b, r, w) <= 255 * w,
    decreases w,
{
    if w > 0 {
        lemma_sad_row_8bit(a, b, r, (w - 1) as nat, ww, h);
        assert(a.at(r, w - 1) <= 255 && b.at(r, w - 1) <= 255);
    }
}

/// For 8-bit pixels the SAD of a `w` by `h` block lies in `[0, 255 * w * h]`.
pub proof fn lemma_sad_8bit_range(a: View2D<u16>, b: View2D<u16>, w: nat, h: nat)
    requires
        pixels_8bit(a, w, h),
        pixels_8bit(b, w, h),
    ensures
        0 <= sad_spec(a, b, w, h) <= 255 * w * h,
    decreases h,
{
    if h > 0 {
        assert(pixels_8bit(a, w, (h - 1) as nat));
        assert(pixels_8bit(b, w, (h - 1) as nat));
        lemma_sad_8bit_range(a, b, w, (h - 1) as nat);
        lemma_sad_row_8bit(a, b, h - 1, w, w, h);
        assert(255 * w * (h - 1) + 255 * w == 255 * w * h) by (nonlinear_arith);
    }
}

} // verus!
