//! Configuration of the 2-D forward transforms: which 1-D kernels run on
//! columns and rows, which flips apply, and the rounding shifts of each stage.
use vstd::prelude::*;

verus! {

/// The 2-D transform kinds.
#[allow(non_camel_case_types)]
#[derive(Clone, Copy, Debug, PartialEq, Eq, Structural)]
pub enum TxType {
    DCT_DCT,
    ADST_DCT,
    DCT_ADST,
    ADST_ADST,
    FLIPADST_DCT,
    DCT_FLIPADST,
    FLIPADST_FLIPADST,
    ADST_FLIPADST,
    FLIPADST_ADST,
    IDTX,
    V_DCT,
    H_DCT,
    V_ADST,
    H_ADST,
    V_FLIPADST,
    H_FLIPADST,
}

/// The transform block sizes.
#[allow(non_camel_case_types)]
#[derive(Clone, Copy, Debug, PartialEq, Eq, Structural)]
pub enum TxSize {
    TX_4X4,
    TX_8X8,
    TX_16X16,
    TX_32X32,
    TX_64X64,
    TX_4X8,
    TX_8X4,
    TX_8X16,
    TX_16X8,
    TX_16X32,
    TX_32X16,
    TX_32X64,
    TX_64X32,
    TX_4X16,
    TX_16X4,
    TX_8X32,
    TX_32X8,
    TX_16X64,
    TX_64X16,
}

/// The 1-D transform kinds.
#[allow(non_camel_case_types)]
#[derive(Clone, Copy, Debug, PartialEq, Eq, Structural)]
pub enum TxType1D {
    DCT_1D,
    ADST_1D,
    FLIPADST_1D,
    IDTX_1D,
}

/// The 1-D kernels, by kind and length.
#[derive(Clone, Copy, Debug, PartialEq, Eq, Structural)]
pub enum TxfmType {
    DCT4,
    DCT8,
    DCT16,
    DCT32,
    DCT64,
    ADST4,
    ADST8,
    ADST16,
    Identity4,
    Identity8,
    Identity16,
    Identity32,
    Invalid,
}

/// Rounding shifts of the input, after the column pass and after the row pass.
pub type TxfmShift = [i8; 3];

/// Log2 of the width of `s`, less 2.
pub open spec fn width_index_spec(s: TxSize) -> int {
    match s {
        TxSize::TX_4X4 | TxSize::TX_4X8 | TxSize::TX_4X16 => 0,
        TxSize::TX_8X8 | TxSize::TX_8X4 | TxSize::TX_8X16 | TxSize::TX_8X32 => 1,
        TxSize::TX_16X16 | TxSize::TX_16X8 | TxSize::TX_16X32 | TxSize::TX_16X4 | TxSize::TX_16X64 => 2,
        TxSize::TX_32X32 | TxSize::TX_32X16 | TxSize::TX_32X64 | TxSize::TX_32X8 => 3,
        TxSize::TX_64X64 | TxSize::TX_64X32 | TxSize::TX_64X16 => 4,
    }
}

/// Log2 of the height of `s`, less 2.
pub open spec fn height_index_spec(s: TxSize) -> int {
    match s {
        TxSize::TX_4X4 | TxSize::TX_8X4 | TxSize::TX_16X4 => 0,
        TxSize::TX_8X8 | TxSize::TX_4X8 | TxSize::TX_16X8 | TxSize::TX_32X8 => 1,
        TxSize::TX_16X16 | TxSize::TX_8X16 | TxSize::TX_32X16 | TxSize::TX_4X16 | TxSize::TX_64X16 => 2,
        TxSize::TX_32X32 | TxSize::TX_16X32 | TxSize::TX_64X32 | TxSize::TX_8X32 => 3,
        TxSize::TX_64X64 | TxSize::TX_32X64 | TxSize::TX_16X64 => 4,
    }
}

impl TxSize {
    /// Log2 of the width, less 2.
    pub fn width_index(self) -> (r: usize)
        ensures
            r == width_index_spec(self),
    {
        match self {
            TxSize::TX_4X4 | TxSize::TX_4X8 | TxSize::TX_4X16 => 0,
            TxSize::TX_8X8 | TxSize::TX_8X4 | TxSize::TX_8X16 | TxSize::TX_8X32 => 1,
            TxSize::TX_16X16 | TxSize::TX_16X8 | TxSize::TX_16X32 | TxSize::TX_16X4 | TxSize::TX_16X64 => 2,
            TxSize::TX_32X32 | TxSize::TX_32X16 | TxSize::TX_32X64 | TxSize::TX_32X8 => 3,
            TxSize::TX_64X64 | TxSize::TX_64X32 | TxSize::TX_64X16 => 4,
        }
    }

    /// Log2 of the height, less 2.
    pub fn height_index(self) -> (r: usize)
        ensures
            r == height_index_spec(self),
    {
        match self {
            TxSize::TX_4X4 | TxSize::TX_8X4 | TxSize::TX_16X4 => 0,
            TxSize::TX_8X8 | TxSize::TX_4X8 | TxSize::TX_16X8 | TxSize::TX_32X8 => 1,
            TxSize::TX_16X16 | TxSize::TX_8X16 | TxSize::TX_32X16 | TxSize::TX_4X16 | TxSize::TX_64X16 => 2,
            TxSize::TX_32X32 | TxSize::TX_16X32 | TxSize::TX_64X32 | TxSize::TX_8X32 => 3,
            TxSize::TX_64X64 | TxSize::TX_32X64 | TxSize::TX_16X64 => 4,
        }
    }
}

/// The 1-D kind applied to the columns of `t`.
pub open spec fn vtx_spec(t: TxType) -> TxType1D {
    match t {
        TxType::DCT_DCT | TxType::DCT_ADST | TxType::DCT_FLIPADST | TxType::V_DCT => TxType1D::DCT_1D,
        TxType::ADST_DCT | TxType::ADST_ADST | TxType::ADST_FLIPADST | TxType::V_ADST => TxType1D::ADST_1D,
        TxType::FLIPADST_DCT | TxType::FLIPADST_FLIPADST | TxType::FLIPADST_ADST | TxType::V_FLIPADST
            => TxType1D::FLIPADST_1D,
        TxType::IDTX | TxType::H_DCT | TxType::H_ADST | TxType::H_FLIPADST => TxType1D::IDTX_1D,
    }
}

/// The 1-D kind applied to the rows of `t`.
pub open spec fn htx_spec(t: TxType) -> TxType1D {
    match t {
        TxType::DCT_DCT | TxType::ADST_DCT | TxType::FLIPADST_DCT | TxType::H_DCT => TxType1D::DCT_1D,
        TxType::DCT_ADST | TxType::ADST_ADST | TxType::FLIPADST_ADST | TxType::H_ADST => TxType1D::ADST_1D,
        TxType::DCT_FLIPADST | TxType::FLIPADST_FLIPADST | TxType::ADST_FLIPADST | TxType::H_FLIPADST
            => TxType1D::FLIPADST_1D,
        TxType::IDTX | TxType::V_DCT | TxType::V_ADST | TxType::V_FLIPADST => TxType1D::IDTX_1D,
    }
}

fn vtx(t: TxType) -> (r: TxType1D)
    ensures
        r == vtx_spec(t),
{
    match t {
        TxType::DCT_DCT | TxType::DCT_ADST | TxType::DCT_FLIPADST | TxType::V_DCT => TxType1D::DCT_1D,
        TxType::ADST_DCT | TxType::ADST_ADST | TxType::ADST_FLIPADST | TxType::V_ADST => TxType1D::ADST_1D,
        TxType::FLIPADST_DCT | TxType::FLIPADST_FLIPADST | TxType::FLIPADST_ADST | TxType::V_FLIPADST
            => TxType1D::FLIPADST_1D,
        TxType::IDTX | TxType::H_DCT | TxType::H_ADST | TxType::H_FLIPADST => TxType1D::IDTX_1D,
    }
}

fn htx(t: TxType) -> (r: TxType1D)
    ensures
        r == htx_spec(t),
{
    match t {
        TxType::DCT_DCT | TxType::ADST_DCT | TxType::FLIPADST_DCT | TxType::H_DCT => TxType1D::DCT_1D,
        TxType::DCT_ADST | TxType::ADST_ADST | TxType::FLIPADST_ADST | TxType::H_ADST => TxType1D::ADST_1D,
        TxType::DCT_FLIPADST | TxType::FLIPADST_FLIPADST | TxType::ADST_FLIPADST | TxType::H_FLIPADST
            => TxType1D::FLIPADST_1D,
        TxType::IDTX | TxType::V_DCT | TxType::V_ADST | TxType::V_FLIPADST => TxType1D::IDTX_1D,
    }
}

/// The kernel of kind `k` for length `4 << size_idx`; flipped ADST uses the
/// ADST kernel, and long ADST and identity kernels do not exist.
pub open spec fn txfm_type_spec(size_idx: int, k: TxType1D) -> TxfmType {
    match k {
        TxType1D::DCT_1D => if size_idx == 0 {
            TxfmType::DCT4
        } else if size_idx == 1 {
            TxfmType::DCT8
        } else if size_idx == 2 {
            TxfmType::DCT16
        } else if size_idx == 3 {
            TxfmType::DCT32
        } else {
            TxfmType::DCT64
        },
        TxType1D::ADST_1D | TxType1D::FLIPADST_1D => if size_idx == 0 {
            TxfmType::ADST4
        } else if size_idx == 1 {
            TxfmType::ADST8
        } else if size_idx == 2 {
            TxfmType::ADST16
        } else {
            TxfmType::Invalid
        },
        TxType1D::IDTX_1D => if size_idx == 0 {
            TxfmType::Identity4
        } else if size_idx == 1 {
            TxfmType::Identity8
        } else if size_idx == 2 {
            TxfmType::Identity16
        } else if size_idx == 3 {
            TxfmType::Identity32
        } else {
            TxfmType::Invalid
        },
    }
}

impl TxfmType {
    /// The kernel of kind `k` for length `4 << size_idx`.
    pub fn from_kind(size_idx: usize, k: TxType1D) -> (r: TxfmType)
        requires
            size_idx <= 4,
        ensures
            r == txfm_type_spec(size_idx as int, k),
    {
        match k {
            TxType1D::DCT_1D => if size_idx == 0 {
                TxfmType::DCT4
            } else if size_idx == 1 {
                TxfmType::DCT8
            } else if size_idx == 2 {
                TxfmType::DCT16
            } else if size_idx == 3 {
                TxfmType::DCT32
            } else {
                TxfmType::DCT64
            },
            TxType1D::ADST_1D | TxType1D::FLIPADST_1D => if size_idx == 0 {
                TxfmType::ADST4
            } else if size_idx == 1 {
                TxfmType::ADST8
            } else if size_idx == 2 {
                TxfmType::ADST16
            } else {
                TxfmType::Invalid
            },
            TxType1D::IDTX_1D => if size_idx == 0 {
                TxfmType::Identity4
            } else if size_idx == 1 {
                TxfmType::Identity8
            } else if size_idx == 2 {
                TxfmType::Identity16
            } else if size_idx == 3 {
                TxfmType::Identity32
            } else {
                TxfmType::Invalid
            },
        }
    }
}

/// The stage shifts of `s` at bit depth index `bd_idx` (0, 1, 2 for 8, 10, 12 bits).
pub open spec fn fwd_shift_spec(s: TxSize, bd_idx: int) -> TxfmShift {
    match s {
        TxSize::TX_4X4 => if bd_idx == 0 { [3, 0, 0] } else if bd_idx == 1 { [2, 0, 1] } else { [0, 0, 3] },
        TxSize::TX_32X32 | TxSize::TX_16X32 | TxSize::TX_32X16 | TxSize::TX_16X64 | TxSize::TX_64X16 =>
            if bd_idx == 0 { [4, -2i8, 0] } else if bd_idx == 1 { [2, 0, 0] } else { [0, 0, 2] },
        TxSize::TX_64X64 | TxSize::TX_32X64 | TxSize::TX_64X32 =>
            if bd_idx == 0 { [4, -1i8, -2i8] } else if bd_idx == 1 { [2, 0, -1i8] } else { [0, 0, 1] },
        _ => if bd_idx == 0 { [4, -1i8, 0] } else if bd_idx == 1 { [2, 0, 1] } else { [0, 0, 3] },
    }
}

fn fwd_shift(s: TxSize, bd_idx: usize) -> (r: TxfmShift)
    ensures
        r == fwd_shift_spec(s, bd_idx as int),
{
    match s {
        TxSize::TX_4X4 => if bd_idx == 0 { [3, 0, 0] } else if bd_idx == 1 { [2, 0, 1] } else { [0, 0, 3] },
        TxSize::TX_32X32 | TxSize::TX_16X32 | TxSize::TX_32X16 | TxSize::TX_16X64 | TxSize::TX_64X16 =>
            if bd_idx == 0 { [4, -2, 0] } else if bd_idx == 1 { [2, 0, 0] } else { [0, 0, 2] },
        TxSize::TX_64X64 | TxSize::TX_32X64 | TxSize::TX_64X32 =>
            if bd_idx == 0 { [4, -1, -2] } else if bd_idx == 1 { [2, 0, -1] } else { [0, 0, 1] },
        _ => if bd_idx == 0 { [4, -1, 0] } else if bd_idx == 1 { [2, 0, 1] } else { [0, 0, 3] },
    }
}

/// Whether `t` flips its input upside down and left to right.
pub open spec fn flip_spec(t: TxType) -> (bool, bool) {
    (vtx_spec(t) == TxType1D::FLIPADST_1D, htx_spec(t) == TxType1D::FLIPADST_1D)
}

/// The configuration of one forward 2-D transform.
#[derive(Clone, Copy, Debug)]
pub struct Txfm2DFlipCfg {
    pub tx_size: TxSize,
    /// Flip upside down
    pub ud_flip: bool,
    /// Flip left to right
    pub lr_flip: bool,
    pub shift: TxfmShift,
    pub txfm_type_col: TxfmType,
    pub txfm_type_row: TxfmType,
}

impl Txfm2DFlipCfg {
    /// Both 1-D kernels of `tx_type` exist at `tx_size`.
    pub open spec fn supported(tx_type: TxType, tx_size: TxSize) -> bool {
        &&& txfm_type_spec(height_index_spec(tx_size), vtx_spec(tx_type)) != TxfmType::Invalid
        &&& txfm_type_spec(width_index_spec(tx_size), htx_spec(tx_type)) != TxfmType::Invalid
    }

    /// The configuration of the forward transform `tx_type` of size `tx_size`
    /// at bit depth `bd` (8 to 13; the shifts change every two bits).
    pub fn fwd(tx_type: TxType, tx_size: TxSize, bd: usize) -> (r: Txfm2DFlipCfg)
        requires
            8 <= bd <= 13,
            Self::supported(tx_type, tx_size),
        ensures
            r.tx_size == tx_size,
            r.txfm_type_col == txfm_type_spec(height_index_spec(tx_size), vtx_spec(tx_type)),
            r.txfm_type_row == txfm_type_spec(width_index_spec(tx_size), htx_spec(tx_type)),
            (r.ud_flip, r.lr_flip) == flip_spec(tx_type),
            r.shift == fwd_shift_spec(tx_size, (bd as int - 8) / 2),
    {
        let tx_type_1d_col = vtx(tx_type);
        let tx_type_1d_row = htx(tx_type);
        let txw_idx = tx_size.width_index();
        let txh_idx = tx_size.height_index();
        let txfm_type_col = TxfmType::from_kind(txh_idx, tx_type_1d_col);
        let txfm_type_row = TxfmType::from_kind(txw_idx, tx_type_1d_row);
        let (ud_flip, lr_flip) = Self::get_flip_cfg(tx_type);
        Txfm2DFlipCfg {
            tx_size,
            ud_flip,
            lr_flip,
            shift: fwd_shift(tx_size, (bd - 8) / 2),
            txfm_type_col,
            txfm_type_row,
        }
    }

    /// Determine the flip config, returning (ud_flip, lr_flip)
    pub fn get_flip_cfg(tx_type: TxType) -> (r: (bool, bool))
        ensures
            r == flip_spec(tx_type),
    {
        match tx_type {
            TxType::DCT_DCT | TxType::ADST_DCT | TxType::DCT_ADST | TxType::ADST_ADST | TxType::IDTX
            | TxType::V_DCT | TxType::H_DCT | TxType::V_ADST | TxType::H_ADST => (false, false),
            TxType::FLIPADST_DCT | TxType::FLIPADST_ADST | TxType::V_FLIPADST => (true, false),
            TxType::DCT_FLIPADST | TxType::ADST_FLIPADST | TxType::H_FLIPADST => (false, true),
            TxType::FLIPADST_FLIPADST => (true, true),
        }
    }
}

} // verus!
