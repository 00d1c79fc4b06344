use motion_search::inv_txfm::inv_txfm2d_add_4x4_rs;
use motion_search::tx_ops::TxOperations;
use motion_search::txfm::{TxSize, TxType, Txfm2DFlipCfg, TxfmType};

#[test]
fn inverse_dc_adds_a_flat_residual() {
    let mut input = [0i32; 16];
    input[0] = 64;
    let mut output = vec![100u16; 19];
    inv_txfm2d_add_4x4_rs(&input, &mut output, 5, 8);
    for r in 0..4 {
        for c in 0..4 {
            assert_eq!(output[r * 5 + c], 102);
        }
        if r < 3 {
            assert_eq!(output[r * 5 + 4], 100);
        }
    }
}

#[test]
fn inverse_clamps_to_the_bit_depth() {
    let mut input = [0i32; 16];
    input[0] = 1 << 18;
    let mut output = vec![250u16; 16];
    inv_txfm2d_add_4x4_rs(&input, &mut output, 4, 8);
    assert!(output.iter().all(|&p| p == 255));
    let mut neg = [0i32; 16];
    neg[0] = -(1 << 18);
    let mut out2 = vec![3u16; 16];
    inv_txfm2d_add_4x4_rs(&neg, &mut out2, 4, 10);
    assert!(out2.iter().all(|&p| p == 0));
}

#[test]
fn forward_config_picks_kernels_flips_and_shifts() {
    let cfg = Txfm2DFlipCfg::fwd(TxType::FLIPADST_DCT, TxSize::TX_8X4, 10);
    assert_eq!(cfg.txfm_type_col, TxfmType::ADST4);
    assert_eq!(cfg.txfm_type_row, TxfmType::DCT8);
    assert!(cfg.ud_flip);
    assert!(!cfg.lr_flip);
    assert_eq!(cfg.shift, [2, 0, 1]);
    let big = Txfm2DFlipCfg::fwd(TxType::DCT_DCT, TxSize::TX_64X32, 8);
    assert_eq!(big.txfm_type_col, TxfmType::DCT32);
    assert_eq!(big.txfm_type_row, TxfmType::DCT64);
    assert_eq!(big.shift, [4, -1, -2]);
    assert_eq!(Txfm2DFlipCfg::get_flip_cfg(TxType::FLIPADST_FLIPADST), (true, true));
    assert_eq!(Txfm2DFlipCfg::get_flip_cfg(TxType::H_FLIPADST), (false, true));
    assert_eq!(Txfm2DFlipCfg::fwd(TxType::DCT_DCT, TxSize::TX_8X8, 9).shift, [4, -1, 0]);
    assert_eq!(Txfm2DFlipCfg::fwd(TxType::DCT_DCT, TxSize::TX_8X8, 13).shift, [0, 0, 3]);
    let id = Txfm2DFlipCfg::fwd(TxType::IDTX, TxSize::TX_4X4, 12);
    assert_eq!(id.txfm_type_col, TxfmType::Identity4);
    assert_eq!(id.shift, [0, 0, 3]);
}

#[test]
fn lane_arithmetic_rounds_and_wraps() {
    assert_eq!(<i32 as TxOperations>::zero(), 0);
    assert_eq!(100i32.tx_mul((2896, 12)), 71);
    assert_eq!((-100i32).tx_mul((2896, 12)), -71);
    assert_eq!(TxOperations::rshift1(-3i32), -1);
    assert_eq!(TxOperations::rshift1(3i32), 1);
    assert_eq!(TxOperations::add_avg(3i32, 4), 3);
    assert_eq!(TxOperations::sub_avg(3i32, 4), -1);
    assert_eq!(TxOperations::add(i32::MAX, 1), i32::MIN);
    assert_eq!(TxOperations::sub(i32::MIN, 1), i32::MAX);
    assert_eq!(7i32.copy_fn(), 7);
}
