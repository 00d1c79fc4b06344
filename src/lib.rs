//! Motion estimation for a block-based video encoder: distortion metrics,
//! a rate-distortion cost model, predictor gathering, diamond and exhaustive
//! searches, and the multi-resolution orchestration over per-tile statistics.

pub mod align;
pub mod block;
pub mod cost;
pub mod data2d;
pub mod dist;
pub mod inv_txfm;
pub mod me;
pub mod mv;
pub mod mvlist;
pub mod plane;
pub mod predictors;
pub mod search;
pub mod slice2d;
pub mod stats;
pub mod subpel;
pub mod tx_ops;
pub mod txfm;
