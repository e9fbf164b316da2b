//! Verified arithmetic and encoding logic of a constant-product (x * y = k)
//! liquidity pool: swap quotes, LP share accounting, integer square roots,
//! field-element words and the layouts of the notes sent to a pool.

pub mod pool_ops;
pub mod pool_laws;
pub mod felt;
pub mod utils;
pub mod common;
pub mod notes;
pub mod storage;
