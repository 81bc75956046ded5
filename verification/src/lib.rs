//! A constant-product liquidity pool: the ledger of one two-asset pool, the
//! integer arithmetic that prices trades and liquidity shares, and the
//! operations that change the ledger all-or-nothing.

pub mod error;
pub mod math;
pub mod state;
pub mod transfer;
pub mod instructions;
