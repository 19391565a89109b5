//! Swap one token for another through an external concentrated-liquidity pool,
//! and quote the pool's current price, as a verified on-chain program core.

pub mod address;
pub mod authority;
pub mod error;
pub mod instruction;
pub mod layout;
pub mod pricemath;
pub mod processor;
pub mod token;
pub mod whirlpool;
