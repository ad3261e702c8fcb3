//! A constant-product exchange of two-token pools, verified with Verus.
//!
//! A pool holds reserves of two tokens and prices one in the other by
//! their ratio. Liquidity providers deposit both tokens for a claim on the
//! pool and hand the claim back for their share; traders swap one token
//! for the other and leave a fee of 3 per 1000 in the pool. A router sizes
//! deposits, withdrawals and swaps along paths of pools.
//!
//! The library decides and computes; it moves no token and reads no clock.
//! Balances, the time, and what other contracts report come in as plain
//! values, and what is to be done goes out as plain values.

pub mod errors;
pub mod factory;
pub mod helper;
pub mod math;
pub mod pair;
pub mod router;
pub mod transfer_helper;
pub mod types;
