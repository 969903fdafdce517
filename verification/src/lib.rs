//! A constant-style automated market maker engine.
//!
//! Accounts deposit paired assets into liquidity pools to mint a pool-share
//! token, redeem share lots back into the underlying pair, and swap one asset
//! for another against pooled liquidity. Every balance, reserve and price is a
//! 128-bit scaled fixed-point quantity, every mutation routes through checked
//! arithmetic, and every operation is an all-or-nothing state transition: on
//! failure the engine restores the state it started from.

pub mod dex;
pub mod errors;
pub mod fixed;
pub mod laws;
pub mod ledger;
pub mod types;
pub mod wide;
