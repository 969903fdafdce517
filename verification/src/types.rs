//! The data model: asset pairs, liquidity pools and per-account share lots.

use vstd::prelude::*;
use crate::fixed::Fixed;

verus! {

/// An unordered pair of asset identifiers. A pair and its swapped form name
/// the same pool: every lookup probes both orientations.
#[derive(Clone, Copy, Debug, PartialEq, Eq, Structural)]
pub struct AssetPair {
    pub asset_x: u32,
    pub asset_y: u32,
}

/// The same pair with its two sides exchanged.
pub open spec fn swapped(p: AssetPair) -> AssetPair {
    AssetPair { asset_x: p.asset_y, asset_y: p.asset_x }
}

/// The reserve state of one pool: balances, the price quoted as y-reserve
/// per x-reserve for the stored orientation, the fee accumulators (reserved,
/// always zero), and the pool-share token with its outstanding supply.
#[derive(Clone, Copy, Debug, PartialEq, Eq, Structural)]
pub struct LiquidityPool {
    pub asset_pair: AssetPair,
    pub asset_x_balance: Fixed,
    pub asset_y_balance: Fixed,
    pub price: Fixed,
    pub asset_x_fee: Fixed,
    pub asset_y_fee: Fixed,
    pub lp_token: u32,
    pub lp_token_balance: Fixed,
}

/// One share lot: a single deposit event, independently redeemable. The
/// recorded deposit balances are informational; the authoritative claim is
/// the lot's share-token balance.
#[derive(Clone, Copy, Debug, PartialEq, Eq, Structural)]
pub struct AccountLiquidityPool {
    pub id: u64,
    pub account_id: u64,
    pub asset_pair: AssetPair,
    pub asset_x_balance: Fixed,
    pub asset_y_balance: Fixed,
    pub lp_token: u32,
    pub lp_token_balance: Fixed,
}

} // verus!
