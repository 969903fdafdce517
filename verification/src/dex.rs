//! The engine: pool registry, position ledger and the public operations.
//!
//! A `Dex` bundles the asset ledger, the pool registry and the per-account
//! position lists behind one custodial account. Every public operation is an
//! atomic state transition: its contract states the exact successor state
//! and the exact error for every input, and a failed operation restores the
//! state it started from, mirroring the all-or-nothing unit of work a host
//! platform provides.

use vstd::prelude::*;
use std::collections::HashMap;
use crate::errors::Error;
use crate::fixed::{Fixed, SCALE};
use crate::ledger::{AssetInfo, AssetLedger, balance_key, spec_balance, spec_mint, spec_transfer};
use crate::types::{AccountLiquidityPool, AssetPair, LiquidityPool, swapped};
use crate::wide::{wide_mul, wide_isqrt, sqrt_floor};

verus! {

/// The registry key under which a pool for an oriented pair is stored.
pub open spec fn pair_key(x: u32, y: u32) -> u64 {
    (x * 0x1_0000_0000 + y) as u64
}

/// The key of the position list of one account for one oriented pair.
pub open spec fn position_key(account: u64, pk: u64) -> u128 {
    (account * 0x1_0000_0000_0000_0000 + pk) as u128
}

/// Distinct oriented pairs have distinct registry keys.
pub proof fn lemma_pair_key_injective(x1: u32, y1: u32, x2: u32, y2: u32)
    ensures
        (pair_key(x1, y1) == pair_key(x2, y2)) <==> (x1 == x2 && y1 == y2),
{
    assert(x1 * 0x1_0000_0000 + y1 < 0x10000000000000000int);
    assert(x2 * 0x1_0000_0000 + y2 < 0x10000000000000000int);
}

/// Distinct account-pair combinations have distinct position keys.
pub proof fn lemma_position_key_injective(a1: u64, k1: u64, a2: u64, k2: u64)
    ensures
        (position_key(a1, k1) == position_key(a2, k2)) <==> (a1 == a2 && k1 == k2),
{
    assert(a1 * 0x1_0000_0000_0000_0000 + k1 < 0x100000000000000000000000000000000int);
    assert(a2 * 0x1_0000_0000_0000_0000 + k2 < 0x100000000000000000000000000000000int);
}

/// The registry key a pair lookup resolves to: the pair's own orientation
/// first, then the swapped orientation, so callers never need to know which
/// orientation a pool was created under.
pub open spec fn spec_pool_slot(pools: Map<u64, LiquidityPool>, p: AssetPair) -> Option<u64> {
    if pools.contains_key(pair_key(p.asset_x, p.asset_y)) {
        Some(pair_key(p.asset_x, p.asset_y))
    } else if pools.contains_key(pair_key(p.asset_y, p.asset_x)) {
        Some(pair_key(p.asset_y, p.asset_x))
    } else {
        None
    }
}

/// The pool a pair lookup resolves to, probing both orientations.
pub open spec fn spec_get_pool(pools: Map<u64, LiquidityPool>, p: AssetPair) -> Option<
    LiquidityPool,
> {
    match spec_pool_slot(pools, p) {
        Some(k) => Some(pools[k]),
        None => None,
    }
}

/// The position-list key a lookup resolves to, probing both orientations.
pub open spec fn spec_position_slot(
    positions: Map<u128, Seq<AccountLiquidityPool>>,
    account: u64,
    p: AssetPair,
) -> Option<u128> {
    if positions.contains_key(position_key(account, pair_key(p.asset_x, p.asset_y))) {
        Some(position_key(account, pair_key(p.asset_x, p.asset_y)))
    } else if positions.contains_key(position_key(account, pair_key(p.asset_y, p.asset_x))) {
        Some(position_key(account, pair_key(p.asset_y, p.asset_x)))
    } else {
        None
    }
}

/// The position list a lookup resolves to, probing both orientations.
pub open spec fn spec_get_positions(
    positions: Map<u128, Seq<AccountLiquidityPool>>,
    account: u64,
    p: AssetPair,
) -> Option<Seq<AccountLiquidityPool>> {
    match spec_position_slot(positions, account, p) {
        Some(k) => Some(positions[k]),
        None => None,
    }
}

/// The first lot in a list carrying the given share token and lot id.
pub open spec fn find_lot(l: Seq<AccountLiquidityPool>, lp_token: u32, id: u64) -> Option<
    AccountLiquidityPool,
>
    decreases l.len(),
{
    if l.len() == 0 {
        None
    } else if l[0].lp_token == lp_token && l[0].id == id {
        Some(l[0])
    } else {
        find_lot(l.subrange(1, l.len() as int), lp_token, id)
    }
}

/// The smallest asset identifier at or above `cand` that the ledger does not
/// know yet; `None` when every identifier up to the maximum is taken.
pub open spec fn first_free_asset_from(assets: Map<u32, AssetInfo>, cand: u32) -> Option<u32>
    decreases u32::MAX - cand,
{
    if !assets.contains_key(cand) {
        Some(cand)
    } else if cand == u32::MAX {
        None
    } else {
        first_free_asset_from(assets, (cand + 1) as u32)
    }
}

/// A free identifier reported by the scan is indeed unknown to the ledger.
pub proof fn lemma_first_free_asset_from(assets: Map<u32, AssetInfo>, cand: u32)
    ensures
        match first_free_asset_from(assets, cand) {
            Some(c) => cand <= c && !assets.contains_key(c),
            None => true,
        },
    decreases u32::MAX - cand,
{
    if assets.contains_key(cand) && cand != u32::MAX {
        lemma_first_free_asset_from(assets, (cand + 1) as u32);
    }
}

/// A well-formed position list: bounded capacity, lot ids strictly
/// increasing, and ids starting at one or above.
pub open spec fn lots_wf(l: Seq<AccountLiquidityPool>) -> bool {
    &&& l.len() <= 100
    &&& forall|i: int, j: int|
        #![trigger l[i].id, l[j].id]
        0 <= i < j < l.len() ==> l[i].id < l[j].id
    &&& l.len() > 0 ==> l[0].id >= 1
}

/// What `compute_price` returns: the pair price as y-reserve per x-reserve,
/// as an exact fixed-point quotient rounded down to the inner unit. It fails
/// with `CannotBeZero` exactly when either reserve is zero, and with
/// `ArithmeticOverflow` exactly when the true quotient does not fit.
pub open spec fn spec_compute_price(x: u128, y: u128) -> Result<Fixed, Error> {
    if x == 0 || y == 0 {
        Err(Error::CannotBeZero)
    } else if y * SCALE / (x as int) > u128::MAX {
        Err(Error::ArithmeticOverflow)
    } else {
        Ok(Fixed { inner: (y * SCALE / (x as int)) as u128 })
    }
}

/// What `compute_and_mint_lp_token` does: reuse the pool's share token or
/// allocate the first free identifier, fail with `CannotBeZero` exactly when
/// a deposit side is zero, and otherwise mint the floor of the geometric
/// mean of the two deposits into the custodial account.
pub open spec fn spec_compute_and_mint(s: DexView, p: AssetPair, x: u128, y: u128) -> Result<
    (DexView, u32, u128),
    Error,
> {
    let fresh = spec_get_pool(s.pools, p) is None;
    let lp_opt = match spec_get_pool(s.pools, p) {
        Some(pool) => Some(pool.lp_token),
        None => first_free_asset_from(s.assets, 1),
    };
    match lp_opt {
        None => Err(Error::MintFailed),
        Some(lp) => {
            if x == 0 || y == 0 {
                Err(Error::CannotBeZero)
            } else {
                let share = sqrt_floor(x * y) as u128;
                let assets1 = if fresh {
                    s.assets.insert(
                        lp,
                        AssetInfo { owner: s.custodial, is_sufficient: true, min_balance: 1 },
                    )
                } else {
                    s.assets
                };
                match spec_mint(s.balances, assets1, lp, s.custodial, share) {
                    Ok(m) => Ok((DexView { balances: m, assets: assets1, ..s }, lp, share)),
                    Err(e) => Err(e),
                }
            }
        },
    }
}

/// What `transfer_asset` does: a balance check in the sender's name, then a
/// plain ledger transfer.
pub open spec fn spec_transfer_asset(
    s: DexView,
    who: u64,
    asset: u32,
    asset_balance: u128,
    account_id: u64,
) -> Result<DexView, Error> {
    if spec_balance(s.balances, who, asset) < asset_balance {
        Err(Error::InsufficientBalance { account: who, asset })
    } else {
        match spec_transfer(s.balances, asset, who, account_id, asset_balance) {
            Ok(m) => Ok(DexView { balances: m, ..s }),
            Err(e) => Err(e),
        }
    }
}

/// What `compute_xy_assets` returns: the withdrawal split of the lot that
/// matches the share token and lot id, valued at the pool's current price.
/// The split inverts the geometric-mean mint: the x side is the lot's share
/// balance divided by the square root of the price, the y side the share
/// balance multiplied by it.
pub open spec fn spec_compute_xy(
    s: DexView,
    account_id: u64,
    p: AssetPair,
    lp_token: u32,
    id: u64,
) -> Result<(u128, u128, u128), Error> {
    match spec_get_positions(s.positions, account_id, p) {
        None => Err(Error::PositionNotFound),
        Some(lots) => match find_lot(lots, lp_token, id) {
            None => Err(Error::PositionNotFound),
            Some(lot) => {
                let share = lot.lp_token_balance.inner;
                match spec_get_pool(s.pools, p) {
                    None => Err(Error::CannotBeZero),
                    Some(pool) => {
                        if pool.price.inner == 0 {
                            Err(Error::CannotBeZero)
                        } else {
                            let root = sqrt_floor(pool.price.inner * SCALE);
                            let xa = share * SCALE / root;
                            let ya = share * root / (SCALE as int);
                            if xa > u128::MAX {
                                Err(Error::ArithmeticOverflow)
                            } else if ya > u128::MAX {
                                Err(Error::ArithmeticOverflow)
                            } else {
                                Ok((xa as u128, ya as u128, share))
                            }
                        }
                    },
                }
            },
        },
    }
}

/// The whole engine state as one mathematical value.
#[verifier::ext_equal]
pub struct DexView {
    pub balances: Map<u128, u128>,
    pub assets: Map<u32, AssetInfo>,
    pub pools: Map<u64, LiquidityPool>,
    pub positions: Map<u128, Seq<AccountLiquidityPool>>,
    pub custodial: u64,
}

impl DexView {
    /// The structural invariant every reachable engine state satisfies: a
    /// pool and a position list exist under at most one orientation of a
    /// pair, each pool sits under the key of its own stored pair, and every
    /// position list is well-formed.
    pub open spec fn wf(self) -> bool {
        &&& forall|x: u32, y: u32|
            x != y && #[trigger] self.pools.contains_key(pair_key(x, y))
                ==> !self.pools.contains_key(pair_key(y, x))
        &&& forall|k: u64| #[trigger]
            self.pools.contains_key(k) ==> pair_key(
                self.pools[k].asset_pair.asset_x,
                self.pools[k].asset_pair.asset_y,
            ) == k
        &&& forall|a: u64, x: u32, y: u32|
            x != y && #[trigger] self.positions.contains_key(position_key(a, pair_key(x, y)))
                ==> !self.positions.contains_key(position_key(a, pair_key(y, x)))
        &&& forall|k: u128| #[trigger]
            self.positions.contains_key(k) ==> lots_wf(self.positions[k])
    }
}

/// What the deposit's pool upsert does. An existing pool — found under
/// either orientation — has the deposit added to the matching sides of its
/// reserves, its price recomputed from the updated reserves, and the minted
/// shares added to its outstanding supply; it keeps its stored key and
/// orientation. A first deposit creates the pool under the caller's
/// orientation with the deposit as its reserves.
pub open spec fn spec_deposit_pool_update(
    s: DexView,
    p: AssetPair,
    x: u128,
    y: u128,
    lp: u32,
    share: u128,
) -> Result<DexView, Error> {
    match spec_pool_slot(s.pools, p) {
        Some(k) => {
            let pool = s.pools[k];
            let dx = if pool.asset_pair == p {
                x
            } else {
                y
            };
            let dy = if pool.asset_pair == p {
                y
            } else {
                x
            };
            if pool.asset_x_balance.inner + dx > u128::MAX {
                Err(Error::ArithmeticOverflow)
            } else if pool.asset_y_balance.inner + dy > u128::MAX {
                Err(Error::ArithmeticOverflow)
            } else {
                let nx = (pool.asset_x_balance.inner + dx) as u128;
                let ny = (pool.asset_y_balance.inner + dy) as u128;
                match spec_compute_price(nx, ny) {
                    Err(e) => Err(e),
                    Ok(price) => {
                        if pool.lp_token_balance.inner + share > u128::MAX {
                            Err(Error::ArithmeticOverflow)
                        } else {
                            Ok(
                                DexView {
                                    pools: s.pools.insert(
                                        k,
                                        LiquidityPool {
                                            asset_pair: pool.asset_pair,
                                            asset_x_balance: Fixed { inner: nx },
                                            asset_y_balance: Fixed { inner: ny },
                                            price,
                                            asset_x_fee: pool.asset_x_fee,
                                            asset_y_fee: pool.asset_y_fee,
                                            lp_token: pool.lp_token,
                                            lp_token_balance: Fixed {
                                                inner: (pool.lp_token_balance.inner + share) as u128,
                                            },
                                        },
                                    ),
                                    ..s
                                },
                            )
                        }
                    },
                }
            }
        },
        None => match spec_compute_price(x, y) {
            Err(e) => Err(e),
            Ok(price) => Ok(
                DexView {
                    pools: s.pools.insert(
                        pair_key(p.asset_x, p.asset_y),
                        LiquidityPool {
                            asset_pair: p,
                            asset_x_balance: Fixed { inner: x },
                            asset_y_balance: Fixed { inner: y },
                            price,
                            asset_x_fee: Fixed { inner: 0 },
                            asset_y_fee: Fixed { inner: 0 },
                            lp_token: lp,
                            lp_token_balance: Fixed { inner: share },
                        },
                    ),
                    ..s
                },
            ),
        },
    }
}

/// What the deposit's position append does: a new lot in the account's list
/// for the pair — found under either orientation, created under the
/// caller's orientation — whose id is one past the last id in the list.
/// The id counter must not be exhausted and the list holds at most 100 lots.
pub open spec fn spec_position_append(
    s: DexView,
    who: u64,
    p: AssetPair,
    x: u128,
    y: u128,
    lp: u32,
    share: u128,
) -> Result<DexView, Error> {
    match spec_position_slot(s.positions, who, p) {
        Some(k) => {
            let lots = s.positions[k];
            let last_id = if lots.len() > 0 {
                lots[lots.len() - 1].id
            } else {
                0
            };
            if last_id == u64::MAX {
                Err(Error::SequenceOverflow)
            } else if lots.len() >= 100 {
                Err(Error::CapacityExceeded)
            } else {
                Ok(
                    DexView {
                        positions: s.positions.insert(
                            k,
                            lots.push(
                                AccountLiquidityPool {
                                    id: (last_id + 1) as u64,
                                    account_id: who,
                                    asset_pair: p,
                                    asset_x_balance: Fixed { inner: x },
                                    asset_y_balance: Fixed { inner: y },
                                    lp_token: lp,
                                    lp_token_balance: Fixed { inner: share },
                                },
                            ),
                        ),
                        ..s
                    },
                )
            }
        },
        None => Ok(
            DexView {
                positions: s.positions.insert(
                    position_key(who, pair_key(p.asset_x, p.asset_y)),
                    seq![
                        AccountLiquidityPool {
                            id: 1,
                            account_id: who,
                            asset_pair: p,
                            asset_x_balance: Fixed { inner: x },
                            asset_y_balance: Fixed { inner: y },
                            lp_token: lp,
                            lp_token_balance: Fixed { inner: share },
                        },
                    ],
                ),
                ..s
            },
        ),
    }
}

/// What `new_liquidity` does, end to end: balance checks in the depositor's
/// name, both deposits moved to the custodial account, shares minted and
/// handed to the depositor, the pool upserted, and a lot appended.
pub open spec fn spec_new_liquidity(s: DexView, who: u64, p: AssetPair, x: u128, y: u128) -> Result<
    DexView,
    Error,
> {
    if spec_balance(s.balances, who, p.asset_x) < x {
        Err(Error::InsufficientBalance { account: who, asset: p.asset_x })
    } else if spec_balance(s.balances, who, p.asset_y) < y {
        Err(Error::InsufficientBalance { account: who, asset: p.asset_y })
    } else {
        match spec_transfer(s.balances, p.asset_x, who, s.custodial, x) {
            Err(e) => Err(e),
            Ok(m1) => match spec_transfer(m1, p.asset_y, who, s.custodial, y) {
                Err(e) => Err(e),
                Ok(m2) => match spec_compute_and_mint(DexView { balances: m2, ..s }, p, x, y) {
                    Err(e) => Err(e),
                    Ok((s3, lp, share)) => match spec_transfer(
                        s3.balances,
                        lp,
                        s.custodial,
                        who,
                        share,
                    ) {
                        Err(e) => Err(e),
                        Ok(m4) => match spec_deposit_pool_update(
                            DexView { balances: m4, ..s3 },
                            p,
                            x,
                            y,
                            lp,
                            share,
                        ) {
                            Err(e) => Err(e),
                            Ok(s5) => spec_position_append(s5, who, p, x, y, lp, share),
                        },
                    },
                },
            },
        }
    }
}

/// What `redeem_liquidity` does, end to end: the pool must exist, the
/// withdrawal split is computed for the identified lot, both reserve assets
/// are paid out of the custodial account, reserves and outstanding shares
/// are reduced — except that a failing price recomputation leaves the pool
/// record untouched rather than failing the operation — and the account's
/// entire position list for the pair is removed.
pub open spec fn spec_redeem_liquidity(
    s: DexView,
    who: u64,
    p: AssetPair,
    lp_token: u32,
    id: u64,
) -> Result<DexView, Error> {
    match spec_pool_slot(s.pools, p) {
        None => Err(Error::PoolNotFound),
        Some(k) => {
            let pool = s.pools[k];
            match spec_compute_xy(s, who, p, lp_token, id) {
                Err(e) => Err(e),
                Ok((xa, ya, share)) => {
                    let sx = pool.asset_pair.asset_x;
                    let sy = pool.asset_pair.asset_y;
                    if spec_balance(s.balances, s.custodial, sx) < xa {
                        Err(Error::InsufficientBalance { account: s.custodial, asset: sx })
                    } else if spec_balance(s.balances, s.custodial, sy) < ya {
                        Err(Error::InsufficientBalance { account: s.custodial, asset: sy })
                    } else {
                        match spec_transfer(s.balances, sx, s.custodial, who, xa) {
                            Err(e) => Err(e),
                            Ok(m1) => match spec_transfer(m1, sy, s.custodial, who, ya) {
                                Err(e) => Err(e),
                                Ok(m2) => {
                                    if pool.asset_x_balance.inner < xa {
                                        Err(Error::ArithmeticUnderflow)
                                    } else if pool.asset_y_balance.inner < ya {
                                        Err(Error::ArithmeticUnderflow)
                                    } else {
                                        let nx = (pool.asset_x_balance.inner - xa) as u128;
                                        let ny = (pool.asset_y_balance.inner - ya) as u128;
                                        let kp = spec_position_slot(s.positions, who, p)->Some_0;
                                        match spec_compute_price(nx, ny) {
                                            Err(_) => Ok(
                                                DexView {
                                                    balances: m2,
                                                    positions: s.positions.remove(kp),
                                                    ..s
                                                },
                                            ),
                                            Ok(price) => {
                                                if pool.lp_token_balance.inner < share {
                                                    Err(Error::ArithmeticUnderflow)
                                                } else {
                                                    Ok(
                                                        DexView {
                                                            balances: m2,
                                                            pools: s.pools.insert(
                                                                k,
                                                                LiquidityPool {
                                                                    asset_pair: pool.asset_pair,
                                                                    asset_x_balance: Fixed { inner: nx },
                                                                    asset_y_balance: Fixed { inner: ny },
                                                                    price,
                                                                    asset_x_fee: pool.asset_x_fee,
                                                                    asset_y_fee: pool.asset_y_fee,
                                                                    lp_token: pool.lp_token,
                                                                    lp_token_balance: Fixed {
                                                                        inner: (pool.lp_token_balance.inner
                                                                            - share) as u128,
                                                                    },
                                                                },
                                                            ),
                                                            positions: s.positions.remove(kp),
                                                            ..s
                                                        },
                                                    )
                                                }
                                            },
                                        }
                                    }
                                },
                            },
                        }
                    }
                },
            }
        },
    }
}

/// What both swaps share once price and the two moved amounts are fixed:
/// the reserve on the paid-out side shrinks, the reserve on the paid-in
/// side grows, the price is recomputed from the updated reserves, and the
/// pool keeps its stored key and orientation.
pub open spec fn spec_swap_pool_update(
    s: DexView,
    balances: Map<u128, u128>,
    k: u64,
    in_on_y_side: bool,
    in_amount: u128,
    out_amount: u128,
) -> Result<DexView, Error> {
    let pool = s.pools[k];
    let step = if in_on_y_side {
        if pool.asset_x_balance.inner < out_amount {
            Err(Error::ArithmeticUnderflow)
        } else if pool.asset_y_balance.inner + in_amount > u128::MAX {
            Err(Error::ArithmeticOverflow)
        } else {
            Ok(
                (
                    (pool.asset_x_balance.inner - out_amount) as u128,
                    (pool.asset_y_balance.inner + in_amount) as u128,
                ),
            )
        }
    } else {
        if pool.asset_x_balance.inner + in_amount > u128::MAX {
            Err(Error::ArithmeticOverflow)
        } else if pool.asset_y_balance.inner < out_amount {
            Err(Error::ArithmeticUnderflow)
        } else {
            Ok(
                (
                    (pool.asset_x_balance.inner + in_amount) as u128,
                    (pool.asset_y_balance.inner - out_amount) as u128,
                ),
            )
        }
    };
    match step {
        Err(e) => Err(e),
        Ok((nx, ny)) => match spec_compute_price(nx, ny) {
            Err(e) => Err(e),
            Ok(price) => Ok(
                DexView {
                    balances,
                    pools: s.pools.insert(
                        k,
                        LiquidityPool {
                            asset_pair: s.pools[k].asset_pair,
                            asset_x_balance: Fixed { inner: nx },
                            asset_y_balance: Fixed { inner: ny },
                            price,
                            asset_x_fee: s.pools[k].asset_x_fee,
                            asset_y_fee: s.pools[k].asset_y_fee,
                            lp_token: s.pools[k].lp_token,
                            lp_token_balance: s.pools[k].lp_token_balance,
                        },
                    ),
                    ..s
                },
            ),
        },
    }
}

/// What `swap_exact_in_for_out` does, end to end: the swapper pays a fixed
/// input amount in, the pool for the pair must exist, the pre-trade spot
/// price oriented as output per input sizes the output — exactly
/// `price * input`, spot pricing with no curve integration — the custodial
/// account pays the output out, and reserves and price are updated.
pub open spec fn spec_swap_exact_in(
    s: DexView,
    who: u64,
    asset_in: u32,
    in_amount: u128,
    asset_out: u32,
) -> Result<DexView, Error> {
    if spec_balance(s.balances, who, asset_in) < in_amount {
        Err(Error::InsufficientBalance { account: who, asset: asset_in })
    } else {
        match spec_transfer(s.balances, asset_in, who, s.custodial, in_amount) {
            Err(e) => Err(e),
            Ok(m1) => {
                let p = AssetPair { asset_x: asset_in, asset_y: asset_out };
                match spec_pool_slot(s.pools, p) {
                    None => Err(Error::PoolNotFound),
                    Some(k) => {
                        let pool = s.pools[k];
                        let in_on_y_side = asset_in == pool.asset_pair.asset_y;
                        let pr = if in_on_y_side {
                            spec_compute_price(
                                pool.asset_y_balance.inner,
                                pool.asset_x_balance.inner,
                            )
                        } else {
                            spec_compute_price(
                                pool.asset_x_balance.inner,
                                pool.asset_y_balance.inner,
                            )
                        };
                        match pr {
                            Err(e) => Err(e),
                            Ok(price) => {
                                if price.inner * in_amount / (SCALE as int) > u128::MAX {
                                    Err(Error::ArithmeticOverflow)
                                } else {
                                    let out_amount = (price.inner * in_amount
                                        / (SCALE as int)) as u128;
                                    if spec_balance(m1, s.custodial, asset_out) < out_amount {
                                        Err(
                                            Error::InsufficientBalance {
                                                account: s.custodial,
                                                asset: asset_out,
                                            },
                                        )
                                    } else {
                                        match spec_transfer(
                                            m1,
                                            asset_out,
                                            s.custodial,
                                            who,
                                            out_amount,
                                        ) {
                                            Err(e) => Err(e),
                                            Ok(m2) => spec_swap_pool_update(
                                                s,
                                                m2,
                                                k,
                                                in_on_y_side,
                                                in_amount,
                                                out_amount,
                                            ),
                                        }
                                    }
                                }
                            },
                        }
                    },
                }
            },
        }
    }
}

/// What `swap_in_for_exact_out` does, end to end: the custodial account
/// pays a fixed output amount out first, the pool for the pair must exist,
/// the pre-trade spot price sizes the required input the same way the other
/// swap sizes its output, the swapper pays the input in, and reserves and
/// price are updated.
pub open spec fn spec_swap_in_for_exact_out(
    s: DexView,
    who: u64,
    asset_out: u32,
    out_amount: u128,
    asset_in: u32,
) -> Result<DexView, Error> {
    if spec_balance(s.balances, s.custodial, asset_out) < out_amount {
        Err(Error::InsufficientBalance { account: s.custodial, asset: asset_out })
    } else {
        match spec_transfer(s.balances, asset_out, s.custodial, who, out_amount) {
            Err(e) => Err(e),
            Ok(m1) => {
                let p = AssetPair { asset_x: asset_in, asset_y: asset_out };
                match spec_pool_slot(s.pools, p) {
                    None => Err(Error::PoolNotFound),
                    Some(k) => {
                        let pool = s.pools[k];
                        let in_on_y_side = asset_in == pool.asset_pair.asset_y;
                        let pr = if in_on_y_side {
                            spec_compute_price(
                                pool.asset_y_balance.inner,
                                pool.asset_x_balance.inner,
                            )
                        } else {
                            spec_compute_price(
                                pool.asset_x_balance.inner,
                                pool.asset_y_balance.inner,
                            )
                        };
                        match pr {
                            Err(e) => Err(e),
                            Ok(price) => {
                                if price.inner * out_amount / (SCALE as int) > u128::MAX {
                                    Err(Error::ArithmeticOverflow)
                                } else {
                                    let in_amount = (price.inner * out_amount
                                        / (SCALE as int)) as u128;
                                    if spec_balance(m1, who, asset_in) < in_amount {
                                        Err(
                                            Error::InsufficientBalance {
                                                account: who,
                                                asset: asset_in,
                                            },
                                        )
                                    } else {
                                        match spec_transfer(
                                            m1,
                                            asset_in,
                                            who,
                                            s.custodial,
                                            in_amount,
                                        ) {
                                            Err(e) => Err(e),
                                            Ok(m2) => spec_swap_pool_update(
                                                s,
                                                m2,
                                                k,
                                                in_on_y_side,
                                                in_amount,
                                                out_amount,
                                            ),
                                        }
                                    }
                                }
                            },
                        }
                    },
                }
            },
        }
    }
}

/// Updating a pool in place, keeping its stored pair, preserves
/// well-formedness.
proof fn lemma_wf_pool_update(s: DexView, k: u64, pool: LiquidityPool)
    requires
        s.wf(),
        s.pools.contains_key(k),
        pool.asset_pair == s.pools[k].asset_pair,
    ensures
        (DexView { pools: s.pools.insert(k, pool), ..s }).wf(),
{
    let s2 = DexView { pools: s.pools.insert(k, pool), ..s };
    assert forall|x: u32, y: u32|
        x != y && #[trigger] s2.pools.contains_key(pair_key(x, y)) implies !s2.pools.contains_key(
        pair_key(y, x),
    ) by {
        assert(s.pools.contains_key(pair_key(x, y)));
    }
    assert forall|k2: u64| #[trigger] s2.pools.contains_key(k2) implies pair_key(
        s2.pools[k2].asset_pair.asset_x,
        s2.pools[k2].asset_pair.asset_y,
    ) == k2 by {
        assert(s.pools.contains_key(k2));
    }
}

/// Creating a pool for a pair with no pool under either orientation, keyed
/// and recorded under the caller's orientation, preserves well-formedness.
proof fn lemma_wf_pool_create(s: DexView, p: AssetPair, pool: LiquidityPool)
    requires
        s.wf(),
        !s.pools.contains_key(pair_key(p.asset_x, p.asset_y)),
        !s.pools.contains_key(pair_key(p.asset_y, p.asset_x)),
        pool.asset_pair == p,
    ensures
        (DexView { pools: s.pools.insert(pair_key(p.asset_x, p.asset_y), pool), ..s }).wf(),
{
    let k = pair_key(p.asset_x, p.asset_y);
    let s2 = DexView { pools: s.pools.insert(k, pool), ..s };
    assert forall|x: u32, y: u32|
        x != y && #[trigger] s2.pools.contains_key(pair_key(x, y)) implies !s2.pools.contains_key(
        pair_key(y, x),
    ) by {
        lemma_pair_key_injective(x, y, p.asset_x, p.asset_y);
        lemma_pair_key_injective(y, x, p.asset_x, p.asset_y);
        if pair_key(x, y) == k {
            assert(!s.pools.contains_key(pair_key(y, x)));
        } else {
            assert(s.pools.contains_key(pair_key(x, y)));
            assert(!s.pools.contains_key(pair_key(y, x)));
        }
    }
    assert forall|k2: u64| #[trigger] s2.pools.contains_key(k2) implies pair_key(
        s2.pools[k2].asset_pair.asset_x,
        s2.pools[k2].asset_pair.asset_y,
    ) == k2 by {
        if k2 != k {
            assert(s.pools.contains_key(k2));
        }
    }
}

/// Appending a lot whose id is one past the last id keeps a position list
/// well-formed, as long as the list is below capacity.
proof fn lemma_lots_push(l: Seq<AccountLiquidityPool>, lot: AccountLiquidityPool)
    requires
        lots_wf(l),
        l.len() < 100,
        lot.id == (if l.len() > 0 {
            l[l.len() - 1].id
        } else {
            0
        }) + 1,
    ensures
        lots_wf(l.push(lot)),
{
    let l2 = l.push(lot);
    assert forall|i: int, j: int| 0 <= i < j < l2.len() implies l2[i].id < l2[j].id by {
        if j < l.len() {
            assert(l[i].id < l[j].id);
        } else {
            if i < l.len() - 1 {
                assert(l[i].id < l[l.len() - 1].id);
            }
        }
    }
}

/// Storing a well-formed position list — at an existing key, or at a fresh
/// key with no list under either orientation — preserves well-formedness.
proof fn lemma_wf_positions_insert(s: DexView, kp: u128, lots: Seq<AccountLiquidityPool>)
    requires
        s.wf(),
        lots_wf(lots),
        s.positions.contains_key(kp) || (exists|a: u64, p: AssetPair|
            kp == position_key(a, pair_key(p.asset_x, p.asset_y))
                && !s.positions.contains_key(position_key(a, pair_key(p.asset_x, p.asset_y)))
                && !s.positions.contains_key(position_key(a, pair_key(p.asset_y, p.asset_x)))),
    ensures
        (DexView { positions: s.positions.insert(kp, lots), ..s }).wf(),
{
    let s2 = DexView { positions: s.positions.insert(kp, lots), ..s };
    assert forall|a: u64, x: u32, y: u32|
        x != y && #[trigger] s2.positions.contains_key(
            position_key(a, pair_key(x, y)),
        ) implies !s2.positions.contains_key(position_key(a, pair_key(y, x))) by {
        if s.positions.contains_key(kp) {
            assert(s.positions.contains_key(position_key(a, pair_key(x, y))));
        } else {
            let (a0, p0): (u64, AssetPair) = choose|a0: u64, p0: AssetPair|
                kp == position_key(a0, pair_key(p0.asset_x, p0.asset_y))
                    && !s.positions.contains_key(position_key(a0, pair_key(p0.asset_x, p0.asset_y)))
                    && !s.positions.contains_key(
                    position_key(a0, pair_key(p0.asset_y, p0.asset_x)),
                );
            lemma_position_key_injective(a, pair_key(x, y), a0, pair_key(p0.asset_x, p0.asset_y));
            lemma_position_key_injective(a, pair_key(y, x), a0, pair_key(p0.asset_x, p0.asset_y));
            lemma_pair_key_injective(x, y, p0.asset_x, p0.asset_y);
            lemma_pair_key_injective(y, x, p0.asset_x, p0.asset_y);
            if position_key(a, pair_key(x, y)) == kp {
                assert(!s.positions.contains_key(position_key(a, pair_key(y, x))));
            } else {
                assert(s.positions.contains_key(position_key(a, pair_key(x, y))));
                assert(!s.positions.contains_key(position_key(a, pair_key(y, x))));
            }
        }
    }
    assert forall|k2: u128| #[trigger] s2.positions.contains_key(k2) implies lots_wf(
        s2.positions[k2],
    ) by {
        if k2 != kp {
            assert(s.positions.contains_key(k2));
        }
    }
}

/// Removing a position list preserves well-formedness.
proof fn lemma_wf_positions_remove(s: DexView, kp: u128)
    requires
        s.wf(),
    ensures
        (DexView { positions: s.positions.remove(kp), ..s }).wf(),
{
    let s2 = DexView { positions: s.positions.remove(kp), ..s };
    assert forall|a: u64, x: u32, y: u32|
        x != y && #[trigger] s2.positions.contains_key(
            position_key(a, pair_key(x, y)),
        ) implies !s2.positions.contains_key(position_key(a, pair_key(y, x))) by {
        assert(s.positions.contains_key(position_key(a, pair_key(x, y))));
    }
    assert forall|k2: u128| #[trigger] s2.positions.contains_key(k2) implies lots_wf(
        s2.positions[k2],
    ) by {
        assert(s.positions.contains_key(k2));
    }
}

/// The engine: asset ledger, pool registry, position ledger and the
/// custodial account every pooled balance is held by.
pub struct Dex {
    pub ledger: AssetLedger,
    pub pools: HashMap<u64, LiquidityPool>,
    pub positions: HashMap<u128, Vec<AccountLiquidityPool>>,
    pub custodial: u64,
}

/// The mathematical value of a position store: each list as a sequence.
pub open spec fn lots_views(m: Map<u128, Vec<AccountLiquidityPool>>) -> Map<
    u128,
    Seq<AccountLiquidityPool>,
> {
    m.map_values(|v: Vec<AccountLiquidityPool>| v@)
}

/// Inserting a list commutes with taking the position store's value.
proof fn lemma_lots_views_insert(
    m: Map<u128, Vec<AccountLiquidityPool>>,
    k: u128,
    v: Vec<AccountLiquidityPool>,
)
    ensures
        lots_views(m.insert(k, v)) == lots_views(m).insert(k, v@),
{
    assert(lots_views(m.insert(k, v)) =~= lots_views(m).insert(k, v@));
}

/// Removing a list commutes with taking the position store's value.
proof fn lemma_lots_views_remove(m: Map<u128, Vec<AccountLiquidityPool>>, k: u128)
    ensures
        lots_views(m.remove(k)) == lots_views(m).remove(k),
{
    assert(lots_views(m.remove(k)) =~= lots_views(m).remove(k));
}

impl View for Dex {
    type V = DexView;

    open spec fn view(&self) -> DexView {
        DexView {
            balances: self.ledger.balances@,
            assets: self.ledger.assets@,
            pools: self.pools@,
            positions: lots_views(self.positions@),
            custodial: self.custodial,
        }
    }
}

/// The executable form of `pair_key`.
fn pair_key_exec(x: u32, y: u32) -> (k: u64)
    ensures
        k == pair_key(x, y),
{
    (x as u64) * 0x1_0000_0000 + (y as u64)
}

/// The executable form of `position_key`.
fn position_key_exec(account: u64, pk: u64) -> (k: u128)
    ensures
        k == position_key(account, pk),
{
    (account as u128) * 0x1_0000_0000_0000_0000 + (pk as u128)
}

/// The first lot in a list carrying the given share token and lot id, found
/// by a forward scan.
fn find_lot_exec(lots: &Vec<AccountLiquidityPool>, lp_token: u32, id: u64) -> (r: Option<
    AccountLiquidityPool,
>)
    ensures
        r == find_lot(lots@, lp_token, id),
{
    proof {
        assert(lots@.subrange(0, lots@.len() as int) =~= lots@);
    }
    let mut i: usize = 0;
    while i < lots.len()
        invariant
            i <= lots.len(),
            find_lot(lots@, lp_token, id) == find_lot(
                lots@.subrange(i as int, lots@.len() as int),
                lp_token,
                id,
            ),
        decreases lots.len() - i,
    {
        let lot = lots[i];
        if lot.lp_token == lp_token && lot.id == id {
            return Some(lot);
        }
        proof {
            assert(lots@.subrange(i as int, lots@.len() as int).subrange(
                1,
                lots@.len() - i,
            ) =~= lots@.subrange(i + 1, lots@.len() as int));
        }
        i = i + 1;
    }
    None
}

/// An element-for-element copy of a position list.
fn clone_lots(v: &Vec<AccountLiquidityPool>) -> (r: Vec<AccountLiquidityPool>)
    ensures
        r@ == v@,
{
    let mut out: Vec<AccountLiquidityPool> = Vec::new();
    let mut i: usize = 0;
    while i < v.len()
        invariant
            i <= v.len(),
            out@ == v@.subrange(0, i as int),
        decreases v.len() - i,
    {
        out.push(v[i]);
        proof {
            assert(v@.subrange(0, i as int).push(v@[i as int]) =~= v@.subrange(0, i + 1 as int));
        }
        i = i + 1;
    }
    proof {
        assert(out@ =~= v@);
    }
    out
}

impl Dex {
    /// A fresh engine around an empty ledger, configured with the
    /// deterministic custodial account it will hold all pooled assets in.
    pub fn new(custodial: u64) -> (r: Dex)
        ensures
            r@ == (DexView {
                balances: Map::<u128, u128>::empty(),
                assets: Map::<u32, AssetInfo>::empty(),
                pools: Map::<u64, LiquidityPool>::empty(),
                positions: Map::<u128, Seq<AccountLiquidityPool>>::empty(),
                custodial,
            }),
            r@.wf(),
    {
        let r = Dex {
            ledger: AssetLedger::new(),
            pools: HashMap::new(),
            positions: HashMap::new(),
            custodial,
        };
        proof {
            assert(r@.positions =~= Map::<u128, Seq<AccountLiquidityPool>>::empty());
            assert(r@ =~= (DexView {
                balances: Map::<u128, u128>::empty(),
                assets: Map::<u32, AssetInfo>::empty(),
                pools: Map::<u64, LiquidityPool>::empty(),
                positions: Map::<u128, Seq<AccountLiquidityPool>>::empty(),
                custodial,
            }));
        }
        r
    }

    /// The custodial account that pooled reserves and freshly minted share
    /// tokens are held by.
    pub fn get_dex_account(&self) -> (r: u64)
        ensures
            r == self@.custodial,
    {
        self.custodial
    }

    /// A pure read of an account's ledger balance of one asset.
    pub fn get_asset_balance(&self, asset: u32, account_id: u64) -> (r: u128)
        ensures
            r == spec_balance(self@.balances, account_id, asset),
    {
        self.ledger.balance_of(account_id, asset)
    }

    /// The balance-check probe: succeeds exactly when the account holds at
    /// least the amount. A checked-subtraction read that never mutates
    /// state, so probing twice with the same arguments gives the same
    /// answer.
    pub fn check_asset_balance(&self, account_id: u64, asset: u32, asset_balance: u128) -> (r:
        Result<(), Error>)
        ensures
            r == if spec_balance(self@.balances, account_id, asset) >= asset_balance {
                Ok::<(), Error>(())
            } else {
                Err::<(), Error>(Error::InsufficientBalance { account: account_id, asset })
            },
    {
        let held: u128 = self.ledger.balance_of(account_id, asset);
        if held >= asset_balance {
            Ok(())
        } else {
            Err(Error::InsufficientBalance { account: account_id, asset })
        }
    }

    /// The registry key the pair resolves to, if a pool exists under either
    /// orientation.
    fn pool_slot(&self, asset_pair: AssetPair) -> (r: Option<u64>)
        ensures
            r == spec_pool_slot(self@.pools, asset_pair),
    {
        let k1: u64 = pair_key_exec(asset_pair.asset_x, asset_pair.asset_y);
        if self.pools.contains_key(&k1) {
            return Some(k1);
        }
        let k2: u64 = pair_key_exec(asset_pair.asset_y, asset_pair.asset_x);
        if self.pools.contains_key(&k2) {
            return Some(k2);
        }
        None
    }

    /// Looks a pool up by pair, probing the pair as given and then its
    /// swapped orientation.
    pub fn get_liquidity_pool(&self, asset_pair: AssetPair) -> (r: Option<LiquidityPool>)
        ensures
            r == spec_get_pool(self@.pools, asset_pair),
    {
        match self.pool_slot(asset_pair) {
            Some(k) => match self.pools.get(&k) {
                Some(pool) => Some(*pool),
                None => None,
            },
            None => None,
        }
    }

    /// The position-list key the account and pair resolve to, if a list
    /// exists under either orientation.
    fn position_slot(&self, account_id: u64, asset_pair: AssetPair) -> (r: Option<u128>)
        ensures
            r == spec_position_slot(self@.positions, account_id, asset_pair),
    {
        let k1: u128 = position_key_exec(
            account_id,
            pair_key_exec(asset_pair.asset_x, asset_pair.asset_y),
        );
        if self.positions.contains_key(&k1) {
            return Some(k1);
        }
        let k2: u128 = position_key_exec(
            account_id,
            pair_key_exec(asset_pair.asset_y, asset_pair.asset_x),
        );
        if self.positions.contains_key(&k2) {
            return Some(k2);
        }
        None
    }

    /// Looks an account's position list up by pair, probing the pair as
    /// given and then its swapped orientation.
    pub fn get_account_liquidity_pools(&self, account_id: u64, asset_pair: AssetPair) -> (r:
        Option<Vec<AccountLiquidityPool>>)
        ensures
            match spec_get_positions(self@.positions, account_id, asset_pair) {
                Some(l) => r matches Some(v) && v@ == l,
                None => r is None,
            },
    {
        match self.position_slot(account_id, asset_pair) {
            Some(k) => match self.positions.get(&k) {
                Some(v) => Some(clone_lots(v)),
                None => None,
            },
            None => None,
        }
    }

    /// The pair price from its reserves: y-reserve per x-reserve, an exact
    /// fixed-point division with no rounding beyond the inner unit.
    pub fn compute_price(asset_x_balance: u128, asset_y_balance: u128) -> (r: Result<Fixed, Error>)
        ensures
            r == spec_compute_price(asset_x_balance, asset_y_balance),
    {
        if Fixed::from_inner(asset_x_balance).is_zero() || Fixed::from_inner(
            asset_y_balance,
        ).is_zero() {
            return Err(Error::CannotBeZero);
        }
        Fixed::from_inner(asset_y_balance).checked_div(Fixed::from_inner(asset_x_balance))
    }

    /// The smallest asset identifier, scanning upward from one, that the
    /// ledger does not know yet.
    fn first_free_asset(&self) -> (r: Option<u32>)
        ensures
            r == first_free_asset_from(self@.assets, 1),
    {
        let mut cand: u32 = 1;
        loop
            invariant
                1 <= cand,
                first_free_asset_from(self@.assets, 1) == first_free_asset_from(
                    self@.assets,
                    cand,
                ),
            decreases u32::MAX - cand,
        {
            if !self.ledger.asset_exists(cand) {
                return Some(cand);
            }
            if cand == u32::MAX {
                return None;
            }
            cand = cand + 1;
        }
    }

    /// Determines the pool-share token for a pair — the existing pool's
    /// token, or a freshly created asset for a first deposit — and mints
    /// the floor of the geometric mean of the two deposit amounts into the
    /// custodial account.
    pub fn compute_and_mint_lp_token(
        &mut self,
        asset_pair: AssetPair,
        asset_x_balance: u128,
        asset_y_balance: u128,
    ) -> (r: Result<(u32, u128), Error>)
        requires
            old(self)@.wf(),
        ensures
            final(self)@.wf(),
            match spec_compute_and_mint(old(self)@, asset_pair, asset_x_balance, asset_y_balance) {
                Ok((v, lp, share)) => r == Ok::<(u32, u128), Error>((lp, share)) && final(self)@
                    == v,
                Err(e) => r == Err::<(u32, u128), Error>(e) && final(self)@ == old(self)@,
            },
    {
        let ghost s0 = self@;
        let save = self.backup();
        let existing = self.get_liquidity_pool(asset_pair);
        let lp_token: u32;
        match existing {
            Some(pool) => {
                lp_token = pool.lp_token;
            },
            None => {
                match self.first_free_asset() {
                    Some(id) => {
                        lp_token = id;
                    },
                    None => {
                        return Err(Error::MintFailed);
                    },
                }
            },
        }
        if asset_x_balance == 0 || asset_y_balance == 0 {
            return Err(Error::CannotBeZero);
        }
        let (phi, plo) = wide_mul(asset_x_balance, asset_y_balance);
        let share: u128 = wide_isqrt(phi, plo);
        let custodial: u64 = self.custodial;
        if existing.is_none() {
            // A first deposit registers the fresh share asset, owned by the
            // custodial account; the identifier was just checked to be free.
            match self.ledger.create(lp_token, custodial, true, 1) {
                Ok(()) => {},
                Err(_) => {
                    proof {
                        lemma_first_free_asset_from(s0.assets, 1);
                        assert(false);
                    }
                    return Err(Error::MintFailed);
                },
            }
        }
        match self.ledger.mint_into(lp_token, custodial, share) {
            Ok(()) => {},
            Err(e) => {
                *self = save;
                return Err(e);
            },
        }
        Ok((lp_token, share))
    }

    /// A plain asset transfer between two accounts: a balance check in the
    /// sender's name, then the ledger transfer. No pool is involved.
    pub fn transfer_asset(
        &mut self,
        who: u64,
        asset: u32,
        asset_balance: u128,
        account_id: u64,
    ) -> (r: Result<(), Error>)
        requires
            old(self)@.wf(),
        ensures
            final(self)@.wf(),
            match spec_transfer_asset(old(self)@, who, asset, asset_balance, account_id) {
                Ok(v) => r == Ok::<(), Error>(()) && final(self)@ == v,
                Err(e) => r == Err::<(), Error>(e) && final(self)@ == old(self)@,
            },
    {
        match self.check_asset_balance(who, asset, asset_balance) {
            Ok(()) => {},
            Err(e) => {
                return Err(e);
            },
        }
        match self.ledger.transfer(asset, who, account_id, asset_balance) {
            Ok(()) => Ok(()),
            Err(e) => Err(e),
        }
    }

    /// The withdrawal split for one share lot: locates the lot by share
    /// token and id, reads the pool's current price, and values the lot's
    /// share balance at that price.
    pub fn compute_xy_assets(
        &self,
        account_id: u64,
        asset_pair: AssetPair,
        lp_token: u32,
        id: u64,
    ) -> (r: Result<(u128, u128, u128), Error>)
        ensures
            r == spec_compute_xy(self@, account_id, asset_pair, lp_token, id),
    {
        let slot = match self.position_slot(account_id, asset_pair) {
            Some(k) => k,
            None => {
                return Err(Error::PositionNotFound);
            },
        };
        let found = match self.positions.get(&slot) {
            Some(lots) => find_lot_exec(lots, lp_token, id),
            None => None,
        };
        let lot = match found {
            Some(lot) => lot,
            None => {
                return Err(Error::PositionNotFound);
            },
        };
        let share: u128 = lot.lp_token_balance.into_inner();
        let pool = match self.get_liquidity_pool(asset_pair) {
            Some(pool) => pool,
            None => {
                return Err(Error::CannotBeZero);
            },
        };
        if pool.price.is_zero() {
            return Err(Error::CannotBeZero);
        }
        let root = Fixed::from_inner(pool.price.into_inner()).sqrt();
        proof {
            // The price is positive, so its fixed-point root is positive and
            // the division below cannot be by zero.
            crate::wide::lemma_sqrt_floor(pool.price.inner * SCALE);
            assert(pool.price.inner * SCALE >= SCALE);
            if root.inner == 0 {
                let s = sqrt_floor(pool.price.inner * SCALE);
                assert((s + 1) * (s + 1) == 1) by (nonlinear_arith)
                    requires s == 0;
                assert(false);
            }
        }
        let xa = match Fixed::from_inner(share).checked_div(root) {
            Ok(v) => v,
            Err(e) => {
                return Err(e);
            },
        };
        let ya = match Fixed::from_inner(share).checked_mul(root) {
            Ok(v) => v,
            Err(e) => {
                return Err(e);
            },
        };
        Ok((xa.into_inner(), ya.into_inner(), share))
    }

    /// Deposits a pair of assets: checks the depositor's balances, moves
    /// both deposits to the custodial account, mints the share tokens and
    /// hands them to the depositor, updates or creates the pool — reserves
    /// grown by the deposit, price recomputed from the updated reserves,
    /// supply grown by the minted shares — and appends a lot to the
    /// depositor's position list. All or nothing: a failure restores the
    /// starting state.
    pub fn new_liquidity(
        &mut self,
        who: u64,
        asset_pair: AssetPair,
        asset_x_balance: u128,
        asset_y_balance: u128,
    ) -> (r: Result<(), Error>)
        requires
            old(self)@.wf(),
        ensures
            final(self)@.wf(),
            match spec_new_liquidity(old(self)@, who, asset_pair, asset_x_balance, asset_y_balance) {
                Ok(v) => r == Ok::<(), Error>(()) && final(self)@ == v,
                Err(e) => r == Err::<(), Error>(e) && final(self)@ == old(self)@,
            },
    {
        let save = self.backup();
        let custodial: u64 = self.custodial;
        match self.check_asset_balance(who, asset_pair.asset_x, asset_x_balance) {
            Ok(()) => {},
            Err(e) => {
                return Err(e);
            },
        }
        match self.check_asset_balance(who, asset_pair.asset_y, asset_y_balance) {
            Ok(()) => {},
            Err(e) => {
                return Err(e);
            },
        }
        match self.ledger.transfer(asset_pair.asset_x, who, custodial, asset_x_balance) {
            Ok(()) => {},
            Err(e) => {
                *self = save;
                return Err(e);
            },
        }
        match self.ledger.transfer(asset_pair.asset_y, who, custodial, asset_y_balance) {
            Ok(()) => {},
            Err(e) => {
                *self = save;
                return Err(e);
            },
        }
        let minted = self.compute_and_mint_lp_token(asset_pair, asset_x_balance, asset_y_balance);
        let (lp_token, lp_token_balance) = match minted {
            Ok(v) => v,
            Err(e) => {
                *self = save;
                return Err(e);
            },
        };
        // Defensive double-check that the custodial account actually
        // received the minted shares; minting guarantees it did.
        match self.check_asset_balance(custodial, lp_token, lp_token_balance) {
            Ok(()) => {},
            Err(_) => {
                proof {
                    assert(false);
                }
                *self = save;
                return Err(
                    Error::InsufficientBalance { account: custodial, asset: lp_token },
                );
            },
        }
        match self.ledger.transfer(lp_token, custodial, who, lp_token_balance) {
            Ok(()) => {},
            Err(e) => {
                *self = save;
                return Err(e);
            },
        }
        let ghost s4 = self@;
        match self.pool_slot(asset_pair) {
            Some(k) => {
                let pool = *self.pools.get(&k).unwrap();
                let dx: u128;
                let dy: u128;
                if pool.asset_pair == asset_pair {
                    dx = asset_x_balance;
                    dy = asset_y_balance;
                } else {
                    dx = asset_y_balance;
                    dy = asset_x_balance;
                }
                let nxf = match pool.asset_x_balance.checked_add(Fixed::from_inner(dx)) {
                    Ok(v) => v,
                    Err(e) => {
                        *self = save;
                        return Err(e);
                    },
                };
                let nyf = match pool.asset_y_balance.checked_add(Fixed::from_inner(dy)) {
                    Ok(v) => v,
                    Err(e) => {
                        *self = save;
                        return Err(e);
                    },
                };
                let price = match Dex::compute_price(nxf.into_inner(), nyf.into_inner()) {
                    Ok(v) => v,
                    Err(e) => {
                        *self = save;
                        return Err(e);
                    },
                };
                let nlpf = match pool.lp_token_balance.checked_add(
                    Fixed::from_inner(lp_token_balance),
                ) {
                    Ok(v) => v,
                    Err(e) => {
                        *self = save;
                        return Err(e);
                    },
                };
                self.pools.insert(
                    k,
                    LiquidityPool {
                        asset_pair: pool.asset_pair,
                        asset_x_balance: nxf,
                        asset_y_balance: nyf,
                        price,
                        asset_x_fee: pool.asset_x_fee,
                        asset_y_fee: pool.asset_y_fee,
                        lp_token: pool.lp_token,
                        lp_token_balance: nlpf,
                    },
                );
                proof {
                    lemma_wf_pool_update(s4, k, self@.pools[k]);
                }
            },
            None => {
                let price = match Dex::compute_price(asset_x_balance, asset_y_balance) {
                    Ok(v) => v,
                    Err(e) => {
                        *self = save;
                        return Err(e);
                    },
                };
                let k = pair_key_exec(asset_pair.asset_x, asset_pair.asset_y);
                self.pools.insert(
                    k,
                    LiquidityPool {
                        asset_pair,
                        asset_x_balance: Fixed::from_inner(asset_x_balance),
                        asset_y_balance: Fixed::from_inner(asset_y_balance),
                        price,
                        asset_x_fee: Fixed::from_inner(0),
                        asset_y_fee: Fixed::from_inner(0),
                        lp_token,
                        lp_token_balance: Fixed::from_inner(lp_token_balance),
                    },
                );
                proof {
                    lemma_wf_pool_create(s4, asset_pair, self@.pools[k]);
                }
            },
        }
        let ghost s5 = self@;
        match self.position_slot(who, asset_pair) {
            Some(kp) => {
                let mut lots = self.positions.remove(&kp).unwrap();
                let last_id: u64 = if lots.len() > 0 {
                    lots[lots.len() - 1].id
                } else {
                    0
                };
                if last_id == u64::MAX {
                    *self = save;
                    return Err(Error::SequenceOverflow);
                }
                if lots.len() >= 100 {
                    *self = save;
                    return Err(Error::CapacityExceeded);
                }
                let ghost old_lots = lots@;
                lots.push(
                    AccountLiquidityPool {
                        id: last_id + 1,
                        account_id: who,
                        asset_pair,
                        asset_x_balance: Fixed::from_inner(asset_x_balance),
                        asset_y_balance: Fixed::from_inner(asset_y_balance),
                        lp_token,
                        lp_token_balance: Fixed::from_inner(lp_token_balance),
                    },
                );
                let ghost removed = self.positions@;
                self.positions.insert(kp, lots);
                proof {
                    lemma_lots_views_remove(save.positions@, kp);
                    lemma_lots_views_insert(removed, kp, lots);
                    assert(lots_views(removed).insert(kp, lots@) =~= s5.positions.insert(
                        kp,
                        old_lots.push(lots@[old_lots.len() as int]),
                    ));
                    lemma_lots_push(old_lots, lots@[old_lots.len() as int]);
                    lemma_wf_positions_insert(s5, kp, lots@);
                    assert(self@ =~= (DexView {
                        positions: s5.positions.insert(kp, lots@),
                        ..s5
                    }));
                }
            },
            None => {
                let mut lots: Vec<AccountLiquidityPool> = Vec::new();
                lots.push(
                    AccountLiquidityPool {
                        id: 1,
                        account_id: who,
                        asset_pair,
                        asset_x_balance: Fixed::from_inner(asset_x_balance),
                        asset_y_balance: Fixed::from_inner(asset_y_balance),
                        lp_token,
                        lp_token_balance: Fixed::from_inner(lp_token_balance),
                    },
                );
                let kp = position_key_exec(
                    who,
                    pair_key_exec(asset_pair.asset_x, asset_pair.asset_y),
                );
                let ghost before = self.positions@;
                self.positions.insert(kp, lots);
                proof {
                    lemma_lots_views_insert(before, kp, lots);
                    assert(lots@ =~= seq![
                        AccountLiquidityPool {
                            id: 1,
                            account_id: who,
                            asset_pair,
                            asset_x_balance: Fixed { inner: asset_x_balance },
                            asset_y_balance: Fixed { inner: asset_y_balance },
                            lp_token,
                            lp_token_balance: Fixed { inner: lp_token_balance },
                        },
                    ]);
                    lemma_wf_positions_insert(s5, kp, lots@);
                    assert(self@ =~= (DexView {
                        positions: s5.positions.insert(kp, lots@),
                        ..s5
                    }));
                }
            },
        }
        Ok(())
    }

    /// Redeems one share lot: the pool must exist, the withdrawal split is
    /// computed for the lot at the pool's current price, both reserve
    /// assets are paid out of the custodial account, reserves and
    /// outstanding shares are reduced — a failing price recomputation
    /// leaves the pool record untouched rather than failing — and the
    /// account's entire position list for the pair is removed, not just the
    /// redeemed lot. All or nothing on failure.
    pub fn redeem_liquidity(
        &mut self,
        who: u64,
        asset_pair: AssetPair,
        lp_token: u32,
        id: u64,
    ) -> (r: Result<(), Error>)
        requires
            old(self)@.wf(),
        ensures
            final(self)@.wf(),
            match spec_redeem_liquidity(old(self)@, who, asset_pair, lp_token, id) {
                Ok(v) => r == Ok::<(), Error>(()) && final(self)@ == v,
                Err(e) => r == Err::<(), Error>(e) && final(self)@ == old(self)@,
            },
    {
        let save = self.backup();
        let custodial: u64 = self.custodial;
        let k = match self.pool_slot(asset_pair) {
            Some(k) => k,
            None => {
                return Err(Error::PoolNotFound);
            },
        };
        let pool = *self.pools.get(&k).unwrap();
        let amounts = self.compute_xy_assets(who, asset_pair, lp_token, id);
        let (xa, ya, share) = match amounts {
            Ok(v) => v,
            Err(e) => {
                return Err(e);
            },
        };
        let sx: u32 = pool.asset_pair.asset_x;
        let sy: u32 = pool.asset_pair.asset_y;
        match self.check_asset_balance(custodial, sx, xa) {
            Ok(()) => {},
            Err(e) => {
                return Err(e);
            },
        }
        match self.check_asset_balance(custodial, sy, ya) {
            Ok(()) => {},
            Err(e) => {
                return Err(e);
            },
        }
        match self.ledger.transfer(sx, custodial, who, xa) {
            Ok(()) => {},
            Err(e) => {
                *self = save;
                return Err(e);
            },
        }
        match self.ledger.transfer(sy, custodial, who, ya) {
            Ok(()) => {},
            Err(e) => {
                *self = save;
                return Err(e);
            },
        }
        let nxf = match pool.asset_x_balance.checked_sub(Fixed::from_inner(xa)) {
            Ok(v) => v,
            Err(e) => {
                *self = save;
                return Err(e);
            },
        };
        let nyf = match pool.asset_y_balance.checked_sub(Fixed::from_inner(ya)) {
            Ok(v) => v,
            Err(e) => {
                *self = save;
                return Err(e);
            },
        };
        let ghost s2 = self@;
        // If the price cannot be recomputed — a reserve hit zero — the pool
        // record keeps its previous reserves, price and supply.
        match Dex::compute_price(nxf.into_inner(), nyf.into_inner()) {
            Err(_) => {},
            Ok(price) => {
                let nlpf = match pool.lp_token_balance.checked_sub(Fixed::from_inner(share)) {
                    Ok(v) => v,
                    Err(e) => {
                        *self = save;
                        return Err(e);
                    },
                };
                self.pools.insert(
                    k,
                    LiquidityPool {
                        asset_pair: pool.asset_pair,
                        asset_x_balance: nxf,
                        asset_y_balance: nyf,
                        price,
                        asset_x_fee: pool.asset_x_fee,
                        asset_y_fee: pool.asset_y_fee,
                        lp_token: pool.lp_token,
                        lp_token_balance: nlpf,
                    },
                );
                proof {
                    lemma_wf_pool_update(s2, k, self@.pools[k]);
                }
            },
        }
        let ghost s3 = self@;
        let kp = match self.position_slot(who, asset_pair) {
            Some(kp) => kp,
            None => {
                // The withdrawal split located a lot, so the list exists.
                proof {
                    assert(false);
                }
                *self = save;
                return Err(Error::PositionNotFound);
            },
        };
        let _removed = self.positions.remove(&kp);
        proof {
            lemma_lots_views_remove(save.positions@, kp);
            lemma_wf_positions_remove(s3, kp);
            assert(self@ =~= (DexView { positions: s3.positions.remove(kp), ..s3 }));
        }
        Ok(())
    }

    /// Swaps an exact input amount for output priced at the pre-trade spot
    /// price: the swapper pays the input in, the output is exactly
    /// `price * input`, the custodial account pays the output out, and
    /// reserves and price are updated from the trade. All or nothing on
    /// failure.
    pub fn swap_exact_in_for_out(
        &mut self,
        who: u64,
        asset_exact_in: u32,
        asset_exact_in_balance: u128,
        asset_max_out: u32,
    ) -> (r: Result<(), Error>)
        requires
            old(self)@.wf(),
        ensures
            final(self)@.wf(),
            match spec_swap_exact_in(
                old(self)@,
                who,
                asset_exact_in,
                asset_exact_in_balance,
                asset_max_out,
            ) {
                Ok(v) => r == Ok::<(), Error>(()) && final(self)@ == v,
                Err(e) => r == Err::<(), Error>(e) && final(self)@ == old(self)@,
            },
    {
        let save = self.backup();
        let custodial: u64 = self.custodial;
        match self.check_asset_balance(who, asset_exact_in, asset_exact_in_balance) {
            Ok(()) => {},
            Err(e) => {
                return Err(e);
            },
        }
        match self.ledger.transfer(asset_exact_in, who, custodial, asset_exact_in_balance) {
            Ok(()) => {},
            Err(e) => {
                *self = save;
                return Err(e);
            },
        }
        let p = AssetPair { asset_x: asset_exact_in, asset_y: asset_max_out };
        let k = match self.pool_slot(p) {
            Some(k) => k,
            None => {
                *self = save;
                return Err(Error::PoolNotFound);
            },
        };
        let pool = *self.pools.get(&k).unwrap();
        let in_on_y_side: bool = asset_exact_in == pool.asset_pair.asset_y;
        let price_result = if in_on_y_side {
            Dex::compute_price(pool.asset_y_balance.into_inner(), pool.asset_x_balance.into_inner())
        } else {
            Dex::compute_price(pool.asset_x_balance.into_inner(), pool.asset_y_balance.into_inner())
        };
        let price = match price_result {
            Ok(v) => v,
            Err(e) => {
                *self = save;
                return Err(e);
            },
        };
        let out_f = match Fixed::from_inner(price.into_inner()).checked_mul(
            Fixed::from_inner(asset_exact_in_balance),
        ) {
            Ok(v) => v,
            Err(e) => {
                *self = save;
                return Err(e);
            },
        };
        let out_amount: u128 = out_f.into_inner();
        match self.check_asset_balance(custodial, asset_max_out, out_amount) {
            Ok(()) => {},
            Err(e) => {
                *self = save;
                return Err(e);
            },
        }
        match self.ledger.transfer(asset_max_out, custodial, who, out_amount) {
            Ok(()) => {},
            Err(e) => {
                *self = save;
                return Err(e);
            },
        }
        let nxf: Fixed;
        let nyf: Fixed;
        if in_on_y_side {
            nxf = match pool.asset_x_balance.checked_sub(out_f) {
                Ok(v) => v,
                Err(e) => {
                    *self = save;
                    return Err(e);
                },
            };
            nyf = match pool.asset_y_balance.checked_add(
                Fixed::from_inner(asset_exact_in_balance),
            ) {
                Ok(v) => v,
                Err(e) => {
                    *self = save;
                    return Err(e);
                },
            };
        } else {
            nxf = match pool.asset_x_balance.checked_add(
                Fixed::from_inner(asset_exact_in_balance),
            ) {
                Ok(v) => v,
                Err(e) => {
                    *self = save;
                    return Err(e);
                },
            };
            nyf = match pool.asset_y_balance.checked_sub(out_f) {
                Ok(v) => v,
                Err(e) => {
                    *self = save;
                    return Err(e);
                },
            };
        }
        let price2 = match Dex::compute_price(nxf.into_inner(), nyf.into_inner()) {
            Ok(v) => v,
            Err(e) => {
                *self = save;
                return Err(e);
            },
        };
        let ghost s2 = self@;
        self.pools.insert(
            k,
            LiquidityPool {
                asset_pair: pool.asset_pair,
                asset_x_balance: nxf,
                asset_y_balance: nyf,
                price: price2,
                asset_x_fee: pool.asset_x_fee,
                asset_y_fee: pool.asset_y_fee,
                lp_token: pool.lp_token,
                lp_token_balance: pool.lp_token_balance,
            },
        );
        proof {
            lemma_wf_pool_update(s2, k, self@.pools[k]);
        }
        Ok(())
    }

    /// Swaps input for an exact output amount: the custodial account pays
    /// the output out first, the required input — sized from the pre-trade
    /// spot price the same way the other swap sizes its output — is pulled
    /// from the swapper, and reserves and price are updated from the trade.
    /// All or nothing on failure.
    pub fn swap_in_for_exact_out(
        &mut self,
        who: u64,
        asset_exact_out: u32,
        asset_exact_out_balance: u128,
        asset_min_in: u32,
    ) -> (r: Result<(), Error>)
        requires
            old(self)@.wf(),
        ensures
            final(self)@.wf(),
            match spec_swap_in_for_exact_out(
                old(self)@,
                who,
                asset_exact_out,
                asset_exact_out_balance,
                asset_min_in,
            ) {
                Ok(v) => r == Ok::<(), Error>(()) && final(self)@ == v,
                Err(e) => r == Err::<(), Error>(e) && final(self)@ == old(self)@,
            },
    {
        let save = self.backup();
        let custodial: u64 = self.custodial;
        match self.check_asset_balance(custodial, asset_exact_out, asset_exact_out_balance) {
            Ok(()) => {},
            Err(e) => {
                return Err(e);
            },
        }
        match self.ledger.transfer(asset_exact_out, custodial, who, asset_exact_out_balance) {
            Ok(()) => {},
            Err(e) => {
                *self = save;
                return Err(e);
            },
        }
        let p = AssetPair { asset_x: asset_min_in, asset_y: asset_exact_out };
        let k = match self.pool_slot(p) {
            Some(k) => k,
            None => {
                *self = save;
                return Err(Error::PoolNotFound);
            },
        };
        let pool = *self.pools.get(&k).unwrap();
        let in_on_y_side: bool = asset_min_in == pool.asset_pair.asset_y;
        let price_result = if in_on_y_side {
            Dex::compute_price(pool.asset_y_balance.into_inner(), pool.asset_x_balance.into_inner())
        } else {
            Dex::compute_price(pool.asset_x_balance.into_inner(), pool.asset_y_balance.into_inner())
        };
        let price = match price_result {
            Ok(v) => v,
            Err(e) => {
                *self = save;
                return Err(e);
            },
        };
        let in_f = match Fixed::from_inner(price.into_inner()).checked_mul(
            Fixed::from_inner(asset_exact_out_balance),
        ) {
            Ok(v) => v,
            Err(e) => {
                *self = save;
                return Err(e);
            },
        };
        let in_amount: u128 = in_f.into_inner();
        match self.check_asset_balance(who, asset_min_in, in_amount) {
            Ok(()) => {},
            Err(e) => {
                *self = save;
                return Err(e);
            },
        }
        match self.ledger.transfer(asset_min_in, who, custodial, in_amount) {
            Ok(()) => {},
            Err(e) => {
                *self = save;
                return Err(e);
            },
        }
        let nxf: Fixed;
        let nyf: Fixed;
        if in_on_y_side {
            nxf = match pool.asset_x_balance.checked_sub(
                Fixed::from_inner(asset_exact_out_balance),
            ) {
                Ok(v) => v,
                Err(e) => {
                    *self = save;
                    return Err(e);
                },
            };
            nyf = match pool.asset_y_balance.checked_add(in_f) {
                Ok(v) => v,
                Err(e) => {
                    *self = save;
                    return Err(e);
                },
            };
        } else {
            nxf = match pool.asset_x_balance.checked_add(in_f) {
                Ok(v) => v,
                Err(e) => {
                    *self = save;
                    return Err(e);
                },
            };
            nyf = match pool.asset_y_balance.checked_sub(
                Fixed::from_inner(asset_exact_out_balance),
            ) {
                Ok(v) => v,
                Err(e) => {
                    *self = save;
                    return Err(e);
                },
            };
        }
        let price2 = match Dex::compute_price(nxf.into_inner(), nyf.into_inner()) {
            Ok(v) => v,
            Err(e) => {
                *self = save;
                return Err(e);
            },
        };
        let ghost s2 = self@;
        self.pools.insert(
            k,
            LiquidityPool {
                asset_pair: pool.asset_pair,
                asset_x_balance: nxf,
                asset_y_balance: nyf,
                price: price2,
                asset_x_fee: pool.asset_x_fee,
                asset_y_fee: pool.asset_y_fee,
                lp_token: pool.lp_token,
                lp_token_balance: pool.lp_token_balance,
            },
        );
        proof {
            lemma_wf_pool_update(s2, k, self@.pools[k]);
        }
        Ok(())
    }

    /// A deep copy of the whole engine state, taken before an operation
    /// mutates anything so that a failing operation can restore it.
    fn backup(&self) -> (r: Dex)
        ensures
            r@ == self@,
    {
        let r = Dex {
            ledger: AssetLedger {
                balances: self.ledger.balances.clone(),
                assets: self.ledger.assets.clone(),
            },
            pools: self.pools.clone(),
            positions: self.positions.clone(),
            custodial: self.custodial,
        };
        proof {
            assert(r@ =~= self@);
        }
        r
    }
}

} // verus!
