//! Engine-wide laws, proved once and for all inputs they hold on.

use vstd::prelude::*;
use crate::dex::{DexView, spec_compute_price, spec_compute_xy, spec_get_pool, spec_get_positions, find_lot};
use crate::errors::Error;
use crate::fixed::{Fixed, SCALE};
use crate::types::{AssetPair, swapped};
use crate::wide::{sqrt_floor, lemma_sqrt_floor_unique};
use vstd::arithmetic::div_mod::lemma_div_by_multiple;

verus! {

/// Pool lookup is orientation-symmetric: in any well-formed state, looking
/// a pair up and looking its swapped form up resolve to the same record,
/// whichever orientation the pool was created under.
pub proof fn lemma_pool_lookup_orientation_symmetric(s: DexView, p: AssetPair)
    requires
        s.wf(),
    ensures
        spec_get_pool(s.pools, p) == spec_get_pool(s.pools, swapped(p)),
{
    if p.asset_x != p.asset_y {
        if s.pools.contains_key(crate::dex::pair_key(p.asset_x, p.asset_y)) {
            assert(!s.pools.contains_key(crate::dex::pair_key(p.asset_y, p.asset_x)));
        }
    } else {
        assert(swapped(p) == p);
    }
}

/// The deposit half of the round-trip law, for deposits of `a` whole units
/// against `a * c * c` whole units — a whole-unit lot whose reserve ratio
/// is the perfect square `c * c`. The pool price comes out exactly as the
/// ratio, and the minted share amount exactly as the geometric mean
/// `a * c` whole units, with no rounding.
pub proof fn lemma_fresh_deposit_exact(a: u128, c: u128)
    requires
        1 <= a,
        1 <= c,
        a * c * c * SCALE <= u128::MAX,
    ensures
        spec_compute_price((a * SCALE) as u128, (a * c * c * SCALE) as u128) == Ok::<Fixed, Error>(
            Fixed { inner: (c * c * SCALE) as u128 },
        ),
        sqrt_floor((a * SCALE) * (a * c * c * SCALE)) == a * c * SCALE,
{
    let sc = SCALE as int;
    let x = a * sc;
    let y = a * c * c * sc;
    assert(x <= y) by (nonlinear_arith)
        requires 1 <= a, 1 <= c, x == a * sc, y == a * c * c * sc, sc >= 1;
    assert(c * c * sc <= y) by (nonlinear_arith)
        requires 1 <= a, 1 <= c, y == a * c * c * sc, sc >= 1;
    assert(y * sc == (c * c * sc) * x) by (nonlinear_arith)
        requires x == a * sc, y == a * c * c * sc;
    lemma_div_by_multiple(c * c * sc, x);
    assert(x * y == (a * c * sc) * (a * c * sc)) by (nonlinear_arith)
        requires x == a * sc, y == a * c * c * sc;
    assert(a * c * sc <= y) by (nonlinear_arith)
        requires 1 <= a, 1 <= c, y == a * c * c * sc, sc >= 1;
    assert((a * c * sc) * (a * c * sc) < (a * c * sc + 1) * (a * c * sc + 1)) by (nonlinear_arith)
        requires 1 <= a, 1 <= c, sc >= 1;
    lemma_sqrt_floor_unique(x * y, a * c * sc);
}

/// The redemption half of the round-trip law: a lot of `a * c` whole-unit
/// shares, redeemed against a pool whose price is exactly the perfect
/// square `c * c`, splits back into exactly `a` whole units of the x side
/// and `a * c * c` whole units of the y side — the deposit that minted it,
/// with no rounding.
pub proof fn lemma_redeem_returns_deposit(
    s: DexView,
    who: u64,
    p: AssetPair,
    lp: u32,
    id: u64,
    a: u128,
    c: u128,
)
    requires
        1 <= a,
        1 <= c,
        a * c * c * SCALE <= u128::MAX,
        spec_get_pool(s.pools, p) matches Some(pool) && pool.price.inner == c * c * SCALE,
        spec_get_positions(s.positions, who, p) matches Some(lots) && find_lot(lots, lp, id)
            matches Some(lot) && lot.lp_token_balance.inner == a * c * SCALE,
    ensures
        spec_compute_xy(s, who, p, lp, id) == Ok::<(u128, u128, u128), Error>(
            ((a * SCALE) as u128, (a * c * c * SCALE) as u128, (a * c * SCALE) as u128),
        ),
{
    let sc = SCALE as int;
    let share = a * c * sc;
    let price = c * c * sc;
    assert(share <= a * c * c * sc) by (nonlinear_arith)
        requires 1 <= a, 1 <= c, sc >= 1, share == a * c * sc;
    assert(c * sc <= price) by (nonlinear_arith)
        requires 1 <= a, 1 <= c, sc >= 1, price == c * c * sc;
    assert(price * sc == (c * sc) * (c * sc)) by (nonlinear_arith)
        requires price == c * c * sc;
    assert((c * sc) * (c * sc) < (c * sc + 1) * (c * sc + 1)) by (nonlinear_arith)
        requires 1 <= c, sc >= 1;
    lemma_sqrt_floor_unique(price * sc, c * sc);
    let root = sqrt_floor(price * sc);
    assert(share * sc == (a * sc) * (c * sc)) by (nonlinear_arith)
        requires share == a * c * sc;
    lemma_div_by_multiple(a * sc, c * sc);
    assert(share * root == (a * c * c * sc) * sc) by (nonlinear_arith)
        requires root == c * sc, share == a * c * sc;
    lemma_div_by_multiple(a * c * c * sc, sc);
    assert(a * sc <= a * c * c * sc) by (nonlinear_arith)
        requires 1 <= a, 1 <= c, sc >= 1;
}

} // verus!
