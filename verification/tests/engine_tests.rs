use humidefi::dex::Dex;
use humidefi::errors::Error;
use humidefi::fixed::SCALE;
use humidefi::types::AssetPair;

fn setup() -> Dex {
    let mut dex = Dex::new(999);
    dex.ledger.create(100, 999, true, 1).unwrap();
    dex.ledger.create(200, 999, true, 1).unwrap();
    dex.ledger.mint_into(100, 1, 1_000_000 * SCALE).unwrap();
    dex.ledger.mint_into(200, 1, 1_000_000 * SCALE).unwrap();
    dex
}

fn pair() -> AssetPair {
    AssetPair { asset_x: 100, asset_y: 200 }
}

#[test]
fn compute_price_is_exact_ratio() {
    assert_eq!(
        Dex::compute_price(100 * SCALE, 400 * SCALE).unwrap().into_inner(),
        4 * SCALE
    );
    // A non-terminating ratio is floored at the inner unit, no further drift.
    assert_eq!(
        Dex::compute_price(3 * SCALE, SCALE).unwrap().into_inner(),
        333_333_333_333_333_333
    );
}

#[test]
fn compute_price_rejects_zero_reserves() {
    assert_eq!(Dex::compute_price(0, 5 * SCALE), Err(Error::CannotBeZero));
    assert_eq!(Dex::compute_price(5 * SCALE, 0), Err(Error::CannotBeZero));
    assert_eq!(Dex::compute_price(0, 0), Err(Error::CannotBeZero));
}

#[test]
fn mint_share_is_geometric_mean() {
    let mut dex = setup();
    let (lp, share) = dex
        .compute_and_mint_lp_token(pair(), 100 * SCALE, 400 * SCALE)
        .unwrap();
    assert_eq!(lp, 1);
    assert_eq!(share, 200 * SCALE);
    assert_eq!(dex.get_asset_balance(1, 999), 200 * SCALE);
}

#[test]
fn mint_share_fails_iff_either_side_zero() {
    let mut dex = setup();
    assert_eq!(
        dex.compute_and_mint_lp_token(pair(), 0, 400 * SCALE),
        Err(Error::CannotBeZero)
    );
    assert_eq!(
        dex.compute_and_mint_lp_token(pair(), 100 * SCALE, 0),
        Err(Error::CannotBeZero)
    );
    assert!(dex.compute_and_mint_lp_token(pair(), 1, 1).is_ok());
}

#[test]
fn deposit_creates_pool_priced_from_reserves() {
    let mut dex = setup();
    dex.new_liquidity(1, pair(), 100 * SCALE, 400 * SCALE).unwrap();

    let pool = dex.get_liquidity_pool(pair()).unwrap();
    assert_eq!(pool.asset_x_balance.into_inner(), 100 * SCALE);
    assert_eq!(pool.asset_y_balance.into_inner(), 400 * SCALE);
    assert_eq!(pool.price.into_inner(), 4 * SCALE);
    assert_eq!(pool.lp_token, 1);
    assert_eq!(pool.lp_token_balance.into_inner(), 200 * SCALE);

    let lots = dex.get_account_liquidity_pools(1, pair()).unwrap();
    assert_eq!(lots.len(), 1);
    assert_eq!(lots[0].id, 1);
    assert_eq!(lots[0].lp_token_balance.into_inner(), 200 * SCALE);

    // The depositor holds the minted shares; the custodial account holds
    // the reserves.
    assert_eq!(dex.get_asset_balance(1, 1), 200 * SCALE);
    assert_eq!(dex.get_asset_balance(100, 999), 100 * SCALE);
    assert_eq!(dex.get_asset_balance(200, 999), 400 * SCALE);
}

#[test]
fn swap_exact_in_uses_spot_price_formula() {
    let mut dex = setup();
    dex.new_liquidity(1, pair(), 100 * SCALE, 400 * SCALE).unwrap();
    let held_out_before = dex.get_asset_balance(200, 1);

    dex.swap_exact_in_for_out(1, 100, 10 * SCALE, 200).unwrap();

    // Output is exactly price-before times input: 4 * 10 = 40.
    assert_eq!(dex.get_asset_balance(200, 1) - held_out_before, 40 * SCALE);
    let pool = dex.get_liquidity_pool(pair()).unwrap();
    assert_eq!(pool.asset_x_balance.into_inner(), 110 * SCALE);
    assert_eq!(pool.asset_y_balance.into_inner(), 360 * SCALE);
    // The price is the exact floor of 360/110 at the inner unit: spot
    // pricing moved the reserve product, no curve invariant is kept.
    assert_eq!(pool.price.into_inner(), 3_272_727_272_727_272_727);
}

#[test]
fn swap_exact_out_derives_input_from_price() {
    let mut dex = setup();
    dex.new_liquidity(1, pair(), 100 * SCALE, 400 * SCALE).unwrap();
    let held_in_before = dex.get_asset_balance(100, 1);

    dex.swap_in_for_exact_out(1, 200, 40 * SCALE, 100).unwrap();

    // The required input is derived the same way the other swap sizes its
    // output: price times the exact output, 4 * 40 = 160.
    assert_eq!(held_in_before - dex.get_asset_balance(100, 1), 160 * SCALE);
    let pool = dex.get_liquidity_pool(pair()).unwrap();
    assert_eq!(pool.asset_x_balance.into_inner(), 260 * SCALE);
    assert_eq!(pool.asset_y_balance.into_inner(), 360 * SCALE);
    assert_eq!(pool.price.into_inner(), 1_384_615_384_615_384_615);
}

#[test]
fn deposit_then_redeem_returns_deposit() {
    let mut dex = setup();
    dex.new_liquidity(1, pair(), 100 * SCALE, 400 * SCALE).unwrap();
    let x_after_deposit = dex.get_asset_balance(100, 1);
    let y_after_deposit = dex.get_asset_balance(200, 1);

    dex.redeem_liquidity(1, pair(), 1, 1).unwrap();

    // The round trip with no intervening trades pays the deposit back.
    assert_eq!(dex.get_asset_balance(100, 1) - x_after_deposit, 100 * SCALE);
    assert_eq!(dex.get_asset_balance(200, 1) - y_after_deposit, 400 * SCALE);
    let pool = dex.get_liquidity_pool(pair()).unwrap();
    // Both reserves hit zero, so the price recomputation failed and the
    // pool record kept its previous reserves and price, by design.
    assert_eq!(pool.price.into_inner(), 4 * SCALE);
}

#[test]
fn withdrawal_split_inverts_geometric_mean() {
    let mut dex = setup();
    dex.new_liquidity(1, pair(), 100 * SCALE, 400 * SCALE).unwrap();
    // 200 shares at price 4: x = 200 / sqrt(4) = 100, y = 200 * sqrt(4) = 400.
    assert_eq!(
        dex.compute_xy_assets(1, pair(), 1, 1),
        Ok((100 * SCALE, 400 * SCALE, 200 * SCALE))
    );
    assert_eq!(
        dex.compute_xy_assets(1, pair(), 3, 1),
        Err(Error::PositionNotFound)
    );
}

#[test]
fn redeem_removes_entire_position_list() {
    let mut dex = setup();
    dex.new_liquidity(1, pair(), 100 * SCALE, 400 * SCALE).unwrap();
    dex.new_liquidity(1, pair(), 100 * SCALE, 400 * SCALE).unwrap();
    assert_eq!(dex.get_account_liquidity_pools(1, pair()).unwrap().len(), 2);

    dex.redeem_liquidity(1, pair(), 1, 1).unwrap();

    // Redeeming one lot removes the account's whole list for the pair,
    // not just the redeemed lot: that is this engine's stated behaviour.
    assert!(dex.get_account_liquidity_pools(1, pair()).is_none());
}

#[test]
fn pool_lookup_is_orientation_symmetric() {
    let mut dex = setup();
    dex.new_liquidity(1, pair(), 100 * SCALE, 400 * SCALE).unwrap();
    let turned = AssetPair { asset_x: 200, asset_y: 100 };
    let a = dex.get_liquidity_pool(pair()).unwrap();
    let b = dex.get_liquidity_pool(turned).unwrap();
    assert_eq!(a, b);
    // A further deposit through the swapped orientation lands in the same
    // pool and the same position list.
    dex.new_liquidity(1, turned, 400 * SCALE, 100 * SCALE).unwrap();
    let pool = dex.get_liquidity_pool(pair()).unwrap();
    assert_eq!(pool.asset_x_balance.into_inner(), 200 * SCALE);
    assert_eq!(pool.asset_y_balance.into_inner(), 800 * SCALE);
    assert_eq!(pool.price.into_inner(), 4 * SCALE);
    assert_eq!(dex.get_account_liquidity_pools(1, turned).unwrap().len(), 2);
}

#[test]
fn position_list_capacity_is_one_hundred() {
    let mut dex = setup();
    let mut i: u32 = 0;
    while i < 100 {
        dex.new_liquidity(1, pair(), SCALE, SCALE).unwrap();
        i += 1;
    }
    let lots = dex.get_account_liquidity_pools(1, pair()).unwrap();
    assert_eq!(lots.len(), 100);
    // Lot ids are strictly increasing integers starting at 1.
    let mut expect: u64 = 1;
    for lot in &lots {
        assert_eq!(lot.id, expect);
        expect += 1;
    }
    let held_before = dex.get_asset_balance(100, 1);
    // The 101st deposit lot fails, and leaves no partial effect behind.
    assert_eq!(
        dex.new_liquidity(1, pair(), SCALE, SCALE),
        Err(Error::CapacityExceeded)
    );
    assert_eq!(dex.get_asset_balance(100, 1), held_before);
    assert_eq!(dex.get_account_liquidity_pools(1, pair()).unwrap().len(), 100);
}

#[test]
fn balance_probe_is_idempotent() {
    let mut dex = setup();
    let first = dex.check_asset_balance(1, 100, 5 * SCALE);
    let second = dex.check_asset_balance(1, 100, 5 * SCALE);
    assert_eq!(first, second);
    assert!(first.is_ok());
    let broke_first = dex.check_asset_balance(7, 100, 5 * SCALE);
    let broke_second = dex.check_asset_balance(7, 100, 5 * SCALE);
    assert_eq!(broke_first, broke_second);
    assert_eq!(
        broke_first,
        Err(Error::InsufficientBalance { account: 7, asset: 100 })
    );
    // Probing changed no balance.
    assert_eq!(dex.get_asset_balance(100, 1), 1_000_000 * SCALE);
    // An actual transfer still works afterwards, on the same state.
    dex.transfer_asset(1, 100, 5 * SCALE, 2).unwrap();
    assert_eq!(dex.get_asset_balance(100, 2), 5 * SCALE);
}

#[test]
fn deposit_rejects_insufficient_balances_per_side() {
    let mut dex = setup();
    assert_eq!(
        dex.new_liquidity(7, pair(), SCALE, SCALE),
        Err(Error::InsufficientBalance { account: 7, asset: 100 })
    );
    dex.ledger.mint_into(100, 7, 10 * SCALE).unwrap();
    assert_eq!(
        dex.new_liquidity(7, pair(), SCALE, SCALE),
        Err(Error::InsufficientBalance { account: 7, asset: 200 })
    );
}

#[test]
fn deposit_of_zero_fails_with_cannot_be_zero() {
    let mut dex = setup();
    assert_eq!(
        dex.new_liquidity(1, pair(), 0, 400 * SCALE),
        Err(Error::CannotBeZero)
    );
    // Nothing moved.
    assert_eq!(dex.get_asset_balance(200, 999), 0);
}

#[test]
fn swap_without_pool_fails_and_restores_state() {
    let mut dex = setup();
    assert_eq!(
        dex.swap_exact_in_for_out(1, 100, 10 * SCALE, 200),
        Err(Error::PoolNotFound)
    );
    // The input transfer was rolled back.
    assert_eq!(dex.get_asset_balance(100, 1), 1_000_000 * SCALE);
    assert_eq!(dex.get_asset_balance(100, 999), 0);
    assert_eq!(
        dex.swap_in_for_exact_out(1, 200, 10 * SCALE, 100),
        Err(Error::InsufficientBalance { account: 999, asset: 200 })
    );
}

#[test]
fn redeem_unknown_lot_fails_with_position_not_found() {
    let mut dex = setup();
    dex.new_liquidity(1, pair(), 100 * SCALE, 400 * SCALE).unwrap();
    assert_eq!(
        dex.redeem_liquidity(1, pair(), 1, 42),
        Err(Error::PositionNotFound)
    );
    assert_eq!(
        dex.redeem_liquidity(2, pair(), 1, 1),
        Err(Error::PositionNotFound)
    );
    // The pool itself must exist first.
    let other = AssetPair { asset_x: 5, asset_y: 6 };
    assert_eq!(dex.redeem_liquidity(1, other, 1, 1), Err(Error::PoolNotFound));
}

#[test]
fn ledger_rejects_bad_mints_and_transfers() {
    let mut dex = setup();
    // Minting an asset that was never created fails.
    assert_eq!(dex.ledger.mint_into(99, 1, 5), Err(Error::MintFailed));
    // Creating a taken identifier fails.
    assert_eq!(dex.ledger.create(100, 999, true, 1), Err(Error::MintFailed));
    // Moving more than the sender holds fails.
    assert_eq!(
        dex.ledger.transfer(100, 2, 1, SCALE),
        Err(Error::TransferFailed)
    );
}

#[test]
fn transfer_asset_moves_balance_once() {
    let mut dex = setup();
    dex.transfer_asset(1, 100, 7 * SCALE, 2).unwrap();
    assert_eq!(dex.get_asset_balance(100, 1), 999_993 * SCALE);
    assert_eq!(dex.get_asset_balance(100, 2), 7 * SCALE);
    assert_eq!(
        dex.transfer_asset(2, 100, 8 * SCALE, 1),
        Err(Error::InsufficientBalance { account: 2, asset: 100 })
    );
}

#[test]
fn dex_account_is_the_configured_custodian() {
    let dex = Dex::new(424_242);
    assert_eq!(dex.get_dex_account(), 424_242);
}
