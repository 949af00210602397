use swaps::fixed::BASE;
use swaps::ledger::Ledger;
use swaps::ops::{get_spot_price, swap_exact_amount, SwapGiven};
use swaps::pool::{Account, Asset, Pool, PoolStatus, ScoringRule};
use swaps::Error;

const POOL_ID: u64 = 0;
const TRADER: Account = Account::User(2);
const A: Asset = Asset::Ztg;
const B_ASSET: Asset = Asset::CategoricalOutcome(0, 0);

fn cpmm_pool() -> Pool {
    Pool {
        assets: vec![A, B_ASSET],
        base_asset: A,
        scoring_rule: ScoringRule::CPMM,
        status: PoolStatus::Active,
        swap_fee: 0,
        total_weight: 2 * BASE,
        weights: Some(vec![BASE, BASE]),
        rikiddo: None,
    }
}

fn funded_ledger() -> Ledger {
    let mut l = Ledger::new();
    l.deposit(A, &Account::PoolAccount(POOL_ID), 100 * BASE).unwrap();
    l.deposit(B_ASSET, &Account::PoolAccount(POOL_ID), 100 * BASE).unwrap();
    l.deposit(A, &TRADER, 50 * BASE).unwrap();
    l.deposit(B_ASSET, &TRADER, 50 * BASE).unwrap();
    l
}

#[test]
fn exact_in_swap_follows_constant_product() {
    let mut p = cpmm_pool();
    let mut l = funded_ledger();
    let before = get_spot_price(&p, &l, POOL_ID, A, B_ASSET, true).unwrap();
    assert_eq!(before, BASE);
    let ev = swap_exact_amount(
        &mut p,
        &mut l,
        POOL_ID,
        TRADER,
        A,
        B_ASSET,
        SwapGiven::AmountIn(10 * BASE),
        None,
        None,
    )
    .unwrap();
    assert_eq!(ev.asset_amount_in, 10 * BASE);
    // 100 - (100 * 100) / 110 = 9.0909...
    assert_eq!(ev.asset_amount_out, 90_909_090_900);
    assert_eq!(l.free_balance(A, &TRADER), 40 * BASE);
    assert_eq!(l.free_balance(B_ASSET, &TRADER), 50 * BASE + 90_909_090_900);
    assert_eq!(l.free_balance(A, &Account::PoolAccount(POOL_ID)), 110 * BASE);
    assert_eq!(
        l.free_balance(B_ASSET, &Account::PoolAccount(POOL_ID)),
        100 * BASE - 90_909_090_900
    );
    let after = get_spot_price(&p, &l, POOL_ID, A, B_ASSET, true).unwrap();
    // 1.0 -> 1.21: the spot price may never move in the trader's favor.
    assert_eq!(after, 12_100_000_000);
    assert!(after >= before);
}

#[test]
fn exact_out_swap_solves_for_input() {
    let mut p = cpmm_pool();
    let mut l = funded_ledger();
    let ev = swap_exact_amount(
        &mut p,
        &mut l,
        POOL_ID,
        TRADER,
        A,
        B_ASSET,
        SwapGiven::AmountOut(90_909_090_900),
        None,
        None,
    )
    .unwrap();
    assert_eq!(ev.asset_amount_in, 10 * BASE);
    assert_eq!(ev.asset_amount_out, 90_909_090_900);
}

#[test]
fn swap_with_asset_not_in_pool_changes_nothing() {
    let mut p = cpmm_pool();
    let mut l = funded_ledger();
    let r = swap_exact_amount(
        &mut p,
        &mut l,
        POOL_ID,
        TRADER,
        Asset::CategoricalOutcome(9, 9),
        B_ASSET,
        SwapGiven::AmountIn(10 * BASE),
        None,
        None,
    );
    assert_eq!(r.unwrap_err(), Error::AssetNotInPool);
    let r2 = swap_exact_amount(
        &mut p,
        &mut l,
        POOL_ID,
        TRADER,
        A,
        Asset::CategoricalOutcome(9, 9),
        SwapGiven::AmountIn(10 * BASE),
        None,
        None,
    );
    assert_eq!(r2.unwrap_err(), Error::AssetNotInPool);
    assert_eq!(l.free_balance(A, &TRADER), 50 * BASE);
    assert_eq!(l.free_balance(B_ASSET, &TRADER), 50 * BASE);
    assert_eq!(l.free_balance(A, &Account::PoolAccount(POOL_ID)), 100 * BASE);
    assert_eq!(l.free_balance(B_ASSET, &Account::PoolAccount(POOL_ID)), 100 * BASE);
}

#[test]
fn swap_on_closed_pool_is_rejected() {
    let mut p = cpmm_pool();
    p.status = PoolStatus::Closed;
    let mut l = funded_ledger();
    let r = swap_exact_amount(
        &mut p,
        &mut l,
        POOL_ID,
        TRADER,
        A,
        B_ASSET,
        SwapGiven::AmountIn(10 * BASE),
        None,
        None,
    );
    assert_eq!(r.unwrap_err(), Error::PoolInactive);
}

#[test]
fn max_price_below_spot_rejects_upfront() {
    let mut p = cpmm_pool();
    let mut l = funded_ledger();
    let r = swap_exact_amount(
        &mut p,
        &mut l,
        POOL_ID,
        TRADER,
        A,
        B_ASSET,
        SwapGiven::AmountIn(10 * BASE),
        None,
        Some(BASE / 2),
    );
    assert_eq!(r.unwrap_err(), Error::BadLimitPrice);
    assert_eq!(l.free_balance(A, &TRADER), 50 * BASE);
}

#[test]
fn max_price_between_before_and_after_rejects_after_computation() {
    let mut p = cpmm_pool();
    let mut l = funded_ledger();
    // Before: 1.0; after would be 1.21.
    let r = swap_exact_amount(
        &mut p,
        &mut l,
        POOL_ID,
        TRADER,
        A,
        B_ASSET,
        SwapGiven::AmountIn(10 * BASE),
        None,
        Some(11_000_000_000),
    );
    assert_eq!(r.unwrap_err(), Error::BadLimitPrice);
    assert_eq!(l.free_balance(A, &TRADER), 50 * BASE);
    assert_eq!(l.free_balance(A, &Account::PoolAccount(POOL_ID)), 100 * BASE);
}

#[test]
fn zero_amount_swap_is_math_approximation() {
    let mut p = cpmm_pool();
    let mut l = funded_ledger();
    let r = swap_exact_amount(
        &mut p,
        &mut l,
        POOL_ID,
        TRADER,
        A,
        B_ASSET,
        SwapGiven::AmountIn(0),
        None,
        None,
    );
    assert_eq!(r.unwrap_err(), Error::MathApproximation);
}

#[test]
fn swap_without_funds_is_insufficient_and_changes_nothing() {
    let mut p = cpmm_pool();
    let mut l = funded_ledger();
    let r = swap_exact_amount(
        &mut p,
        &mut l,
        POOL_ID,
        Account::User(77),
        A,
        B_ASSET,
        SwapGiven::AmountIn(10 * BASE),
        None,
        None,
    );
    assert_eq!(r.unwrap_err(), Error::InsufficientBalance);
    assert_eq!(l.free_balance(A, &Account::PoolAccount(POOL_ID)), 100 * BASE);
    assert_eq!(l.free_balance(B_ASSET, &Account::PoolAccount(POOL_ID)), 100 * BASE);
}

#[test]
fn swap_of_an_asset_for_itself_charges_the_spread() {
    let mut p = cpmm_pool();
    let mut l = funded_ledger();
    let ev = swap_exact_amount(
        &mut p,
        &mut l,
        POOL_ID,
        TRADER,
        A,
        A,
        SwapGiven::AmountIn(10 * BASE),
        None,
        None,
    )
    .unwrap();
    // Both legs run against the same reserve: the trader pays the full
    // constant-product spread for a round trip in one asset.
    assert_eq!(ev.asset_amount_out, 90_909_090_900);
    assert_eq!(l.free_balance(A, &TRADER), 40 * BASE + 90_909_090_900);
    assert_eq!(
        l.free_balance(A, &Account::PoolAccount(POOL_ID)),
        110 * BASE - 90_909_090_900
    );
}

#[test]
fn spot_price_without_fees_drops_fee_scale() {
    let mut p = cpmm_pool();
    p.swap_fee = BASE / 2;
    let l = funded_ledger();
    assert_eq!(get_spot_price(&p, &l, POOL_ID, A, B_ASSET, true), Ok(2 * BASE));
    assert_eq!(get_spot_price(&p, &l, POOL_ID, A, B_ASSET, false), Ok(BASE));
}

#[test]
fn spot_price_of_unknown_asset_is_error() {
    let p = cpmm_pool();
    let l = funded_ledger();
    assert_eq!(
        get_spot_price(&p, &l, POOL_ID, Asset::CategoricalOutcome(9, 9), B_ASSET, true),
        Err(Error::AssetNotInPool)
    );
}
