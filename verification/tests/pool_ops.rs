use swaps::fixed::BASE;
use swaps::ledger::Ledger;
use swaps::ops::{
    pool, pool_exit_with_exact_amount, pool_join_with_exact_amount, Direction, GivenAmount,
};
use swaps::pool::{Account, Asset, Pool, PoolStatus, ScoringRule};
use swaps::Error;

const POOL_ID: u64 = 0;
const LP: Account = Account::User(1);
const TRADER: Account = Account::User(2);
const A: Asset = Asset::Ztg;
const B_ASSET: Asset = Asset::CategoricalOutcome(0, 0);

fn cpmm_pool() -> Pool {
    Pool {
        assets: vec![A, B_ASSET],
        base_asset: A,
        scoring_rule: ScoringRule::CPMM,
        status: PoolStatus::Active,
        swap_fee: 0,
        total_weight: 2 * BASE,
        weights: Some(vec![BASE, BASE]),
        rikiddo: None,
    }
}

fn funded_ledger() -> Ledger {
    let mut l = Ledger::new();
    l.deposit(A, &Account::PoolAccount(POOL_ID), 100 * BASE).unwrap();
    l.deposit(B_ASSET, &Account::PoolAccount(POOL_ID), 100 * BASE).unwrap();
    l.deposit(Asset::PoolShare(POOL_ID), &LP, 100 * BASE).unwrap();
    l.deposit(A, &TRADER, 50 * BASE).unwrap();
    l.deposit(B_ASSET, &TRADER, 50 * BASE).unwrap();
    l
}

#[test]
fn join_with_exact_asset_amount_mints_shares() {
    let p = cpmm_pool();
    let mut l = funded_ledger();
    let ev = pool_join_with_exact_amount(
        &p,
        &mut l,
        POOL_ID,
        TRADER,
        A,
        GivenAmount::AssetAmount(10 * BASE),
        0,
    )
    .unwrap();
    assert_eq!(ev.transferred, 10 * BASE);
    // sqrt(1.1) * 100 - 100 pool shares.
    assert_eq!(ev.pool_amount, 48_808_848_100);
    assert_eq!(l.free_balance(A, &TRADER), 40 * BASE);
    assert_eq!(l.free_balance(A, &Account::PoolAccount(POOL_ID)), 110 * BASE);
    assert_eq!(l.free_balance(Asset::PoolShare(POOL_ID), &TRADER), 48_808_848_100);
    assert_eq!(l.total_issuance(Asset::PoolShare(POOL_ID)), 100 * BASE + 48_808_848_100);
}

#[test]
fn join_on_inactive_pool_is_rejected() {
    let mut p = cpmm_pool();
    p.status = PoolStatus::Closed;
    let mut l = funded_ledger();
    let r = pool_join_with_exact_amount(
        &p,
        &mut l,
        POOL_ID,
        TRADER,
        A,
        GivenAmount::AssetAmount(10 * BASE),
        0,
    );
    assert_eq!(r.unwrap_err(), Error::PoolInactive);
    assert_eq!(l.free_balance(A, &TRADER), 50 * BASE);
}

#[test]
fn join_with_unbound_asset_is_rejected() {
    let p = cpmm_pool();
    let mut l = funded_ledger();
    let r = pool_join_with_exact_amount(
        &p,
        &mut l,
        POOL_ID,
        TRADER,
        Asset::CategoricalOutcome(9, 9),
        GivenAmount::AssetAmount(10 * BASE),
        0,
    );
    assert_eq!(r.unwrap_err(), Error::AssetNotBound);
}

#[test]
fn join_with_zero_amount_is_math_approximation() {
    let p = cpmm_pool();
    let mut l = funded_ledger();
    let r = pool_join_with_exact_amount(
        &p,
        &mut l,
        POOL_ID,
        TRADER,
        A,
        GivenAmount::AssetAmount(0),
        0,
    );
    assert_eq!(r.unwrap_err(), Error::MathApproximation);
}

#[test]
fn exit_with_exact_asset_amount_burns_shares() {
    let p = cpmm_pool();
    let mut l = funded_ledger();
    let ev = pool_exit_with_exact_amount(
        &p,
        &mut l,
        POOL_ID,
        LP,
        A,
        GivenAmount::AssetAmount(10 * BASE),
        0,
    )
    .unwrap();
    assert_eq!(ev.transferred, 10 * BASE);
    assert_eq!(ev.pool_amount, 51_316_701_900);
    assert_eq!(l.free_balance(A, &LP), 10 * BASE);
    assert_eq!(l.free_balance(A, &Account::PoolAccount(POOL_ID)), 90 * BASE);
    assert_eq!(l.free_balance(Asset::PoolShare(POOL_ID), &LP), 100 * BASE - 51_316_701_900);
    assert_eq!(l.total_issuance(Asset::PoolShare(POOL_ID)), 100 * BASE - 51_316_701_900);
}

#[test]
fn exit_without_shares_is_insufficient() {
    let p = cpmm_pool();
    let mut l = funded_ledger();
    let r = pool_exit_with_exact_amount(
        &p,
        &mut l,
        POOL_ID,
        TRADER,
        A,
        GivenAmount::AssetAmount(10 * BASE),
        0,
    );
    assert_eq!(r.unwrap_err(), Error::InsufficientBalance);
    assert_eq!(l.free_balance(A, &TRADER), 50 * BASE);
}

#[test]
fn join_then_exit_same_pool_amount_never_gains() {
    let p = cpmm_pool();
    let mut l = funded_ledger();
    l.deposit(A, &TRADER, 150 * BASE).unwrap();
    let before = l.free_balance(A, &TRADER);
    let join = pool_join_with_exact_amount(
        &p,
        &mut l,
        POOL_ID,
        TRADER,
        A,
        GivenAmount::PoolSharesAmount(5 * BASE),
        0,
    )
    .unwrap();
    // (1.05^2 - 1) * 100 = 10.25 exactly.
    assert_eq!(join.transferred, 102_500_000_000);
    let exit = pool_exit_with_exact_amount(
        &p,
        &mut l,
        POOL_ID,
        TRADER,
        A,
        GivenAmount::PoolSharesAmount(5 * BASE),
        0,
    )
    .unwrap();
    assert_eq!(exit.transferred, 102_499_999_954);
    let after = l.free_balance(A, &TRADER);
    assert!(after <= before);
    assert_eq!(l.free_balance(Asset::PoolShare(POOL_ID), &TRADER), 0);
}

#[test]
fn join_without_funds_is_insufficient_and_changes_nothing() {
    let p = cpmm_pool();
    let mut l = funded_ledger();
    let r = pool_join_with_exact_amount(
        &p,
        &mut l,
        POOL_ID,
        Account::User(77),
        A,
        GivenAmount::AssetAmount(10 * BASE),
        0,
    );
    assert_eq!(r.unwrap_err(), Error::InsufficientBalance);
    assert_eq!(l.free_balance(A, &Account::PoolAccount(POOL_ID)), 100 * BASE);
    assert_eq!(l.total_issuance(Asset::PoolShare(POOL_ID)), 100 * BASE);
}

#[test]
fn exit_larger_than_reserve_is_error_and_changes_nothing() {
    let p = cpmm_pool();
    let mut l = funded_ledger();
    let r = pool_exit_with_exact_amount(
        &p,
        &mut l,
        POOL_ID,
        LP,
        A,
        GivenAmount::AssetAmount(200 * BASE),
        0,
    );
    assert!(r.is_err());
    assert_eq!(l.free_balance(A, &Account::PoolAccount(POOL_ID)), 100 * BASE);
    assert_eq!(l.free_balance(Asset::PoolShare(POOL_ID), &LP), 100 * BASE);
}

#[test]
fn symmetric_join_is_proportional() {
    let p = cpmm_pool();
    let mut l = funded_ledger();
    let ev = pool(
        &p,
        &mut l,
        POOL_ID,
        TRADER,
        10 * BASE,
        vec![u128::MAX, u128::MAX],
        Direction::Join,
        0,
    )
    .unwrap();
    // ratio = 10 / 100; each asset moves 10% of its reserve.
    assert_eq!(ev.transferred, vec![10 * BASE, 10 * BASE]);
    assert_eq!(ev.pool_amount, 10 * BASE);
    assert_eq!(l.free_balance(A, &TRADER), 40 * BASE);
    assert_eq!(l.free_balance(B_ASSET, &TRADER), 40 * BASE);
    assert_eq!(l.free_balance(A, &Account::PoolAccount(POOL_ID)), 110 * BASE);
    assert_eq!(l.free_balance(B_ASSET, &Account::PoolAccount(POOL_ID)), 110 * BASE);
    assert_eq!(l.free_balance(Asset::PoolShare(POOL_ID), &TRADER), 10 * BASE);
}

#[test]
fn symmetric_exit_deducts_fee() {
    let p = cpmm_pool();
    let mut l = funded_ledger();
    let ev = pool(
        &p,
        &mut l,
        POOL_ID,
        LP,
        10 * BASE,
        vec![0, 0],
        Direction::Exit,
        BASE / 100,
    )
    .unwrap();
    // 10% of reserves, minus the 1% exit fee.
    assert_eq!(ev.transferred, vec![99_000_000_000, 99_000_000_000]);
    assert_eq!(l.free_balance(A, &LP), 99_000_000_000);
    assert_eq!(l.free_balance(Asset::PoolShare(POOL_ID), &LP), 90 * BASE);
}

#[test]
fn symmetric_join_zero_ratio_aborts() {
    let p = cpmm_pool();
    let mut l = funded_ledger();
    let r = pool(
        &p,
        &mut l,
        POOL_ID,
        TRADER,
        1,
        vec![u128::MAX, u128::MAX],
        Direction::Join,
        0,
    );
    assert_eq!(r.unwrap_err(), Error::MathApproximation);
    assert_eq!(l.free_balance(A, &TRADER), 50 * BASE);
}

#[test]
fn symmetric_join_zero_single_amount_aborts_all() {
    let p = cpmm_pool();
    let mut l = Ledger::new();
    // One reserve so small that its proportional share rounds to zero.
    l.deposit(A, &Account::PoolAccount(POOL_ID), 100 * BASE).unwrap();
    l.deposit(B_ASSET, &Account::PoolAccount(POOL_ID), 1).unwrap();
    l.deposit(Asset::PoolShare(POOL_ID), &LP, 100 * BASE).unwrap();
    l.deposit(A, &TRADER, 50 * BASE).unwrap();
    l.deposit(B_ASSET, &TRADER, 50 * BASE).unwrap();
    let r = pool(
        &p,
        &mut l,
        POOL_ID,
        TRADER,
        10 * BASE,
        vec![u128::MAX, u128::MAX],
        Direction::Join,
        0,
    );
    assert_eq!(r.unwrap_err(), Error::MathApproximation);
    assert_eq!(l.free_balance(A, &TRADER), 50 * BASE);
    assert_eq!(l.free_balance(A, &Account::PoolAccount(POOL_ID)), 100 * BASE);
}

#[test]
fn symmetric_join_wrong_bounds_arity_is_rejected() {
    let p = cpmm_pool();
    let mut l = funded_ledger();
    let r = pool(
        &p,
        &mut l,
        POOL_ID,
        TRADER,
        10 * BASE,
        vec![u128::MAX],
        Direction::Join,
        0,
    );
    assert_eq!(r.unwrap_err(), Error::ProvidedValuesLenMustEqualAssetsLen);
}

#[test]
fn symmetric_join_on_rikiddo_pool_is_invalid_scoring_rule() {
    let mut p = cpmm_pool();
    p.scoring_rule = ScoringRule::RikiddoSigmoidFeeMarketEma;
    p.weights = None;
    let mut l = funded_ledger();
    let r = pool(
        &p,
        &mut l,
        POOL_ID,
        TRADER,
        10 * BASE,
        vec![u128::MAX, u128::MAX],
        Direction::Join,
        0,
    );
    assert_eq!(r.unwrap_err(), Error::InvalidScoringRule);
}
