use swaps::fixed::BASE;
use swaps::ledger::Ledger;
use swaps::ops::{get_spot_price, swap_exact_amount, SwapGiven};
use swaps::pool::{Account, Asset, Pool, PoolStatus, ScoringRule};
use swaps::rikiddo::{sigmoid_fee, EmaMarketVolume, FeeSigmoid, RikiddoSigmoidMV};
use swaps::Error;

const POOL_ID: u64 = 7;
const TRADER: Account = Account::User(1);
const HOLDER: Account = Account::User(9);
const OUT_A: Asset = Asset::CategoricalOutcome(0, 0);
const OUT_B: Asset = Asset::CategoricalOutcome(0, 1);

fn rikiddo_state() -> RikiddoSigmoidMV {
    RikiddoSigmoidMV {
        config: FeeSigmoid { m: BASE / 10, n: BASE, initial_fee: BASE / 10 },
        ma: EmaMarketVolume { smoothing: BASE / 10, ema: 0 },
    }
}

fn rikiddo_pool() -> Pool {
    Pool {
        assets: vec![Asset::Ztg, OUT_A, OUT_B],
        base_asset: Asset::Ztg,
        scoring_rule: ScoringRule::RikiddoSigmoidFeeMarketEma,
        status: PoolStatus::Active,
        swap_fee: 0,
        total_weight: 0,
        weights: None,
        rikiddo: Some(rikiddo_state()),
    }
}

fn funded_ledger() -> Ledger {
    let mut l = Ledger::new();
    l.deposit(Asset::Ztg, &Account::PoolAccount(POOL_ID), 100 * BASE).unwrap();
    l.deposit(OUT_A, &HOLDER, 10 * BASE).unwrap();
    l.deposit(OUT_B, &HOLDER, 10 * BASE).unwrap();
    l.deposit(Asset::Ztg, &TRADER, 50 * BASE).unwrap();
    l
}

#[test]
fn ema_update_mixes_by_smoothing() {
    let mut ma = EmaMarketVolume { smoothing: BASE / 10, ema: 0 };
    ma.update_volume(10 * BASE).unwrap();
    assert_eq!(ma.ema, BASE);
    ma.update_volume(10 * BASE).unwrap();
    // 0.1 * 10 + 0.9 * 1 = 1.9
    assert_eq!(ma.ema, 19_000_000_000);
    ma.clear();
    assert_eq!(ma.ema, 0);
}

#[test]
fn fee_at_zero_volume_is_the_initial_fee() {
    let rik = rikiddo_state();
    assert_eq!(rik.fee(), Ok(BASE / 10));
}

#[test]
fn fee_responds_to_recorded_volume() {
    let mut rik = rikiddo_state();
    let fee_before = rik.fee().unwrap();
    rik.update_volume(10 * BASE).unwrap();
    assert_eq!(rik.ma.ema, BASE);
    let fee_after = rik.fee().unwrap();
    // initial + 0.1 / sqrt(1 + 1) = 0.1 + 0.0707...
    assert!(fee_after > fee_before);
    assert!(fee_after > BASE / 10 + 6 * BASE / 100);
    assert!(fee_after < BASE / 10 + 8 * BASE / 100);
}

#[test]
fn sigmoid_fee_with_given_root_is_exact() {
    let cfg = FeeSigmoid { m: BASE / 10, n: BASE, initial_fee: BASE / 10 };
    // m * r / root = 0.1 * 1 / 2 = 0.05
    assert_eq!(sigmoid_fee(cfg, BASE, 2 * BASE), Ok(BASE / 10 + BASE / 20));
    assert_eq!(sigmoid_fee(cfg, BASE, 0), Err(Error::ArithmeticError));
}

#[test]
fn cost_of_symmetric_balances_reflects_logarithm() {
    let rik = rikiddo_state();
    // fee = 0.1, b = 0.1 * 20 = 2, cost = 2 * ln(2 * e^5) = 10 + 2 ln 2.
    let c = rik.cost(&vec![10 * BASE, 10 * BASE]).unwrap();
    assert!(c > 113 * BASE / 10);
    assert!(c < 115 * BASE / 10);
}

#[test]
fn prices_order_by_balance_and_sum_to_one() {
    let rik = rikiddo_state();
    let q = vec![10 * BASE, 20 * BASE];
    let p_small = rik.price(&q, 10 * BASE).unwrap();
    let p_large = rik.price(&q, 20 * BASE).unwrap();
    assert!(p_large > p_small);
    let all = rik.all_prices(&q).unwrap();
    assert_eq!(all.len(), 2);
    assert_eq!(all[0], p_small);
    assert_eq!(all[1], p_large);
    let sum = p_small + p_large;
    assert!(sum > 99 * BASE / 100);
    assert!(sum < 101 * BASE / 100);
}

#[test]
fn price_of_absent_balance_is_rejected() {
    let rik = rikiddo_state();
    assert_eq!(rik.price(&vec![10 * BASE], 3 * BASE), Err(Error::AssetNotInPool));
}

#[test]
fn buying_an_outcome_with_base_mints_it() {
    let mut p = rikiddo_pool();
    let mut l = funded_ledger();
    let before = get_spot_price(&p, &l, POOL_ID, Asset::Ztg, OUT_A, true).unwrap();
    // Equal issuances: the outcome is priced at one half.
    assert!(before > 49 * BASE / 100);
    assert!(before < 51 * BASE / 100);
    let ev = swap_exact_amount(
        &mut p,
        &mut l,
        POOL_ID,
        TRADER,
        Asset::Ztg,
        OUT_A,
        SwapGiven::AmountIn(BASE),
        None,
        None,
    )
    .unwrap();
    assert_eq!(ev.asset_amount_in, BASE);
    assert!(ev.asset_amount_out > 0);
    assert_eq!(l.free_balance(Asset::Ztg, &TRADER), 49 * BASE);
    assert_eq!(l.free_balance(Asset::Ztg, &Account::PoolAccount(POOL_ID)), 101 * BASE);
    assert_eq!(l.free_balance(OUT_A, &TRADER), ev.asset_amount_out);
    assert_eq!(l.total_issuance(OUT_A), 10 * BASE + ev.asset_amount_out);
    // The volume average now reflects the base-asset trade size.
    assert_eq!(p.rikiddo.unwrap().ma.ema, BASE / 10);
    // A second identical trade pays a different fee than the first.
    let fee_now = p.rikiddo.unwrap().fee().unwrap();
    assert!(fee_now > BASE / 10);
    let after = get_spot_price(&p, &l, POOL_ID, Asset::Ztg, OUT_A, true).unwrap();
    assert!(after > before);
}

#[test]
fn selling_an_outcome_for_base_burns_it() {
    let mut p = rikiddo_pool();
    let mut l = funded_ledger();
    let ev = swap_exact_amount(
        &mut p,
        &mut l,
        POOL_ID,
        HOLDER,
        OUT_A,
        Asset::Ztg,
        SwapGiven::AmountIn(BASE),
        None,
        None,
    )
    .unwrap();
    assert_eq!(ev.asset_amount_in, BASE);
    assert!(ev.asset_amount_out > 0);
    assert_eq!(l.free_balance(OUT_A, &HOLDER), 9 * BASE);
    assert_eq!(l.total_issuance(OUT_A), 9 * BASE);
    assert_eq!(l.free_balance(Asset::Ztg, &HOLDER), ev.asset_amount_out);
    assert_eq!(
        l.free_balance(Asset::Ztg, &Account::PoolAccount(POOL_ID)),
        100 * BASE - ev.asset_amount_out
    );
    // The average is a tenth of the base-asset volume, rounded half up.
    assert_eq!(p.rikiddo.unwrap().ma.ema, (ev.asset_amount_out + 5) / 10);
}

#[test]
fn trade_between_two_outcomes_is_unsupported() {
    let mut p = rikiddo_pool();
    let mut l = funded_ledger();
    let r = swap_exact_amount(
        &mut p,
        &mut l,
        POOL_ID,
        HOLDER,
        OUT_A,
        OUT_B,
        SwapGiven::AmountIn(BASE),
        None,
        None,
    );
    assert_eq!(r.unwrap_err(), Error::UnsupportedTrade);
    assert_eq!(l.free_balance(OUT_A, &HOLDER), 10 * BASE);
    assert_eq!(l.free_balance(OUT_B, &HOLDER), 10 * BASE);
}

#[test]
fn rikiddo_swap_respects_max_price() {
    let mut p = rikiddo_pool();
    let mut l = funded_ledger();
    let r = swap_exact_amount(
        &mut p,
        &mut l,
        POOL_ID,
        TRADER,
        Asset::Ztg,
        OUT_A,
        SwapGiven::AmountIn(BASE),
        None,
        Some(1),
    );
    assert_eq!(r.unwrap_err(), Error::BadLimitPrice);
    assert_eq!(l.free_balance(Asset::Ztg, &TRADER), 50 * BASE);
}

#[test]
fn spot_price_between_outcomes_is_unsupported() {
    let p = rikiddo_pool();
    let l = funded_ledger();
    assert_eq!(
        get_spot_price(&p, &l, POOL_ID, OUT_A, OUT_B, true),
        Err(Error::UnsupportedTrade)
    );
}
