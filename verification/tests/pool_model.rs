use swaps::fixed::BASE;
use swaps::pool::{
    asset_precedes, pool_account_id, pool_shares_id, Account, Asset, Pool, PoolRegistry,
    PoolStatus, ScoringRule,
};
use swaps::rikiddo::{EmaMarketVolume, FeeSigmoid, RikiddoSigmoidMV};
use swaps::weights::WeightInfo;

#[test]
fn asset_order_by_kind_then_fields() {
    assert!(asset_precedes(&Asset::Ztg, &Asset::CategoricalOutcome(0, 0)));
    assert!(asset_precedes(&Asset::CategoricalOutcome(0, 0), &Asset::CategoricalOutcome(0, 1)));
    assert!(asset_precedes(&Asset::CategoricalOutcome(0, 9), &Asset::CategoricalOutcome(1, 0)));
    assert!(asset_precedes(&Asset::CategoricalOutcome(7, 7), &Asset::PoolShare(0)));
    assert!(asset_precedes(&Asset::PoolShare(0), &Asset::PoolShare(1)));
    assert!(!asset_precedes(&Asset::PoolShare(1), &Asset::PoolShare(0)));
    assert!(!asset_precedes(&Asset::Ztg, &Asset::Ztg));
}

#[test]
fn pool_ids_map_to_accounts_and_share_assets() {
    assert_eq!(pool_account_id(3), Account::PoolAccount(3));
    assert_eq!(pool_shares_id(3), Asset::PoolShare(3));
}

fn cpmm_pool() -> Pool {
    Pool {
        assets: vec![
            Asset::Ztg,
            Asset::CategoricalOutcome(0, 0),
            Asset::CategoricalOutcome(0, 1),
        ],
        base_asset: Asset::Ztg,
        scoring_rule: ScoringRule::CPMM,
        status: PoolStatus::Active,
        swap_fee: 0,
        total_weight: 4 * BASE,
        weights: Some(vec![2 * BASE, BASE, BASE]),
        rikiddo: None,
    }
}

#[test]
fn binary_search_finds_each_asset() {
    let p = cpmm_pool();
    assert_eq!(p.asset_index(&Asset::Ztg), Some(0));
    assert_eq!(p.asset_index(&Asset::CategoricalOutcome(0, 0)), Some(1));
    assert_eq!(p.asset_index(&Asset::CategoricalOutcome(0, 1)), Some(2));
    assert_eq!(p.asset_index(&Asset::CategoricalOutcome(0, 2)), None);
    assert_eq!(p.asset_index(&Asset::PoolShare(0)), None);
}

#[test]
fn bound_means_member_with_weights() {
    let p = cpmm_pool();
    assert!(p.bound(&Asset::Ztg));
    assert!(p.bound(&Asset::CategoricalOutcome(0, 1)));
    assert!(!p.bound(&Asset::CategoricalOutcome(9, 9)));
    assert_eq!(p.weight_for(&Asset::Ztg), 2 * BASE);
    assert_eq!(p.weight_for(&Asset::CategoricalOutcome(0, 1)), BASE);
}

#[test]
fn rikiddo_pool_has_no_bound_assets() {
    let p = Pool {
        assets: vec![Asset::Ztg, Asset::CategoricalOutcome(0, 0)],
        base_asset: Asset::Ztg,
        scoring_rule: ScoringRule::RikiddoSigmoidFeeMarketEma,
        status: PoolStatus::Active,
        swap_fee: 0,
        total_weight: 0,
        weights: None,
        rikiddo: Some(RikiddoSigmoidMV {
            config: FeeSigmoid { m: BASE / 10, n: BASE, initial_fee: BASE / 10 },
            ma: EmaMarketVolume { smoothing: BASE / 10, ema: 0 },
        }),
    };
    assert!(!p.bound(&Asset::Ztg));
    assert_eq!(p.asset_index(&Asset::Ztg), Some(0));
}

#[test]
fn registry_creates_looks_up_and_closes() {
    let mut reg = PoolRegistry::new();
    assert_eq!(reg.count(), 0);
    let id = reg.create_pool(
        vec![Asset::Ztg, Asset::CategoricalOutcome(0, 0)],
        Asset::Ztg,
        ScoringRule::CPMM,
        0,
        Some(vec![BASE, BASE]),
        None,
    );
    assert_eq!(id, 0);
    assert_eq!(reg.count(), 1);
    {
        let p = reg.pool_by_id(0).unwrap();
        assert_eq!(p.status, PoolStatus::Active);
        assert_eq!(p.total_weight, 2 * BASE);
        assert_eq!(p.base_asset, Asset::Ztg);
        assert_eq!(p.scoring_rule, ScoringRule::CPMM);
    }
    assert!(reg.pool_by_id(1).is_none());
    reg.close_pool(0);
    assert_eq!(reg.pool_by_id(0).unwrap().status, PoolStatus::Closed);
}

#[test]
fn weight_table_sums_and_saturates() {
    let w = WeightInfo { db_read: 25_000_000, db_write: 100_000_000 };
    assert_eq!(w.call_weight(86_980_000, 3, 3), 86_980_000 + 75_000_000 + 300_000_000);
    assert_eq!(w.call_weight(u64::MAX, 1, 1), u64::MAX);
    let big = WeightInfo { db_read: u64::MAX, db_write: 1 };
    assert_eq!(big.call_weight(0, 2, 0), u64::MAX);
}
