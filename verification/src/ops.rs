//! The pool operation orchestrators.
//!
//! Each operation validates the pool state, delegates the amount
//! computation to the active scoring rule, and only then performs the
//! balance transfers and share mint / burn through the ledger — so a
//! failure anywhere leaves every balance exactly as it was, and a success
//! applies all effects as a unit and returns the structured event record.
//! The caller owns the event sink and any post-commit bookkeeping; both
//! consume the returned record.

use vstd::prelude::*;
use vstd::assert_seqs_equal;

use crate::Error;
use crate::events::{CommonPoolEventParams, PoolAssetEvent, PoolAssetsEvent, SwapEvent};
use crate::fixed::{bdiv, bdiv_spec, bmul, bmul_spec, check_add, check_sub, check_sub_spec, BASE};
use crate::ledger::Ledger;
use crate::math::{
    calc_in_given_out, calc_in_given_out_spec, calc_out_given_in, calc_out_given_in_spec,
    calc_pool_in_given_single_out, calc_pool_in_given_single_out_spec,
    calc_pool_out_given_single_in, calc_pool_out_given_single_in_spec,
    calc_single_in_given_pool_out, calc_single_in_given_pool_out_spec,
    calc_single_out_given_pool_in, calc_single_out_given_pool_in_spec, calc_spot_price,
    calc_spot_price_spec,
};
use crate::rikiddo::{
    bdiv_val, bmul_val, ema_update_spec, fee_outcome, price_outcome, price_val,
    EmaMarketVolume, RikiddoSigmoidMV,
};
use crate::pool::{
    lemma_sorted_distinct, pool_account_id, pool_shares_id, Account, Asset, Pool, PoolStatus,
    ScoringRule,
};

verus! {

/// Which side of a single-asset join or exit the caller fixes: the asset
/// amount, or the pool-share amount; the other is solved for.
#[derive(Clone, Copy, Debug, PartialEq, Eq, Structural)]
pub enum GivenAmount {
    /// The asset amount is exact; pool shares are solved for.
    AssetAmount(u128),
    /// The pool-share amount is exact; the asset amount is solved for.
    PoolSharesAmount(u128),
}

/// What a single-asset join computes and whether it goes through: the
/// `(asset_amount, pool_amount)` pair on success, or the first error in
/// validation order — scoring rule, pool status, asset binding, amount
/// computation, zero-amount rejection, share mint, asset transfer.
pub open spec fn join_exact_amount_outcome(
    pool: Pool,
    l: Ledger,
    pool_id: u64,
    who: Account,
    asset: Asset,
    given: GivenAmount,
) -> Result<(u128, u128), Error> {
    let pacc = Account::PoolAccount(pool_id);
    let share = Asset::PoolShare(pool_id);
    let bal = l.balance_of(pacc, asset);
    let ti = l.issuance_of(share);
    if pool.scoring_rule != ScoringRule::CPMM {
        Err(Error::InvalidScoringRule)
    } else if pool.status != PoolStatus::Active {
        Err(Error::PoolInactive)
    } else if !pool.bound_spec(asset) {
        Err(Error::AssetNotBound)
    } else {
        let amounts = match given {
            GivenAmount::AssetAmount(aa) => match calc_pool_out_given_single_in_spec(
                bal,
                pool.weight_of(asset),
                ti,
                pool.total_weight,
                aa,
                pool.swap_fee,
            ) {
                Err(e) => Err(e),
                Ok(pa) => Ok((aa, pa)),
            },
            GivenAmount::PoolSharesAmount(pa) => match calc_single_in_given_pool_out_spec(
                bal,
                pool.weight_of(asset),
                ti,
                pool.total_weight,
                pa,
                pool.swap_fee,
            ) {
                Err(e) => Err(e),
                Ok(aa) => Ok((aa, pa)),
            },
        };
        match amounts {
            Err(e) => Err(e),
            Ok((aa, pa)) => {
                if aa == 0 || pa == 0 {
                    Err(Error::MathApproximation)
                } else if l.balance_of(who, share) + pa > u128::MAX {
                    Err(Error::ArithmeticError)
                } else if ti + pa > u128::MAX {
                    Err(Error::ArithmeticError)
                } else if l.balance_of(who, asset) < aa {
                    Err(Error::InsufficientBalance)
                } else if bal + aa > u128::MAX {
                    Err(Error::ArithmeticError)
                } else {
                    Ok((aa, pa))
                }
            },
        }
    }
}

/// What a single-asset exit computes and whether it goes through, in
/// validation order — pool status, scoring rule, asset binding, amount
/// computation, zero-amount rejection, share burn, asset transfer.
pub open spec fn exit_exact_amount_outcome(
    pool: Pool,
    l: Ledger,
    pool_id: u64,
    who: Account,
    asset: Asset,
    given: GivenAmount,
) -> Result<(u128, u128), Error> {
    let pacc = Account::PoolAccount(pool_id);
    let share = Asset::PoolShare(pool_id);
    let bal = l.balance_of(pacc, asset);
    let ti = l.issuance_of(share);
    if pool.status != PoolStatus::Active {
        Err(Error::PoolInactive)
    } else if pool.scoring_rule != ScoringRule::CPMM {
        Err(Error::InvalidScoringRule)
    } else if !pool.bound_spec(asset) {
        Err(Error::AssetNotBound)
    } else {
        let amounts = match given {
            GivenAmount::AssetAmount(aa) => match calc_pool_in_given_single_out_spec(
                bal,
                pool.weight_of(asset),
                ti,
                pool.total_weight,
                aa,
                pool.swap_fee,
                0,
            ) {
                Err(e) => Err(e),
                Ok(pa) => Ok((aa, pa)),
            },
            GivenAmount::PoolSharesAmount(pa) => match calc_single_out_given_pool_in_spec(
                bal,
                pool.weight_of(asset),
                ti,
                pool.total_weight,
                pa,
                pool.swap_fee,
                0,
            ) {
                Err(e) => Err(e),
                Ok(aa) => Ok((aa, pa)),
            },
        };
        match amounts {
            Err(e) => Err(e),
            Ok((aa, pa)) => {
                if aa == 0 || pa == 0 {
                    Err(Error::MathApproximation)
                } else if l.balance_of(who, share) < pa {
                    Err(Error::InsufficientBalance)
                } else if ti < pa {
                    Err(Error::ArithmeticError)
                } else if bal < aa {
                    Err(Error::InsufficientBalance)
                } else if l.balance_of(who, asset) + aa > u128::MAX {
                    Err(Error::ArithmeticError)
                } else {
                    Ok((aa, pa))
                }
            },
        }
    }
}

/// Join a pool with one exact amount: deposit a single bound asset and
/// mint pool shares in return.  On any error the ledger is untouched; on
/// success the asset moves from the caller to the pool account, the shares
/// are minted to the caller, and the event record is returned.
pub fn pool_join_with_exact_amount(
    pool: &Pool,
    ledger: &mut Ledger,
    pool_id: u64,
    who: Account,
    asset: Asset,
    given: GivenAmount,
    bound: u128,
) -> (r: Result<PoolAssetEvent, Error>)
    requires
        pool.wf(),
        who is User,
    ensures
        match join_exact_amount_outcome(*pool, *old(ledger), pool_id, who, asset, given) {
            Err(e) => r == Err::<PoolAssetEvent, Error>(e) && *final(ledger) == *old(ledger),
            Ok((aa, pa)) => {
                &&& r == Ok::<PoolAssetEvent, Error>(
                    (PoolAssetEvent {
                        asset,
                        bound,
                        cpep: (CommonPoolEventParams { pool_id, who }),
                        transferred: aa,
                        pool_amount: pa,
                    }),
                )
                &&& final(ledger).balance_of(who, asset) == old(ledger).balance_of(who, asset)
                    - aa
                &&& final(ledger).balance_of(Account::PoolAccount(pool_id), asset) == old(
                    ledger,
                ).balance_of(Account::PoolAccount(pool_id), asset) + aa
                &&& final(ledger).balance_of(who, Asset::PoolShare(pool_id)) == old(
                    ledger,
                ).balance_of(who, Asset::PoolShare(pool_id)) + pa
                &&& final(ledger).issuance_of(Asset::PoolShare(pool_id)) == old(
                    ledger,
                ).issuance_of(Asset::PoolShare(pool_id)) + pa
                &&& forall|a2: Account, x2: Asset|
                    !(a2 == who && x2 == asset) && !(a2 == Account::PoolAccount(pool_id) && x2
                        == asset) && !(a2 == who && x2 == Asset::PoolShare(pool_id))
                        ==> #[trigger] final(ledger).balance_of(a2, x2) == old(
                        ledger,
                    ).balance_of(a2, x2)
                &&& forall|x2: Asset|
                    x2 != Asset::PoolShare(pool_id) ==> #[trigger] final(ledger).issuance_of(x2)
                        == old(ledger).issuance_of(x2)
            },
        },
{
    if pool.scoring_rule != ScoringRule::CPMM {
        return Err(Error::InvalidScoringRule);
    }
    if pool.status != PoolStatus::Active {
        return Err(Error::PoolInactive);
    }
    if !pool.bound(&asset) {
        return Err(Error::AssetNotBound);
    }
    proof {
        let i = choose|i: int| 0 <= i < pool.assets@.len() && pool.assets@[i] == asset;
        assert(!(asset is PoolShare));
    }
    let pacc = pool_account_id(pool_id);
    let share = pool_shares_id(pool_id);
    let bal = ledger.free_balance(asset, &pacc);
    let ti = ledger.total_issuance(share);
    let weight = pool.weight_for(&asset);
    let (aa, pa) = match given {
        GivenAmount::AssetAmount(amount) => {
            let pa = match calc_pool_out_given_single_in(
                bal,
                weight,
                ti,
                pool.total_weight,
                amount,
                pool.swap_fee,
            ) {
                Ok(v) => v,
                Err(e) => {
                    return Err(e);
                },
            };
            (amount, pa)
        },
        GivenAmount::PoolSharesAmount(amount) => {
            let aa = match calc_single_in_given_pool_out(
                bal,
                weight,
                ti,
                pool.total_weight,
                amount,
                pool.swap_fee,
            ) {
                Ok(v) => v,
                Err(e) => {
                    return Err(e);
                },
            };
            (aa, amount)
        },
    };
    if aa == 0 || pa == 0 {
        return Err(Error::MathApproximation);
    }
    let who_share = ledger.free_balance(share, &who);
    if who_share.checked_add(pa).is_none() {
        return Err(Error::ArithmeticError);
    }
    if ti.checked_add(pa).is_none() {
        return Err(Error::ArithmeticError);
    }
    let who_bal = ledger.free_balance(asset, &who);
    if who_bal < aa {
        return Err(Error::InsufficientBalance);
    }
    if bal.checked_add(aa).is_none() {
        return Err(Error::ArithmeticError);
    }
    match ledger.mint_pool_shares(pool_id, &who, pa) {
        Ok(()) => {},
        Err(e) => {
            proof {
                assert(false);
            }
            return Err(e);
        },
    }
    match ledger.transfer(asset, &who, &pacc, aa) {
        Ok(()) => {},
        Err(e) => {
            proof {
                assert(false);
            }
            return Err(e);
        },
    }
    Ok(
        PoolAssetEvent {
            asset,
            bound,
            cpep: CommonPoolEventParams { pool_id, who },
            transferred: aa,
            pool_amount: pa,
        },
    )
}

/// Exit a pool with one exact amount: burn pool shares and withdraw a
/// single bound asset in return.  On any error the ledger is untouched; on
/// success the shares are burned, the asset moves from the pool account to
/// the caller, and the event record is returned.  The single-asset path
/// charges no exit fee; the proportional exit fee belongs to the
/// symmetric [`pool`] operation.
pub fn pool_exit_with_exact_amount(
    pool: &Pool,
    ledger: &mut Ledger,
    pool_id: u64,
    who: Account,
    asset: Asset,
    given: GivenAmount,
    bound: u128,
) -> (r: Result<PoolAssetEvent, Error>)
    requires
        pool.wf(),
        who is User,
    ensures
        match exit_exact_amount_outcome(*pool, *old(ledger), pool_id, who, asset, given) {
            Err(e) => r == Err::<PoolAssetEvent, Error>(e) && *final(ledger) == *old(ledger),
            Ok((aa, pa)) => {
                &&& r == Ok::<PoolAssetEvent, Error>(
                    (PoolAssetEvent {
                        asset,
                        bound,
                        cpep: (CommonPoolEventParams { pool_id, who }),
                        transferred: aa,
                        pool_amount: pa,
                    }),
                )
                &&& final(ledger).balance_of(who, asset) == old(ledger).balance_of(who, asset)
                    + aa
                &&& final(ledger).balance_of(Account::PoolAccount(pool_id), asset) == old(
                    ledger,
                ).balance_of(Account::PoolAccount(pool_id), asset) - aa
                &&& final(ledger).balance_of(who, Asset::PoolShare(pool_id)) == old(
                    ledger,
                ).balance_of(who, Asset::PoolShare(pool_id)) - pa
                &&& final(ledger).issuance_of(Asset::PoolShare(pool_id)) == old(
                    ledger,
                ).issuance_of(Asset::PoolShare(pool_id)) - pa
                &&& forall|a2: Account, x2: Asset|
                    !(a2 == who && x2 == asset) && !(a2 == Account::PoolAccount(pool_id) && x2
                        == asset) && !(a2 == who && x2 == Asset::PoolShare(pool_id))
                        ==> #[trigger] final(ledger).balance_of(a2, x2) == old(
                        ledger,
                    ).balance_of(a2, x2)
                &&& forall|x2: Asset|
                    x2 != Asset::PoolShare(pool_id) ==> #[trigger] final(ledger).issuance_of(x2)
                        == old(ledger).issuance_of(x2)
            },
        },
{
    if pool.status != PoolStatus::Active {
        return Err(Error::PoolInactive);
    }
    if pool.scoring_rule != ScoringRule::CPMM {
        return Err(Error::InvalidScoringRule);
    }
    if !pool.bound(&asset) {
        return Err(Error::AssetNotBound);
    }
    proof {
        let i = choose|i: int| 0 <= i < pool.assets@.len() && pool.assets@[i] == asset;
        assert(!(asset is PoolShare));
    }
    let pacc = pool_account_id(pool_id);
    let share = pool_shares_id(pool_id);
    let bal = ledger.free_balance(asset, &pacc);
    let ti = ledger.total_issuance(share);
    let weight = pool.weight_for(&asset);
    let (aa, pa) = match given {
        GivenAmount::AssetAmount(amount) => {
            let pa = match calc_pool_in_given_single_out(
                bal,
                weight,
                ti,
                pool.total_weight,
                amount,
                pool.swap_fee,
                0,
            ) {
                Ok(v) => v,
                Err(e) => {
                    return Err(e);
                },
            };
            (amount, pa)
        },
        GivenAmount::PoolSharesAmount(amount) => {
            let aa = match calc_single_out_given_pool_in(
                bal,
                weight,
                ti,
                pool.total_weight,
                amount,
                pool.swap_fee,
                0,
            ) {
                Ok(v) => v,
                Err(e) => {
                    return Err(e);
                },
            };
            (aa, amount)
        },
    };
    if aa == 0 || pa == 0 {
        return Err(Error::MathApproximation);
    }
    let who_share = ledger.free_balance(share, &who);
    if who_share < pa {
        return Err(Error::InsufficientBalance);
    }
    if ti < pa {
        return Err(Error::ArithmeticError);
    }
    if bal < aa {
        return Err(Error::InsufficientBalance);
    }
    let who_bal = ledger.free_balance(asset, &who);
    if who_bal.checked_add(aa).is_none() {
        return Err(Error::ArithmeticError);
    }
    match ledger.burn_pool_shares(pool_id, &who, pa) {
        Ok(()) => {},
        Err(e) => {
            proof {
                assert(false);
            }
            return Err(e);
        },
    }
    match ledger.transfer(asset, &pacc, &who, aa) {
        Ok(()) => {},
        Err(e) => {
            proof {
                assert(false);
            }
            return Err(e);
        },
    }
    Ok(
        PoolAssetEvent {
            asset,
            bound,
            cpep: CommonPoolEventParams { pool_id, who },
            transferred: aa,
            pool_amount: pa,
        },
    )
}

/// Whether a symmetric operation deposits into the pool (join) or
/// withdraws from it (exit).
#[derive(Clone, Copy, Debug, PartialEq, Eq, Structural)]
pub enum Direction {
    /// Assets flow from the caller into the pool; shares are minted.
    Join,
    /// Assets flow from the pool to the caller; shares are burned.
    Exit,
}

/// The net transfer amount of a symmetric operation for asset `a`:
/// `ratio * balance`, minus the proportional fee.
pub open spec fn sym_amount_at(
    l: Ledger,
    pacc: Account,
    ratio: u128,
    fee_rate: u128,
    a: Asset,
) -> Result<u128, Error> {
    match bmul_spec(ratio, l.balance_of(pacc, a)) {
        Err(e) => Err(e),
        Ok(amount) => match bmul_spec(amount, fee_rate) {
            Err(e) => Err(e),
            Ok(fee) => check_sub_spec(amount, fee),
        },
    }
}

/// The per-asset net amounts of a symmetric operation, in pool order; a
/// zero net amount for any single asset aborts the whole operation.
pub open spec fn sym_amounts(
    assets: Seq<Asset>,
    l: Ledger,
    pacc: Account,
    ratio: u128,
    fee_rate: u128,
) -> Result<Seq<u128>, Error>
    decreases assets.len(),
{
    if assets.len() == 0 {
        Ok(Seq::<u128>::empty())
    } else {
        match sym_amounts(assets.drop_last(), l, pacc, ratio, fee_rate) {
            Err(e) => Err(e),
            Ok(pre) => match sym_amount_at(l, pacc, ratio, fee_rate, assets.last()) {
                Err(e) => Err(e),
                Ok(net) => {
                    if net == 0 {
                        Err(Error::MathApproximation)
                    } else {
                        Ok(pre.push(net))
                    }
                },
            },
        }
    }
}

/// Whether the transfer of `amt` of `a` between the caller and the pool
/// account can go through on ledger `l`.
pub open spec fn sym_transfer_ok_at(
    l: Ledger,
    who: Account,
    pacc: Account,
    direction: Direction,
    a: Asset,
    amt: u128,
) -> Result<(), Error> {
    match direction {
        Direction::Join => {
            if l.balance_of(who, a) < amt {
                Err(Error::InsufficientBalance)
            } else if l.balance_of(pacc, a) + amt > u128::MAX {
                Err(Error::ArithmeticError)
            } else {
                Ok(())
            }
        },
        Direction::Exit => {
            if l.balance_of(pacc, a) < amt {
                Err(Error::InsufficientBalance)
            } else if l.balance_of(who, a) + amt > u128::MAX {
                Err(Error::ArithmeticError)
            } else {
                Ok(())
            }
        },
    }
}

/// Whether every per-asset transfer of a symmetric operation can go
/// through on ledger `l`, checked in pool order.
pub open spec fn sym_transfers(
    assets: Seq<Asset>,
    amts: Seq<u128>,
    l: Ledger,
    who: Account,
    pacc: Account,
    direction: Direction,
) -> Result<(), Error>
    decreases assets.len(),
{
    if assets.len() == 0 || amts.len() != assets.len() {
        Ok(())
    } else {
        match sym_transfers(assets.drop_last(), amts.drop_last(), l, who, pacc, direction) {
            Err(e) => Err(e),
            Ok(()) => sym_transfer_ok_at(l, who, pacc, direction, assets.last(), amts.last()),
        }
    }
}

/// An error in the amounts of a prefix settles the whole computation.
proof fn lemma_sym_amounts_prefix(
    assets: Seq<Asset>,
    l: Ledger,
    pacc: Account,
    ratio: u128,
    fee_rate: u128,
    m: int,
)
    requires
        0 <= m <= assets.len(),
        sym_amounts(assets.take(m), l, pacc, ratio, fee_rate) is Err,
    ensures
        sym_amounts(assets, l, pacc, ratio, fee_rate) == sym_amounts(
            assets.take(m),
            l,
            pacc,
            ratio,
            fee_rate,
        ),
    decreases assets.len() - m,
{
    if m == assets.len() {
        assert_seqs_equal!(assets.take(m) == assets);
    } else {
        assert_seqs_equal!(assets.take(m + 1).drop_last() == assets.take(m));
        lemma_sym_amounts_prefix(assets, l, pacc, ratio, fee_rate, m + 1);
    }
}

/// An error in the transfer checks of a prefix settles the whole check.
proof fn lemma_sym_transfers_prefix(
    assets: Seq<Asset>,
    amts: Seq<u128>,
    l: Ledger,
    who: Account,
    pacc: Account,
    direction: Direction,
    m: int,
)
    requires
        0 <= m <= assets.len(),
        amts.len() == assets.len(),
        sym_transfers(assets.take(m), amts.take(m), l, who, pacc, direction) is Err,
    ensures
        sym_transfers(assets, amts, l, who, pacc, direction) == sym_transfers(
            assets.take(m),
            amts.take(m),
            l,
            who,
            pacc,
            direction,
        ),
    decreases assets.len() - m,
{
    if m == assets.len() {
        assert_seqs_equal!(assets.take(m) == assets);
        assert_seqs_equal!(amts.take(m) == amts);
    } else {
        assert_seqs_equal!(assets.take(m + 1).drop_last() == assets.take(m));
        assert_seqs_equal!(amts.take(m + 1).drop_last() == amts.take(m));
        lemma_sym_transfers_prefix(assets, amts, l, who, pacc, direction, m + 1);
    }
}

/// Successful amounts pin every entry: one per asset, each nonzero, each
/// equal to its per-asset formula.
proof fn lemma_sym_amounts_ok(
    assets: Seq<Asset>,
    l: Ledger,
    pacc: Account,
    ratio: u128,
    fee_rate: u128,
    amts: Seq<u128>,
)
    requires
        sym_amounts(assets, l, pacc, ratio, fee_rate) == Ok::<Seq<u128>, Error>(amts),
    ensures
        amts.len() == assets.len(),
        forall|j: int|
            0 <= j < assets.len() ==> sym_amount_at(l, pacc, ratio, fee_rate, #[trigger] assets[j])
                == Ok::<u128, Error>(amts[j]) && amts[j] != 0,
    decreases assets.len(),
{
    if assets.len() > 0 {
        let pre = sym_amounts(assets.drop_last(), l, pacc, ratio, fee_rate)->Ok_0;
        let net = sym_amount_at(l, pacc, ratio, fee_rate, assets.last())->Ok_0;
        assert_seqs_equal!(amts.drop_last() == pre);
        lemma_sym_amounts_ok(assets.drop_last(), l, pacc, ratio, fee_rate, pre);
        assert forall|j: int|
            0 <= j < assets.len() implies sym_amount_at(
            l,
            pacc,
            ratio,
            fee_rate,
            #[trigger] assets[j],
        ) == Ok::<u128, Error>(amts[j]) && amts[j] != 0 by {
            if j < assets.len() - 1 {
                assert(assets.drop_last()[j] == assets[j]);
                assert(pre[j] == amts[j]);
            } else {
                assert(assets.last() == assets[j]);
                assert(amts[j] == net);
            }
        }
    }
}

/// A successful transfer check pins every per-asset condition.
proof fn lemma_sym_transfers_ok(
    assets: Seq<Asset>,
    amts: Seq<u128>,
    l: Ledger,
    who: Account,
    pacc: Account,
    direction: Direction,
)
    requires
        amts.len() == assets.len(),
        sym_transfers(assets, amts, l, who, pacc, direction) == Ok::<(), Error>(()),
    ensures
        forall|j: int|
            0 <= j < assets.len() ==> sym_transfer_ok_at(
                l,
                who,
                pacc,
                direction,
                #[trigger] assets[j],
                amts[j],
            ) == Ok::<(), Error>(()),
    decreases assets.len(),
{
    if assets.len() > 0 {
        lemma_sym_transfers_ok(assets.drop_last(), amts.drop_last(), l, who, pacc, direction);
        assert forall|j: int|
            0 <= j < assets.len() implies sym_transfer_ok_at(
            l,
            who,
            pacc,
            direction,
            #[trigger] assets[j],
            amts[j],
        ) == Ok::<(), Error>(()) by {
            if j < assets.len() - 1 {
                assert(assets.drop_last()[j] == assets[j]);
                assert(amts.drop_last()[j] == amts[j]);
            } else {
                assert(assets.last() == assets[j]);
                assert(amts.last() == amts[j]);
            }
        }
    }
}

/// What a symmetric join or exit computes and whether it goes through: the
/// per-asset net amounts on success, or the first error in validation
/// order — scoring rule, pool status, share ratio, bounds arity, zero
/// ratio, per-asset amounts, per-asset transfers, share mint or burn.
pub open spec fn sym_outcome(
    pool: Pool,
    l: Ledger,
    pool_id: u64,
    who: Account,
    pool_amount: u128,
    n_bounds: int,
    direction: Direction,
    fee_rate: u128,
) -> Result<Seq<u128>, Error> {
    let pacc = Account::PoolAccount(pool_id);
    let share = Asset::PoolShare(pool_id);
    let ti = l.issuance_of(share);
    if pool.scoring_rule != ScoringRule::CPMM {
        Err(Error::InvalidScoringRule)
    } else if pool.status != PoolStatus::Active {
        Err(Error::PoolInactive)
    } else {
        match bdiv_spec(pool_amount, ti) {
            Err(e) => Err(e),
            Ok(ratio) => {
                if n_bounds != pool.assets@.len() {
                    Err(Error::ProvidedValuesLenMustEqualAssetsLen)
                } else if ratio == 0 {
                    Err(Error::MathApproximation)
                } else {
                    match sym_amounts(pool.assets@, l, pacc, ratio, fee_rate) {
                        Err(e) => Err(e),
                        Ok(amts) => match sym_transfers(
                            pool.assets@,
                            amts,
                            l,
                            who,
                            pacc,
                            direction,
                        ) {
                            Err(e) => Err(e),
                            Ok(()) => match direction {
                                Direction::Join => {
                                    if l.balance_of(who, share) + pool_amount > u128::MAX {
                                        Err(Error::ArithmeticError)
                                    } else if ti + pool_amount > u128::MAX {
                                        Err(Error::ArithmeticError)
                                    } else {
                                        Ok(amts)
                                    }
                                },
                                Direction::Exit => {
                                    if l.balance_of(who, share) < pool_amount {
                                        Err(Error::InsufficientBalance)
                                    } else if ti < pool_amount {
                                        Err(Error::ArithmeticError)
                                    } else {
                                        Ok(amts)
                                    }
                                },
                            },
                        },
                    }
                }
            },
        }
    }
}

/// Copy a vector of assets.
fn copy_assets(v: &Vec<Asset>) -> (r: Vec<Asset>)
    ensures
        r@ == v@,
{
    let mut r: Vec<Asset> = Vec::new();
    let mut i: usize = 0;
    while i < v.len()
        invariant
            i <= v@.len(),
            r@ == v@.take(i as int),
        decreases v@.len() - i,
    {
        r.push(v[i]);
        proof {
            assert_seqs_equal!(r@ == v@.take(i + 1));
        }
        i = i + 1;
    }
    proof {
        assert_seqs_equal!(r@ == v@);
    }
    r
}

/// Copy a vector of amounts.
fn copy_amounts(v: &Vec<u128>) -> (r: Vec<u128>)
    ensures
        r@ == v@,
{
    let mut r: Vec<u128> = Vec::new();
    let mut i: usize = 0;
    while i < v.len()
        invariant
            i <= v@.len(),
            r@ == v@.take(i as int),
        decreases v@.len() - i,
    {
        r.push(v[i]);
        proof {
            assert_seqs_equal!(r@ == v@.take(i + 1));
        }
        i = i + 1;
    }
    proof {
        assert_seqs_equal!(r@ == v@);
    }
    r
}

/// Symmetric join or exit: apply `ratio = pool_amount / total_issuance`
/// proportionally across every bound asset, deduct the fee on exits, and
/// mint or burn the pool shares.  All-or-nothing: any zero net amount,
/// arithmetic failure or infeasible transfer leaves every balance
/// unchanged.
pub fn pool(
    pool_ref: &Pool,
    ledger: &mut Ledger,
    pool_id: u64,
    who: Account,
    pool_amount: u128,
    asset_bounds: Vec<u128>,
    direction: Direction,
    fee_rate: u128,
) -> (r: Result<PoolAssetsEvent, Error>)
    requires
        pool_ref.wf(),
        who is User,
    ensures
        match sym_outcome(
            *pool_ref,
            *old(ledger),
            pool_id,
            who,
            pool_amount,
            asset_bounds@.len() as int,
            direction,
            fee_rate,
        ) {
            Err(e) => r is Err && r->Err_0 == e && *final(ledger) == *old(ledger),
            Ok(amts) => {
                &&& r is Ok
                &&& r->Ok_0.assets@ == pool_ref.assets@
                &&& r->Ok_0.bounds@ == asset_bounds@
                &&& r->Ok_0.cpep == (CommonPoolEventParams { pool_id, who })
                &&& r->Ok_0.transferred@ == amts
                &&& r->Ok_0.pool_amount == pool_amount
                &&& forall|j: int|
                    0 <= j < pool_ref.assets@.len() ==> final(ledger).balance_of(
                        who,
                        #[trigger] pool_ref.assets@[j],
                    ) == (if direction is Join {
                        old(ledger).balance_of(who, pool_ref.assets@[j]) - amts[j]
                    } else {
                        old(ledger).balance_of(who, pool_ref.assets@[j]) + amts[j]
                    })
                &&& forall|j: int|
                    0 <= j < pool_ref.assets@.len() ==> final(ledger).balance_of(
                        Account::PoolAccount(pool_id),
                        #[trigger] pool_ref.assets@[j],
                    ) == (if direction is Join {
                        old(ledger).balance_of(Account::PoolAccount(pool_id), pool_ref.assets@[j])
                            + amts[j]
                    } else {
                        old(ledger).balance_of(Account::PoolAccount(pool_id), pool_ref.assets@[j])
                            - amts[j]
                    })
                &&& final(ledger).balance_of(who, Asset::PoolShare(pool_id)) == (if direction
                    is Join {
                    old(ledger).balance_of(who, Asset::PoolShare(pool_id)) + pool_amount
                } else {
                    old(ledger).balance_of(who, Asset::PoolShare(pool_id)) - pool_amount
                })
                &&& final(ledger).issuance_of(Asset::PoolShare(pool_id)) == (if direction
                    is Join {
                    old(ledger).issuance_of(Asset::PoolShare(pool_id)) + pool_amount
                } else {
                    old(ledger).issuance_of(Asset::PoolShare(pool_id)) - pool_amount
                })
                &&& forall|a2: Account, x2: Asset|
                    ((a2 != who && a2 != Account::PoolAccount(pool_id))
                        || !pool_ref.assets@.contains(x2)) && !(a2 == who && x2 == Asset::PoolShare(
                        pool_id,
                    )) ==> #[trigger] final(ledger).balance_of(a2, x2) == old(ledger).balance_of(
                        a2,
                        x2,
                    )
                &&& forall|x2: Asset|
                    x2 != Asset::PoolShare(pool_id) ==> #[trigger] final(ledger).issuance_of(x2)
                        == old(ledger).issuance_of(x2)
            },
        },
{
    if pool_ref.scoring_rule != ScoringRule::CPMM {
        return Err(Error::InvalidScoringRule);
    }
    if pool_ref.status != PoolStatus::Active {
        return Err(Error::PoolInactive);
    }
    let pacc = pool_account_id(pool_id);
    let share = pool_shares_id(pool_id);
    let ti = ledger.total_issuance(share);
    let ratio = match bdiv(pool_amount, ti) {
        Ok(v) => v,
        Err(e) => {
            return Err(e);
        },
    };
    if asset_bounds.len() != pool_ref.assets.len() {
        return Err(Error::ProvidedValuesLenMustEqualAssetsLen);
    }
    if ratio == 0 {
        return Err(Error::MathApproximation);
    }
    let ghost l0 = *ledger;
    let n = pool_ref.assets.len();
    let mut amounts: Vec<u128> = Vec::new();
    let mut k: usize = 0;
    while k < n
        invariant
            k <= n == pool_ref.assets@.len(),
            amounts@.len() == k,
            *ledger == l0,
            sym_amounts(pool_ref.assets@.take(k as int), l0, pacc, ratio, fee_rate) == Ok::<
                Seq<u128>,
                Error,
            >(amounts@),
            pacc == Account::PoolAccount(pool_id),
            l0 == *old(ledger),
            share == Asset::PoolShare(pool_id),
            pool_ref.scoring_rule == ScoringRule::CPMM,
            pool_ref.status == PoolStatus::Active,
            bdiv_spec(pool_amount, l0.issuance_of(share)) == Ok::<u128, Error>(ratio),
            asset_bounds@.len() == n,
            ratio != 0,
        decreases n - k,
    {
        let a = pool_ref.assets[k];
        let bal = ledger.free_balance(a, &pacc);
        proof {
            assert_seqs_equal!(pool_ref.assets@.take(k + 1).drop_last() == pool_ref.assets@.take(k as int));
        }
        let amount = match bmul(ratio, bal) {
            Ok(v) => v,
            Err(e) => {
                proof {
                    lemma_sym_amounts_prefix(pool_ref.assets@, l0, pacc, ratio, fee_rate, k + 1);
                }
                return Err(e);
            },
        };
        let fee = match bmul(amount, fee_rate) {
            Ok(v) => v,
            Err(e) => {
                proof {
                    lemma_sym_amounts_prefix(pool_ref.assets@, l0, pacc, ratio, fee_rate, k + 1);
                }
                return Err(e);
            },
        };
        let net = match check_sub(amount, fee) {
            Ok(v) => v,
            Err(e) => {
                proof {
                    lemma_sym_amounts_prefix(pool_ref.assets@, l0, pacc, ratio, fee_rate, k + 1);
                }
                return Err(e);
            },
        };
        if net == 0 {
            proof {
                lemma_sym_amounts_prefix(pool_ref.assets@, l0, pacc, ratio, fee_rate, k + 1);
            }
            return Err(Error::MathApproximation);
        }
        amounts.push(net);
        proof {
            assert_seqs_equal!(amounts@.drop_last() == amounts@.take(k as int));
        }
        k = k + 1;
    }
    proof {
        assert_seqs_equal!(pool_ref.assets@.take(n as int) == pool_ref.assets@);
    }
    let mut k: usize = 0;
    while k < n
        invariant
            k <= n == pool_ref.assets@.len(),
            amounts@.len() == n,
            *ledger == l0,
            sym_transfers(
                pool_ref.assets@.take(k as int),
                amounts@.take(k as int),
                l0,
                who,
                pacc,
                direction,
            ) == Ok::<(), Error>(()),
            sym_amounts(pool_ref.assets@, l0, pacc, ratio, fee_rate) == Ok::<Seq<u128>, Error>(
                amounts@,
            ),
            pacc == Account::PoolAccount(pool_id),
            l0 == *old(ledger),
            share == Asset::PoolShare(pool_id),
            pool_ref.scoring_rule == ScoringRule::CPMM,
            pool_ref.status == PoolStatus::Active,
            bdiv_spec(pool_amount, l0.issuance_of(share)) == Ok::<u128, Error>(ratio),
            asset_bounds@.len() == n,
            ratio != 0,
        decreases n - k,
    {
        let a = pool_ref.assets[k];
        let amt = amounts[k];
        proof {
            assert_seqs_equal!(pool_ref.assets@.take(k + 1).drop_last() == pool_ref.assets@.take(k as int));
            assert_seqs_equal!(amounts@.take(k + 1).drop_last() == amounts@.take(k as int));
            assert(pool_ref.assets@.take(k + 1).last() == a);
            assert(amounts@.take(k + 1).last() == amt);
        }
        match direction {
            Direction::Join => {
                let who_bal = ledger.free_balance(a, &who);
                if who_bal < amt {
                    proof {
                        lemma_sym_transfers_prefix(
                            pool_ref.assets@,
                            amounts@,
                            l0,
                            who,
                            pacc,
                            direction,
                            k + 1,
                        );
                    }
                    return Err(Error::InsufficientBalance);
                }
                let pool_bal = ledger.free_balance(a, &pacc);
                if pool_bal.checked_add(amt).is_none() {
                    proof {
                        lemma_sym_transfers_prefix(
                            pool_ref.assets@,
                            amounts@,
                            l0,
                            who,
                            pacc,
                            direction,
                            k + 1,
                        );
                    }
                    return Err(Error::ArithmeticError);
                }
            },
            Direction::Exit => {
                let pool_bal = ledger.free_balance(a, &pacc);
                if pool_bal < amt {
                    proof {
                        lemma_sym_transfers_prefix(
                            pool_ref.assets@,
                            amounts@,
                            l0,
                            who,
                            pacc,
                            direction,
                            k + 1,
                        );
                    }
                    return Err(Error::InsufficientBalance);
                }
                let who_bal = ledger.free_balance(a, &who);
                if who_bal.checked_add(amt).is_none() {
                    proof {
                        lemma_sym_transfers_prefix(
                            pool_ref.assets@,
                            amounts@,
                            l0,
                            who,
                            pacc,
                            direction,
                            k + 1,
                        );
                    }
                    return Err(Error::ArithmeticError);
                }
            },
        }
        k = k + 1;
    }
    proof {
        assert_seqs_equal!(pool_ref.assets@.take(n as int) == pool_ref.assets@);
        assert_seqs_equal!(amounts@.take(n as int) == amounts@);
    }
    let who_share = ledger.free_balance(share, &who);
    match direction {
        Direction::Join => {
            if who_share.checked_add(pool_amount).is_none() {
                return Err(Error::ArithmeticError);
            }
            if ti.checked_add(pool_amount).is_none() {
                return Err(Error::ArithmeticError);
            }
        },
        Direction::Exit => {
            if who_share < pool_amount {
                return Err(Error::InsufficientBalance);
            }
            if ti < pool_amount {
                return Err(Error::ArithmeticError);
            }
        },
    }
    proof {
        lemma_sorted_distinct(pool_ref.assets@);
        lemma_sym_transfers_ok(pool_ref.assets@, amounts@, l0, who, pacc, direction);
    }
    let mut k: usize = 0;
    while k < n
        invariant
            k <= n == pool_ref.assets@.len(),
            amounts@.len() == n,
            who is User,
            pacc == Account::PoolAccount(pool_id),
            forall|i2: int, j2: int|
                0 <= i2 < n && 0 <= j2 < n && i2 != j2 ==> #[trigger] pool_ref.assets@[i2]
                    != #[trigger] pool_ref.assets@[j2],
            forall|j: int| 0 <= j < n ==> !(#[trigger] pool_ref.assets@[j] is PoolShare),
            forall|j: int|
                0 <= j < n ==> sym_transfer_ok_at(
                    l0,
                    who,
                    pacc,
                    direction,
                    #[trigger] pool_ref.assets@[j],
                    amounts@[j],
                ) == Ok::<(), Error>(()),
            forall|j: int|
                0 <= j < k ==> ledger.balance_of(who, #[trigger] pool_ref.assets@[j]) == (
                if direction is Join {
                    l0.balance_of(who, pool_ref.assets@[j]) - amounts@[j]
                } else {
                    l0.balance_of(who, pool_ref.assets@[j]) + amounts@[j]
                }),
            forall|j: int|
                0 <= j < k ==> ledger.balance_of(pacc, #[trigger] pool_ref.assets@[j]) == (
                if direction is Join {
                    l0.balance_of(pacc, pool_ref.assets@[j]) + amounts@[j]
                } else {
                    l0.balance_of(pacc, pool_ref.assets@[j]) - amounts@[j]
                }),
            forall|j: int|
                k <= j < n ==> ledger.balance_of(who, #[trigger] pool_ref.assets@[j]) == l0.balance_of(
                    who,
                    pool_ref.assets@[j],
                ) && ledger.balance_of(pacc, pool_ref.assets@[j]) == l0.balance_of(
                    pacc,
                    pool_ref.assets@[j],
                ),
            forall|a2: Account, x2: Asset|
                ((a2 != who && a2 != pacc) || !pool_ref.assets@.contains(x2)) ==> #[trigger]
                    ledger.balance_of(a2, x2) == l0.balance_of(a2, x2),
            forall|x2: Asset| #[trigger] ledger.issuance_of(x2) == l0.issuance_of(x2),
        decreases n - k,
    {
        let a = pool_ref.assets[k];
        let amt = amounts[k];
        proof {
            assert(pool_ref.assets@.contains(pool_ref.assets@[k as int]));
        }
        let tr = match direction {
            Direction::Join => ledger.transfer(a, &who, &pacc, amt),
            Direction::Exit => ledger.transfer(a, &pacc, &who, amt),
        };
        match tr {
            Ok(()) => {},
            Err(e) => {
                proof {
                    assert(sym_transfer_ok_at(l0, who, pacc, direction, a, amt) == Ok::<
                        (),
                        Error,
                    >(()));
                    assert(false);
                }
                return Err(e);
            },
        }
        k = k + 1;
    }
    proof {
        if pool_ref.assets@.contains(Asset::PoolShare(pool_id)) {
            let j = choose|j: int|
                0 <= j < pool_ref.assets@.len() && pool_ref.assets@[j] == Asset::PoolShare(pool_id);
            assert(false);
        }
    }
    let sh = match direction {
        Direction::Join => ledger.mint_pool_shares(pool_id, &who, pool_amount),
        Direction::Exit => ledger.burn_pool_shares(pool_id, &who, pool_amount),
    };
    match sh {
        Ok(()) => {},
        Err(e) => {
            proof {
                assert(false);
            }
            return Err(e);
        },
    }
    let event_assets = copy_assets(&pool_ref.assets);
    let transferred = copy_amounts(&amounts);
    Ok(
        PoolAssetsEvent {
            assets: event_assets,
            bounds: asset_bounds,
            cpep: CommonPoolEventParams { pool_id, who },
            transferred,
            pool_amount,
        },
    )
}

/// Which side of a swap the caller fixes: the amount paid in, or the
/// amount received; the other is solved for by the scoring rule.
#[derive(Clone, Copy, Debug, PartialEq, Eq, Structural)]
pub enum SwapGiven {
    /// The amount of `asset_in` is exact; the out amount is solved for.
    AmountIn(u128),
    /// The amount of `asset_out` is exact; the in amount is solved for.
    AmountOut(u128),
}

/// The largest spot-price regression a Rikiddo swap may show, absorbing
/// fixed-point rounding of the transcendental cost function.
pub const TOLERANCE: u128 = 20;

/// What a constant-product swap computes and whether it goes through:
/// `(amount_in, amount_out, spot_price_before, spot_price_after)` on
/// success, or the first error in validation order — pool status, asset
/// membership and binding, spot price, upfront price bound, amounts,
/// zero-amount rejection, transfer feasibility, price monotonicity, final
/// price bound, realized-price check.
pub open spec fn cpmm_swap_outcome(
    pool: Pool,
    l: Ledger,
    pool_id: u64,
    who: Account,
    asset_in: Asset,
    asset_out: Asset,
    given: SwapGiven,
    max_price: Option<u128>,
) -> Result<(u128, u128, u128, u128), Error> {
    let pacc = Account::PoolAccount(pool_id);
    let bal_in = l.balance_of(pacc, asset_in);
    let bal_out = l.balance_of(pacc, asset_out);
    let w_in = pool.weight_of(asset_in);
    let w_out = pool.weight_of(asset_out);
    if pool.status != PoolStatus::Active {
        Err(Error::PoolInactive)
    } else if !pool.assets@.contains(asset_in) {
        Err(Error::AssetNotInPool)
    } else if !pool.assets@.contains(asset_out) {
        Err(Error::AssetNotInPool)
    } else if !pool.bound_spec(asset_in) {
        Err(Error::AssetNotBound)
    } else if !pool.bound_spec(asset_out) {
        Err(Error::AssetNotBound)
    } else {
        match calc_spot_price_spec(bal_in, w_in, bal_out, w_out, pool.swap_fee) {
            Err(e) => Err(e),
            Ok(sb) => {
                if max_price is Some && sb > max_price->Some_0 {
                    Err(Error::BadLimitPrice)
                } else {
                    let amounts = match given {
                        SwapGiven::AmountIn(ai) => match calc_out_given_in_spec(
                            bal_in,
                            w_in,
                            bal_out,
                            w_out,
                            ai,
                            pool.swap_fee,
                        ) {
                            Err(e) => Err(e),
                            Ok(ao) => Ok((ai, ao)),
                        },
                        SwapGiven::AmountOut(ao) => match calc_in_given_out_spec(
                            bal_in,
                            w_in,
                            bal_out,
                            w_out,
                            ao,
                            pool.swap_fee,
                        ) {
                            Err(e) => Err(e),
                            Ok(ai) => Ok((ai, ao)),
                        },
                    };
                    match amounts {
                        Err(e) => Err(e),
                        Ok((ai, ao)) => {
                            if ai == 0 || ao == 0 {
                                Err(Error::MathApproximation)
                            } else if l.balance_of(who, asset_in) < ai {
                                Err(Error::InsufficientBalance)
                            } else if bal_in + ai > u128::MAX {
                                Err(Error::ArithmeticError)
                            } else {
                                let pacc_out_mid = if asset_out == asset_in {
                                    (bal_in + ai) as u128
                                } else {
                                    bal_out
                                };
                                let who_out_mid = if asset_out == asset_in {
                                    (l.balance_of(who, asset_in) - ai) as u128
                                } else {
                                    l.balance_of(who, asset_out)
                                };
                                if pacc_out_mid < ao {
                                    Err(Error::InsufficientBalance)
                                } else if who_out_mid + ao > u128::MAX {
                                    Err(Error::ArithmeticError)
                                } else {
                                    let nbal_in = if asset_in == asset_out {
                                        (bal_in + ai - ao) as u128
                                    } else {
                                        (bal_in + ai) as u128
                                    };
                                    let nbal_out = if asset_in == asset_out {
                                        nbal_in
                                    } else {
                                        (bal_out - ao) as u128
                                    };
                                    match calc_spot_price_spec(
                                        nbal_in,
                                        w_in,
                                        nbal_out,
                                        w_out,
                                        pool.swap_fee,
                                    ) {
                                        Err(e) => Err(e),
                                        Ok(sa) => {
                                            if sa < sb {
                                                Err(Error::MathApproximation)
                                            } else if max_price is Some && sa
                                                > max_price->Some_0 {
                                                Err(Error::BadLimitPrice)
                                            } else {
                                                match bdiv_spec(ai, ao) {
                                                    Err(e) => Err(e),
                                                    Ok(realized) => {
                                                        if sb > realized {
                                                            Err(Error::MathApproximation)
                                                        } else {
                                                            Ok((ai, ao, sb, sa))
                                                        }
                                                    },
                                                }
                                            }
                                        },
                                    }
                                }
                            }
                        },
                    }
                }
            },
        }
    }
}

/// The spot price a constant-product pool quotes on ledger `l`.
pub open spec fn cpmm_spot(
    pool: Pool,
    l: Ledger,
    pool_id: u64,
    asset_in: Asset,
    asset_out: Asset,
) -> Result<u128, Error> {
    calc_spot_price_spec(
        l.balance_of(Account::PoolAccount(pool_id), asset_in),
        pool.weight_of(asset_in),
        l.balance_of(Account::PoolAccount(pool_id), asset_out),
        pool.weight_of(asset_out),
        pool.swap_fee,
    )
}

/// The issuances of the pool's outcome assets (every asset but the base),
/// in pool order.
pub open spec fn outcome_q(assets: Seq<Asset>, base: Asset, l: Ledger) -> Seq<u128>
    decreases assets.len(),
{
    if assets.len() == 0 {
        Seq::<u128>::empty()
    } else {
        let rest = outcome_q(assets.drop_last(), base, l);
        if assets.last() == base {
            rest
        } else {
            rest.push(l.issuance_of(assets.last()))
        }
    }
}

/// The outcome issuances with the traded asset `t` replaced by its new
/// issuance `nv`.
pub open spec fn outcome_q_upd(
    assets: Seq<Asset>,
    base: Asset,
    l: Ledger,
    t: Asset,
    nv: u128,
) -> Seq<u128>
    decreases assets.len(),
{
    if assets.len() == 0 {
        Seq::<u128>::empty()
    } else {
        let rest = outcome_q_upd(assets.drop_last(), base, l, t, nv);
        if assets.last() == base {
            rest
        } else if assets.last() == t {
            rest.push(nv)
        } else {
            rest.push(l.issuance_of(assets.last()))
        }
    }
}

/// A non-base member asset's issuance occurs among the outcome issuances.
proof fn lemma_outcome_q_contains(assets: Seq<Asset>, base: Asset, l: Ledger, x: Asset)
    requires
        assets.contains(x),
        x != base,
    ensures
        outcome_q(assets, base, l).contains(l.issuance_of(x)),
    decreases assets.len(),
{
    let s = outcome_q(assets, base, l);
    if assets.last() == x {
        assert(s[s.len() - 1] == l.issuance_of(x));
    } else {
        let i = choose|i: int| 0 <= i < assets.len() && assets[i] == x;
        assert(assets.drop_last()[i] == x);
        assert(assets.drop_last().contains(x));
        lemma_outcome_q_contains(assets.drop_last(), base, l, x);
        let rest = outcome_q(assets.drop_last(), base, l);
        let j = choose|j: int| 0 <= j < rest.len() && rest[j] == l.issuance_of(x);
        if assets.last() == base {
            assert(s[j] == l.issuance_of(x));
        } else {
            assert(s[j] == l.issuance_of(x));
        }
    }
}

/// The traded asset's new issuance occurs among the updated outcome
/// issuances.
proof fn lemma_outcome_q_upd_contains(
    assets: Seq<Asset>,
    base: Asset,
    l: Ledger,
    t: Asset,
    nv: u128,
)
    requires
        assets.contains(t),
        t != base,
    ensures
        outcome_q_upd(assets, base, l, t, nv).contains(nv),
    decreases assets.len(),
{
    let s = outcome_q_upd(assets, base, l, t, nv);
    if assets.last() == t {
        assert(s[s.len() - 1] == nv);
    } else {
        let i = choose|i: int| 0 <= i < assets.len() && assets[i] == t;
        assert(assets.drop_last()[i] == t);
        assert(assets.drop_last().contains(t));
        lemma_outcome_q_upd_contains(assets.drop_last(), base, l, t, nv);
        let rest = outcome_q_upd(assets.drop_last(), base, l, t, nv);
        let j = choose|j: int| 0 <= j < rest.len() && rest[j] == nv;
        assert(s[j] == nv);
    }
}

/// Gather the outcome issuances of a pool from the ledger, optionally with
/// one asset's issuance replaced.
fn gather_outcome_q(pool_ref: &Pool, ledger: &Ledger, upd: Option<(Asset, u128)>) -> (r: Vec<
    u128,
>)
    ensures
        upd is None ==> r@ == outcome_q(pool_ref.assets@, pool_ref.base_asset, *ledger),
        upd matches Some((t, nv)) ==> r@ == outcome_q_upd(
            pool_ref.assets@,
            pool_ref.base_asset,
            *ledger,
            t,
            nv,
        ),
{
    let mut r: Vec<u128> = Vec::new();
    let mut i: usize = 0;
    while i < pool_ref.assets.len()
        invariant
            i <= pool_ref.assets@.len(),
            upd is None ==> r@ == outcome_q(
                pool_ref.assets@.take(i as int),
                pool_ref.base_asset,
                *ledger,
            ),
            upd matches Some((t, nv)) ==> r@ == outcome_q_upd(
                pool_ref.assets@.take(i as int),
                pool_ref.base_asset,
                *ledger,
                t,
                nv,
            ),
        decreases pool_ref.assets@.len() - i,
    {
        proof {
            assert_seqs_equal!(
                pool_ref.assets@.take(i + 1).drop_last() == pool_ref.assets@.take(i as int)
            );
        }
        let a = pool_ref.assets[i];
        if !(a == pool_ref.base_asset) {
            match upd {
                Some((t, nv)) => {
                    if a == t {
                        r.push(nv);
                    } else {
                        r.push(ledger.total_issuance(a));
                    }
                },
                None => {
                    r.push(ledger.total_issuance(a));
                },
            }
        }
        i = i + 1;
    }
    proof {
        assert_seqs_equal!(pool_ref.assets@.take(pool_ref.assets@.len() as int)
            == pool_ref.assets@);
    }
    r
}

/// Law: on an active constant-product pool with one bound per asset, a
/// share ratio `pool_amount / total_issuance` that resolves to zero
/// aborts the whole symmetric operation with the math-approximation
/// error, before any per-asset amount is considered.
pub proof fn lemma_symmetric_zero_ratio_aborts(
    pool: Pool,
    l: Ledger,
    pool_id: u64,
    who: Account,
    pool_amount: u128,
    n_bounds: int,
    direction: Direction,
    fee_rate: u128,
)
    ensures
        pool.scoring_rule == ScoringRule::CPMM && pool.status == PoolStatus::Active && n_bounds
            == pool.assets@.len() && bdiv_spec(
            pool_amount,
            l.issuance_of(Asset::PoolShare(pool_id)),
        ) == Ok::<u128, Error>(0) ==> sym_outcome(
            pool,
            l,
            pool_id,
            who,
            pool_amount,
            n_bounds,
            direction,
            fee_rate,
        ) == Err::<Seq<u128>, Error>(Error::MathApproximation),
{
}

/// What quoting a spot price computes and whether it goes through:
/// membership of both assets, then the scoring rule's own price — the
/// weighted balance ratio for a constant-product pool, the ratio of
/// marginal prices (base asset at one, non-base pairs rejected) for a
/// Rikiddo pool.
pub open spec fn spot_price_outcome(
    pool: Pool,
    l: Ledger,
    pool_id: u64,
    asset_in: Asset,
    asset_out: Asset,
    with_fees: bool,
) -> Result<u128, Error> {
    if !pool.assets@.contains(asset_in) {
        Err(Error::AssetNotInPool)
    } else if !pool.assets@.contains(asset_out) {
        Err(Error::AssetNotInPool)
    } else {
        match pool.scoring_rule {
            ScoringRule::CPMM => calc_spot_price_spec(
                l.balance_of(Account::PoolAccount(pool_id), asset_in),
                pool.weight_of(asset_in),
                l.balance_of(Account::PoolAccount(pool_id), asset_out),
                pool.weight_of(asset_out),
                if with_fees {
                    pool.swap_fee
                } else {
                    0
                },
            ),
            ScoringRule::RikiddoSigmoidFeeMarketEma => {
                if asset_in != pool.base_asset && asset_out != pool.base_asset {
                    Err(Error::UnsupportedTrade)
                } else {
                    let rik = pool.rikiddo->Some_0;
                    let q = outcome_q(pool.assets@, pool.base_asset, l);
                    let pi_r = if asset_in == pool.base_asset {
                        Ok::<u128, Error>(BASE)
                    } else {
                        price_outcome(rik, q, l.issuance_of(asset_in))
                    };
                    match pi_r {
                        Err(e) => Err(e),
                        Ok(p_in) => {
                            let po_r = if asset_out == pool.base_asset {
                                Ok::<u128, Error>(BASE)
                            } else {
                                price_outcome(rik, q, l.issuance_of(asset_out))
                            };
                            match po_r {
                                Err(e) => Err(e),
                                Ok(p_out) => bdiv_spec(p_out, p_in),
                            }
                        },
                    }
                }
            },
        }
    }
}

/// The spot price a Rikiddo pool quotes on ledger `l`: the marginal price
/// of `asset_out` over that of `asset_in`, the base asset priced at one.
pub open spec fn rik_spot_val(pool: Pool, l: Ledger, asset_in: Asset, asset_out: Asset) -> int {
    let rik = pool.rikiddo->Some_0;
    let q = outcome_q(pool.assets@, pool.base_asset, l);
    let pi = if asset_in == pool.base_asset {
        BASE as int
    } else {
        price_val(rik, q, l.issuance_of(asset_in))
    };
    let po = if asset_out == pool.base_asset {
        BASE as int
    } else {
        price_val(rik, q, l.issuance_of(asset_out))
    };
    bdiv_val(po, pi)
}

/// The spot price a Rikiddo pool would quote after a swap of `ai` in and
/// `ao` out, as a function of the pre-trade ledger and the amounts.
pub open spec fn rik_spot_after_val(
    pool: Pool,
    l: Ledger,
    asset_in: Asset,
    asset_out: Asset,
    ai: u128,
    ao: u128,
) -> int {
    let rik = pool.rikiddo->Some_0;
    let base = pool.base_asset;
    if asset_in == base {
        let nv = (l.issuance_of(asset_out) + ao) as u128;
        let q2 = outcome_q_upd(pool.assets@, base, l, asset_out, nv);
        bdiv_val(price_val(rik, q2, nv), BASE as int)
    } else {
        let nv = (l.issuance_of(asset_in) - ai) as u128;
        let q2 = outcome_q_upd(pool.assets@, base, l, asset_in, nv);
        bdiv_val(BASE as int, price_val(rik, q2, nv))
    }
}

/// Law: a constant-product swap that goes through never moves the spot
/// price below its pre-trade value in the `asset_in` to `asset_out`
/// direction, and the realized average execution price
/// `amount_in / amount_out` is at least the pre-trade spot price.
pub proof fn lemma_cpmm_swap_no_price_drop(
    pool: Pool,
    l: Ledger,
    pool_id: u64,
    who: Account,
    asset_in: Asset,
    asset_out: Asset,
    given: SwapGiven,
    max_price: Option<u128>,
)
    ensures
        cpmm_swap_outcome(pool, l, pool_id, who, asset_in, asset_out, given, max_price) matches Ok(
            (ai, ao, sb, sa),
        ) ==> sa >= sb && (bdiv_spec(ai, ao) matches Ok(realized) && sb <= realized),
{
}

/// Law: when a symmetric join or exit goes through, every asset's net
/// transfer is its reserve scaled by `pool_amount / total_issuance`, minus
/// the proportional fee — and the whole operation aborts if any single
/// asset's net transfer would be zero, so no entry of a successful
/// outcome is zero.
pub proof fn lemma_symmetric_amounts_proportional(
    pool: Pool,
    l: Ledger,
    pool_id: u64,
    who: Account,
    pool_amount: u128,
    n_bounds: int,
    direction: Direction,
    fee_rate: u128,
)
    ensures
        sym_outcome(pool, l, pool_id, who, pool_amount, n_bounds, direction, fee_rate) matches Ok(
            amts,
        ) ==> amts.len() == pool.assets@.len() && (bdiv_spec(
            pool_amount,
            l.issuance_of(Asset::PoolShare(pool_id)),
        ) matches Ok(ratio) && forall|j: int|
            0 <= j < pool.assets@.len() ==> sym_amount_at(
                l,
                Account::PoolAccount(pool_id),
                ratio,
                fee_rate,
                #[trigger] pool.assets@[j],
            ) == Ok::<u128, Error>(amts[j]) && amts[j] != 0),
{
    let outcome = sym_outcome(pool, l, pool_id, who, pool_amount, n_bounds, direction, fee_rate);
    if outcome is Ok {
        let amts = outcome->Ok_0;
        let ratio = bdiv_spec(pool_amount, l.issuance_of(Asset::PoolShare(pool_id)))->Ok_0;
        lemma_sym_amounts_ok(
            pool.assets@,
            l,
            Account::PoolAccount(pool_id),
            ratio,
            fee_rate,
            amts,
        );
    }
}

/// The spot price quoted by a pool, with or without the swap fee.
/// Constant-product pools quote the weighted balance ratio; Rikiddo pools
/// quote the ratio of marginal prices, the base asset priced at one, and
/// leave their own fee to trade execution.
pub fn get_spot_price(
    pool_ref: &Pool,
    ledger: &Ledger,
    pool_id: u64,
    asset_in: Asset,
    asset_out: Asset,
    with_fees: bool,
) -> (r: Result<u128, Error>)
    requires
        pool_ref.wf(),
    ensures
        r == spot_price_outcome(*pool_ref, *ledger, pool_id, asset_in, asset_out, with_fees),
        pool_ref.scoring_rule == ScoringRule::RikiddoSigmoidFeeMarketEma ==> (r matches Ok(p)
            ==> p == rik_spot_val(*pool_ref, *ledger, asset_in, asset_out)),
{
    if pool_ref.asset_index(&asset_in).is_none() {
        return Err(Error::AssetNotInPool);
    }
    if pool_ref.asset_index(&asset_out).is_none() {
        return Err(Error::AssetNotInPool);
    }
    let pacc = pool_account_id(pool_id);
    match pool_ref.scoring_rule {
        ScoringRule::CPMM => {
            let bal_in = ledger.free_balance(asset_in, &pacc);
            let bal_out = ledger.free_balance(asset_out, &pacc);
            let w_in = pool_ref.weight_for(&asset_in);
            let w_out = pool_ref.weight_for(&asset_out);
            let fee = if with_fees {
                pool_ref.swap_fee
            } else {
                0
            };
            calc_spot_price(bal_in, w_in, bal_out, w_out, fee)
        },
        ScoringRule::RikiddoSigmoidFeeMarketEma => {
            let base = pool_ref.base_asset;
            if !(asset_in == base) && !(asset_out == base) {
                return Err(Error::UnsupportedTrade);
            }
            let rik = match pool_ref.rikiddo {
                Some(rk) => rk,
                None => {
                    proof {
                        assert(false);
                    }
                    return Err(Error::InvalidScoringRule);
                },
            };
            let q = gather_outcome_q(pool_ref, ledger, None);
            proof {
                if asset_in != base {
                    lemma_outcome_q_contains(pool_ref.assets@, base, *ledger, asset_in);
                }
                if asset_out != base {
                    lemma_outcome_q_contains(pool_ref.assets@, base, *ledger, asset_out);
                }
            }
            let p_in = if asset_in == base {
                BASE
            } else {
                let iss_in = ledger.total_issuance(asset_in);
                match rik.price(&q, iss_in) {
                    Ok(v) => v,
                    Err(e) => {
                        return Err(e);
                    },
                }
            };
            let p_out = if asset_out == base {
                BASE
            } else {
                let iss_out = ledger.total_issuance(asset_out);
                match rik.price(&q, iss_out) {
                    Ok(v) => v,
                    Err(e) => {
                        return Err(e);
                    },
                }
            };
            bdiv(p_out, p_in)
        },
    }
}

/// The amounts a Rikiddo swap settles at, as a function of the pre-trade
/// state: the fee is quoted at the current volume average, and the
/// outcome asset is priced marginally.  Buying an outcome with the base
/// asset converts the fee-reduced base amount at the outcome's price;
/// selling converts at the price and then deducts the fee; the exact-out
/// directions invert those.
pub open spec fn rik_amounts_val(
    pool: Pool,
    l: Ledger,
    asset_in: Asset,
    asset_out: Asset,
    given: SwapGiven,
) -> (int, int) {
    let rik = pool.rikiddo->Some_0;
    let base = pool.base_asset;
    let q = outcome_q(pool.assets@, base, l);
    let fv = crate::rikiddo::fee_val(rik.config, rik.ma.ema);
    let outcome_asset = if asset_in == base {
        asset_out
    } else {
        asset_in
    };
    let p_other = price_val(rik, q, l.issuance_of(outcome_asset));
    if asset_in == base {
        match given {
            SwapGiven::AmountIn(x) => (x as int, bdiv_val(x - bmul_val(x as int, fv), p_other)),
            SwapGiven::AmountOut(y) => (
                bdiv_val(bmul_val(y as int, p_other), BASE - fv),
                y as int,
            ),
        }
    } else {
        match given {
            SwapGiven::AmountIn(x) => (
                x as int,
                bmul_val(x as int, p_other) - bmul_val(bmul_val(x as int, p_other), fv),
            ),
            SwapGiven::AmountOut(y) => (
                bdiv_val(bdiv_val(y as int, BASE - fv), p_other),
                y as int,
            ),
        }
    }
}

/// What a Rikiddo swap computes and whether it goes through, in execution
/// order: pool status, asset membership, the base-asset rule, the quoted
/// spot price, the upfront price bound, the fee, the amounts, zero-amount
/// rejection, transfer feasibility, the post-trade spot price with its
/// tolerance and price bound, and the volume-average update.
pub open spec fn rik_swap_outcome(
    pool: Pool,
    l: Ledger,
    pool_id: u64,
    who: Account,
    asset_in: Asset,
    asset_out: Asset,
    given: SwapGiven,
    max_price: Option<u128>,
) -> Result<(u128, u128), Error> {
    let base = pool.base_asset;
    let rik = pool.rikiddo->Some_0;
    let pacc = Account::PoolAccount(pool_id);
    if pool.status != PoolStatus::Active {
        Err(Error::PoolInactive)
    } else if !pool.assets@.contains(asset_in) {
        Err(Error::AssetNotInPool)
    } else if !pool.assets@.contains(asset_out) {
        Err(Error::AssetNotInPool)
    } else if asset_in != base && asset_out != base {
        Err(Error::UnsupportedTrade)
    } else if asset_in == asset_out {
        Err(Error::UnsupportedTrade)
    } else {
        let q = outcome_q(pool.assets@, base, l);
        let pi_r = if asset_in == base {
            Ok::<u128, Error>(BASE)
        } else {
            price_outcome(rik, q, l.issuance_of(asset_in))
        };
        match pi_r {
            Err(e) => Err(e),
            Ok(p_in) => {
                let po_r = if asset_out == base {
                    Ok::<u128, Error>(BASE)
                } else {
                    price_outcome(rik, q, l.issuance_of(asset_out))
                };
                match po_r {
                    Err(e) => Err(e),
                    Ok(p_out) => match bdiv_spec(p_out, p_in) {
                        Err(e) => Err(e),
                        Ok(sb) => {
                            if max_price is Some && sb > max_price->Some_0 {
                                Err(Error::BadLimitPrice)
                            } else {
                                match fee_outcome(rik.config, rik.ma.ema) {
                                    Err(e) => Err(e),
                                    Ok(f) => match check_sub_spec(BASE, f) {
                                        Err(e) => Err(e),
                                        Ok(fee_part) => {
                                            let amounts_r = if asset_in == base {
                                                match given {
                                                    SwapGiven::AmountIn(x) => match bmul_spec(
                                                        x,
                                                        f,
                                                    ) {
                                                        Err(e) => Err(e),
                                                        Ok(fee_amt) => match check_sub_spec(
                                                            x,
                                                            fee_amt,
                                                        ) {
                                                            Err(e) => Err(e),
                                                            Ok(net) => match bdiv_spec(
                                                                net,
                                                                p_out,
                                                            ) {
                                                                Err(e) => Err(e),
                                                                Ok(ao) => Ok((x, ao)),
                                                            },
                                                        },
                                                    },
                                                    SwapGiven::AmountOut(y) => match bmul_spec(
                                                        y,
                                                        p_out,
                                                    ) {
                                                        Err(e) => Err(e),
                                                        Ok(gross) => match bdiv_spec(
                                                            gross,
                                                            fee_part,
                                                        ) {
                                                            Err(e) => Err(e),
                                                            Ok(ai) => Ok((ai, y)),
                                                        },
                                                    },
                                                }
                                            } else {
                                                match given {
                                                    SwapGiven::AmountIn(x) => match bmul_spec(
                                                        x,
                                                        p_in,
                                                    ) {
                                                        Err(e) => Err(e),
                                                        Ok(gross) => match bmul_spec(gross, f) {
                                                            Err(e) => Err(e),
                                                            Ok(fee_amt) => match check_sub_spec(
                                                                gross,
                                                                fee_amt,
                                                            ) {
                                                                Err(e) => Err(e),
                                                                Ok(net) => Ok((x, net)),
                                                            },
                                                        },
                                                    },
                                                    SwapGiven::AmountOut(y) => match bdiv_spec(
                                                        y,
                                                        fee_part,
                                                    ) {
                                                        Err(e) => Err(e),
                                                        Ok(gross) => match bdiv_spec(
                                                            gross,
                                                            p_in,
                                                        ) {
                                                            Err(e) => Err(e),
                                                            Ok(ai) => Ok((ai, y)),
                                                        },
                                                    },
                                                }
                                            };
                                            match amounts_r {
                                                Err(e) => Err(e),
                                                Ok((ai, ao)) => {
                                                    if ai == 0 || ao == 0 {
                                                        Err(Error::MathApproximation)
                                                    } else {
                                                        let outcome_asset = if asset_in
                                                            == base {
                                                            asset_out
                                                        } else {
                                                            asset_in
                                                        };
                                                        let iss_o = l.issuance_of(
                                                            outcome_asset,
                                                        );
                                                        let feas: Result<(), Error> = if asset_in
                                                            == base {
                                                            if l.balance_of(who, base) < ai {
                                                                Err(Error::InsufficientBalance)
                                                            } else if l.balance_of(pacc, base)
                                                                + ai > u128::MAX {
                                                                Err(Error::ArithmeticError)
                                                            } else if l.balance_of(
                                                                who,
                                                                asset_out,
                                                            ) + ao > u128::MAX {
                                                                Err(Error::ArithmeticError)
                                                            } else if iss_o + ao > u128::MAX {
                                                                Err(Error::ArithmeticError)
                                                            } else {
                                                                Ok(())
                                                            }
                                                        } else {
                                                            if l.balance_of(who, asset_in)
                                                                < ai {
                                                                Err(Error::InsufficientBalance)
                                                            } else if iss_o < ai {
                                                                Err(Error::ArithmeticError)
                                                            } else if l.balance_of(pacc, base)
                                                                < ao {
                                                                Err(Error::InsufficientBalance)
                                                            } else if l.balance_of(who, base)
                                                                + ao > u128::MAX {
                                                                Err(Error::ArithmeticError)
                                                            } else {
                                                                Ok(())
                                                            }
                                                        };
                                                        match feas {
                                                            Err(e) => Err(e),
                                                            Ok(()) => {
                                                                let nv = if asset_in == base {
                                                                    (iss_o + ao) as u128
                                                                } else {
                                                                    (iss_o - ai) as u128
                                                                };
                                                                let q2 = outcome_q_upd(
                                                                    pool.assets@,
                                                                    base,
                                                                    l,
                                                                    outcome_asset,
                                                                    nv,
                                                                );
                                                                match price_outcome(
                                                                    rik,
                                                                    q2,
                                                                    nv,
                                                                ) {
                                                                    Err(e) => Err(e),
                                                                    Ok(p_new) => {
                                                                        let sa_r = if asset_in
                                                                            == base {
                                                                            bdiv_spec(
                                                                                p_new,
                                                                                BASE,
                                                                            )
                                                                        } else {
                                                                            bdiv_spec(
                                                                                BASE,
                                                                                p_new,
                                                                            )
                                                                        };
                                                                        match sa_r {
                                                                            Err(e) => Err(e),
                                                                            Ok(sa) => {
                                                                                if sb > sa && sb
                                                                                    - sa
                                                                                    >= TOLERANCE {
                                                                                    Err(
                                                                                        Error::MathApproximation,
                                                                                    )
                                                                                } else if max_price
                                                                                    is Some && sa
                                                                                    > max_price->Some_0 {
                                                                                    Err(
                                                                                        Error::BadLimitPrice,
                                                                                    )
                                                                                } else {
                                                                                    let vol = if asset_in
                                                                                        == base {
                                                                                        ai
                                                                                    } else {
                                                                                        ao
                                                                                    };
                                                                                    match ema_update_spec(
                                                                                        rik.ma,
                                                                                        vol,
                                                                                    ) {
                                                                                        Err(
                                                                                            e,
                                                                                        ) => Err(e),
                                                                                        Ok(_) => Ok(
                                                                                            (ai, ao),
                                                                                        ),
                                                                                    }
                                                                                }
                                                                            },
                                                                        }
                                                                    },
                                                                }
                                                            },
                                                        }
                                                    }
                                                },
                                            }
                                        },
                                    },
                                }
                            }
                        },
                    },
                }
            },
        }
    }
}

/// Exact-in / exact-out swap through the pool's scoring rule.
///
/// Validates the pool and both assets, reads the spot price, computes the
/// missing amount, checks feasibility and the caller's price bound, then
/// moves the balances: a constant-product pool trades both assets against
/// its own account; a Rikiddo pool moves the base asset through its
/// account and mints or burns the outcome asset directly.  The spot price
/// may not move against the trader (for Rikiddo, beyond [`TOLERANCE`]),
/// and a Rikiddo pool finally folds the base-asset trade size into its
/// volume average.  On any error nothing is changed.
/// The constant-product branch of [`swap_exact_amount`].
#[verifier::rlimit(100)]
#[verifier::spinoff_prover]
fn swap_cpmm(
    pool_ref: &mut Pool,
    ledger: &mut Ledger,
    pool_id: u64,
    who: Account,
    asset_in: Asset,
    asset_out: Asset,
    given: SwapGiven,
    asset_bound: Option<u128>,
    max_price: Option<u128>,
) -> (r: Result<SwapEvent, Error>)
    requires
        old(pool_ref).wf(),
        who is User,
        old(pool_ref).scoring_rule == ScoringRule::CPMM,
    ensures
        *final(pool_ref) == *old(pool_ref),
        r is Err ==> *final(ledger) == *old(ledger),
        match cpmm_swap_outcome(
            *old(pool_ref),
            *old(ledger),
            pool_id,
            who,
            asset_in,
            asset_out,
            given,
            max_price,
        ) {
            Err(e) => r is Err && r->Err_0 == e,
            Ok((ai, ao, sb, sa)) => {
                &&& r is Ok
                &&& r->Ok_0 == (SwapEvent {
                    asset_amount_in: ai,
                    asset_amount_out: ao,
                    asset_bound,
                    asset_in,
                    asset_out,
                    cpep: (CommonPoolEventParams { pool_id, who }),
                    max_price,
                })
                &&& sa >= sb
                &&& cpmm_spot(*old(pool_ref), *old(ledger), pool_id, asset_in, asset_out)
                    == Ok::<u128, Error>(sb)
                &&& cpmm_spot(*old(pool_ref), *final(ledger), pool_id, asset_in, asset_out)
                    == Ok::<u128, Error>(sa)
                &&& (asset_in != asset_out ==> {
                    &&& final(ledger).balance_of(who, asset_in) == old(ledger).balance_of(
                        who,
                        asset_in,
                    ) - ai
                    &&& final(ledger).balance_of(Account::PoolAccount(pool_id), asset_in) == old(
                        ledger,
                    ).balance_of(Account::PoolAccount(pool_id), asset_in) + ai
                    &&& final(ledger).balance_of(who, asset_out) == old(ledger).balance_of(
                        who,
                        asset_out,
                    ) + ao
                    &&& final(ledger).balance_of(Account::PoolAccount(pool_id), asset_out) == old(
                        ledger,
                    ).balance_of(Account::PoolAccount(pool_id), asset_out) - ao
                })
                &&& (asset_in == asset_out ==> {
                    &&& final(ledger).balance_of(who, asset_in) == old(ledger).balance_of(
                        who,
                        asset_in,
                    ) - ai + ao
                    &&& final(ledger).balance_of(Account::PoolAccount(pool_id), asset_in) == old(
                        ledger,
                    ).balance_of(Account::PoolAccount(pool_id), asset_in) + ai - ao
                })
                &&& forall|a2: Account, x2: Asset|
                    !(a2 == who && x2 == asset_in) && !(a2 == Account::PoolAccount(pool_id) && x2
                        == asset_in) && !(a2 == who && x2 == asset_out) && !(a2
                        == Account::PoolAccount(pool_id) && x2 == asset_out) ==> #[trigger]
                        final(ledger).balance_of(a2, x2) == old(ledger).balance_of(a2, x2)
                &&& forall|x2: Asset| #[trigger]
                    final(ledger).issuance_of(x2) == old(ledger).issuance_of(x2)
            },
        },
{
    if pool_ref.status != PoolStatus::Active {
        return Err(Error::PoolInactive);
    }
    if pool_ref.asset_index(&asset_in).is_none() {
        return Err(Error::AssetNotInPool);
    }
    if pool_ref.asset_index(&asset_out).is_none() {
        return Err(Error::AssetNotInPool);
    }
    let pacc = pool_account_id(pool_id);
    if !pool_ref.bound(&asset_in) {
        return Err(Error::AssetNotBound);
    }
    if !pool_ref.bound(&asset_out) {
        return Err(Error::AssetNotBound);
    }
    let bal_in = ledger.free_balance(asset_in, &pacc);
    let bal_out = ledger.free_balance(asset_out, &pacc);
    let w_in = pool_ref.weight_for(&asset_in);
    let w_out = pool_ref.weight_for(&asset_out);
    let sb = match calc_spot_price(bal_in, w_in, bal_out, w_out, pool_ref.swap_fee) {
        Ok(v) => v,
        Err(e) => {
            return Err(e);
        },
    };
    match max_price {
        Some(mp) => {
            if sb > mp {
                return Err(Error::BadLimitPrice);
            }
        },
        None => {},
    }
    let (ai, ao) = match given {
        SwapGiven::AmountIn(amount) => {
            let ao = match calc_out_given_in(
                bal_in,
                w_in,
                bal_out,
                w_out,
                amount,
                pool_ref.swap_fee,
            ) {
                Ok(v) => v,
                Err(e) => {
                    return Err(e);
                },
            };
            (amount, ao)
        },
        SwapGiven::AmountOut(amount) => {
            let ai = match calc_in_given_out(
                bal_in,
                w_in,
                bal_out,
                w_out,
                amount,
                pool_ref.swap_fee,
            ) {
                Ok(v) => v,
                Err(e) => {
                    return Err(e);
                },
            };
            (ai, amount)
        },
    };
    if ai == 0 || ao == 0 {
        return Err(Error::MathApproximation);
    }
    let who_in = ledger.free_balance(asset_in, &who);
    if who_in < ai {
        return Err(Error::InsufficientBalance);
    }
    if bal_in.checked_add(ai).is_none() {
        return Err(Error::ArithmeticError);
    }
    let pacc_out_mid = if asset_out == asset_in {
        bal_in + ai
    } else {
        bal_out
    };
    let who_out_mid = if asset_out == asset_in {
        who_in - ai
    } else {
        ledger.free_balance(asset_out, &who)
    };
    if pacc_out_mid < ao {
        return Err(Error::InsufficientBalance);
    }
    if who_out_mid.checked_add(ao).is_none() {
        return Err(Error::ArithmeticError);
    }
    let nbal_in = if asset_in == asset_out {
        bal_in + ai - ao
    } else {
        bal_in + ai
    };
    let nbal_out = if asset_in == asset_out {
        nbal_in
    } else {
        bal_out - ao
    };
    let sa = match calc_spot_price(nbal_in, w_in, nbal_out, w_out, pool_ref.swap_fee) {
        Ok(v) => v,
        Err(e) => {
            return Err(e);
        },
    };
    if sa < sb {
        return Err(Error::MathApproximation);
    }
    match max_price {
        Some(mp) => {
            if sa > mp {
                return Err(Error::BadLimitPrice);
            }
        },
        None => {},
    }
    let realized = match bdiv(ai, ao) {
        Ok(v) => v,
        Err(e) => {
            return Err(e);
        },
    };
    if sb > realized {
        return Err(Error::MathApproximation);
    }
    match ledger.transfer(asset_in, &who, &pacc, ai) {
        Ok(()) => {},
        Err(e) => {
            proof {
                assert(false);
            }
            return Err(e);
        },
    }
    match ledger.transfer(asset_out, &pacc, &who, ao) {
        Ok(()) => {},
        Err(e) => {
            proof {
                assert(false);
            }
            return Err(e);
        },
    }
    Ok(
        SwapEvent {
            asset_amount_in: ai,
            asset_amount_out: ao,
            asset_bound,
            asset_in,
            asset_out,
            cpep: CommonPoolEventParams { pool_id, who },
            max_price,
        },
    )
}

/// The pure computation of a Rikiddo swap: validation, prices, amounts,
/// feasibility and the next volume average, without touching any state.
/// On success it hands back `(amount_in, amount_out, new_ema)`.
#[verifier::rlimit(100)]
#[verifier::spinoff_prover]
fn rik_compute(
    pool_ref: &Pool,
    ledger: &Ledger,
    pool_id: u64,
    who: Account,
    asset_in: Asset,
    asset_out: Asset,
    given: SwapGiven,
    max_price: Option<u128>,
) -> (r: Result<(u128, u128, u128), Error>)
    requires
        pool_ref.wf(),
        pool_ref.scoring_rule == ScoringRule::RikiddoSigmoidFeeMarketEma,
    ensures
        ({
            &&& match rik_swap_outcome(
                *pool_ref,
                *ledger,
                pool_id,
                who,
                asset_in,
                asset_out,
                given,
                max_price,
            ) {
                Err(e) => r == Err::<(u128, u128, u128), Error>(e),
                Ok((oai, oao)) => r matches Ok(plan) && plan.0 == oai && plan.1 == oao,
            }
            &&& (r matches Ok(plan) ==> {
                let base = pool_ref.base_asset;
                let pacc = Account::PoolAccount(pool_id);
                let ai = plan.0;
                let ao = plan.1;
                let vol = if asset_in == base {
                    ai
                } else {
                    ao
                };
                &&& pool_ref.status == PoolStatus::Active
                &&& pool_ref.assets@.contains(asset_in)
                &&& pool_ref.assets@.contains(asset_out)
                &&& (asset_in == base || asset_out == base)
                &&& asset_in != asset_out
                &&& ai > 0
                &&& ao > 0
                &&& ({
                    let amounts = rik_amounts_val(*pool_ref, *ledger, asset_in, asset_out, given);
                    ai == amounts.0 && ao == amounts.1
                })
                &&& (max_price is Some ==> rik_spot_val(*pool_ref, *ledger, asset_in, asset_out)
                    <= max_price->Some_0)
                &&& (max_price is Some ==> rik_spot_after_val(
                    *pool_ref,
                    *ledger,
                    asset_in,
                    asset_out,
                    ai,
                    ao,
                ) <= max_price->Some_0)
                &&& ({
                    let sbv = rik_spot_val(*pool_ref, *ledger, asset_in, asset_out);
                    let sav = rik_spot_after_val(*pool_ref, *ledger, asset_in, asset_out, ai, ao);
                    sbv > sav ==> sbv - sav < TOLERANCE
                })
                &&& (ema_update_spec(pool_ref.rikiddo->Some_0.ma, vol) matches Ok(nv) && plan.2
                    == nv)
                &&& (asset_in == base ==> ledger.balance_of(who, base) >= ai && ledger.balance_of(
                    pacc,
                    base,
                ) + ai <= u128::MAX && ledger.balance_of(who, asset_out) + ao <= u128::MAX
                    && ledger.issuance_of(asset_out) + ao <= u128::MAX)
                &&& (asset_out == base ==> ledger.balance_of(who, asset_in) >= ai
                    && ledger.issuance_of(asset_in) >= ai && ledger.balance_of(pacc, base) >= ao
                    && ledger.balance_of(who, base) + ao <= u128::MAX)
            })
        }),
{
    if pool_ref.status != PoolStatus::Active {
        return Err(Error::PoolInactive);
    }
    if pool_ref.asset_index(&asset_in).is_none() {
        return Err(Error::AssetNotInPool);
    }
    if pool_ref.asset_index(&asset_out).is_none() {
        return Err(Error::AssetNotInPool);
    }
    let pacc = pool_account_id(pool_id);
    let base = pool_ref.base_asset;
    if !(asset_in == base) && !(asset_out == base) {
        return Err(Error::UnsupportedTrade);
    }
    if asset_in == asset_out {
        return Err(Error::UnsupportedTrade);
    }
    let rik = match pool_ref.rikiddo {
        Some(rk) => rk,
        None => {
            proof {
                assert(false);
            }
            return Err(Error::InvalidScoringRule);
        },
    };
    let q = gather_outcome_q(pool_ref, ledger, None);
    proof {
        if asset_in != base {
            lemma_outcome_q_contains(
                pool_ref.assets@,
                base,
                *ledger,
                asset_in,
            );
        }
        if asset_out != base {
            lemma_outcome_q_contains(
                pool_ref.assets@,
                base,
                *ledger,
                asset_out,
            );
        }
    }
    let p_in = if asset_in == base {
        BASE
    } else {
        let iss_in = ledger.total_issuance(asset_in);
        match rik.price(&q, iss_in) {
            Ok(v) => v,
            Err(e) => {
                return Err(e);
            },
        }
    };
    let p_out = if asset_out == base {
        BASE
    } else {
        let iss_out = ledger.total_issuance(asset_out);
        match rik.price(&q, iss_out) {
            Ok(v) => v,
            Err(e) => {
                return Err(e);
            },
        }
    };
    let sb = match bdiv(p_out, p_in) {
        Ok(v) => v,
        Err(e) => {
            return Err(e);
        },
    };
    match max_price {
        Some(mp) => {
            if sb > mp {
                return Err(Error::BadLimitPrice);
            }
        },
        None => {},
    }
    let f = match rik.fee() {
        Ok(v) => v,
        Err(e) => {
            return Err(e);
        },
    };
    let fee_part = match check_sub(BASE, f) {
        Ok(v) => v,
        Err(e) => {
            return Err(e);
        },
    };
    let (ai, ao) = if asset_in == base {
        match given {
            SwapGiven::AmountIn(amount) => {
                let fee_amt = match bmul(amount, f) {
                    Ok(v) => v,
                    Err(e) => {
                        return Err(e);
                    },
                };
                let net = match check_sub(amount, fee_amt) {
                    Ok(v) => v,
                    Err(e) => {
                        return Err(e);
                    },
                };
                let ao = match bdiv(net, p_out) {
                    Ok(v) => v,
                    Err(e) => {
                        return Err(e);
                    },
                };
                (amount, ao)
            },
            SwapGiven::AmountOut(amount) => {
                let gross = match bmul(amount, p_out) {
                    Ok(v) => v,
                    Err(e) => {
                        return Err(e);
                    },
                };
                let ai = match bdiv(gross, fee_part) {
                    Ok(v) => v,
                    Err(e) => {
                        return Err(e);
                    },
                };
                (ai, amount)
            },
        }
    } else {
        match given {
            SwapGiven::AmountIn(amount) => {
                let gross = match bmul(amount, p_in) {
                    Ok(v) => v,
                    Err(e) => {
                        return Err(e);
                    },
                };
                let fee_amt = match bmul(gross, f) {
                    Ok(v) => v,
                    Err(e) => {
                        return Err(e);
                    },
                };
                let net = match check_sub(gross, fee_amt) {
                    Ok(v) => v,
                    Err(e) => {
                        return Err(e);
                    },
                };
                (amount, net)
            },
            SwapGiven::AmountOut(amount) => {
                let gross = match bdiv(amount, fee_part) {
                    Ok(v) => v,
                    Err(e) => {
                        return Err(e);
                    },
                };
                let ai = match bdiv(gross, p_in) {
                    Ok(v) => v,
                    Err(e) => {
                        return Err(e);
                    },
                };
                (ai, amount)
            },
        }
    };
    if ai == 0 || ao == 0 {
        return Err(Error::MathApproximation);
    }
    let outcome_asset = if asset_in == base {
        asset_out
    } else {
        asset_in
    };
    proof {
        let k = choose|k: int|
            0 <= k < pool_ref.assets@.len() && pool_ref.assets@[k] == outcome_asset;
        assert(!(outcome_asset is PoolShare));
    }
    let iss_outcome = ledger.total_issuance(outcome_asset);
    if asset_in == base {
        let who_base = ledger.free_balance(base, &who);
        if who_base < ai {
            return Err(Error::InsufficientBalance);
        }
        let pacc_base = ledger.free_balance(base, &pacc);
        if pacc_base.checked_add(ai).is_none() {
            return Err(Error::ArithmeticError);
        }
        let who_out = ledger.free_balance(asset_out, &who);
        if who_out.checked_add(ao).is_none() {
            return Err(Error::ArithmeticError);
        }
        if iss_outcome.checked_add(ao).is_none() {
            return Err(Error::ArithmeticError);
        }
    } else {
        let who_in = ledger.free_balance(asset_in, &who);
        if who_in < ai {
            return Err(Error::InsufficientBalance);
        }
        if iss_outcome < ai {
            return Err(Error::ArithmeticError);
        }
        let pacc_base = ledger.free_balance(base, &pacc);
        if pacc_base < ao {
            return Err(Error::InsufficientBalance);
        }
        let who_base = ledger.free_balance(base, &who);
        if who_base.checked_add(ao).is_none() {
            return Err(Error::ArithmeticError);
        }
    }
    let nv = if asset_in == base {
        iss_outcome + ao
    } else {
        iss_outcome - ai
    };
    let q2 = gather_outcome_q(pool_ref, ledger, Some((outcome_asset, nv)));
    proof {
        lemma_outcome_q_upd_contains(pool_ref.assets@, base, *ledger, outcome_asset, nv);
    }
    let p_new = match rik.price(&q2, nv) {
        Ok(v) => v,
        Err(e) => {
            return Err(e);
        },
    };
    let sa = if asset_in == base {
        match bdiv(p_new, BASE) {
            Ok(v) => v,
            Err(e) => {
                return Err(e);
            },
        }
    } else {
        match bdiv(BASE, p_new) {
            Ok(v) => v,
            Err(e) => {
                return Err(e);
            },
        }
    };
    if sb > sa && sb - sa >= TOLERANCE {
        return Err(Error::MathApproximation);
    }
    match max_price {
        Some(mp) => {
            if sa > mp {
                return Err(Error::BadLimitPrice);
            }
        },
        None => {},
    }
    let vol = if asset_in == base {
        ai
    } else {
        ao
    };
    let fresh = match bmul(rik.ma.smoothing, vol) {
        Ok(v) => v,
        Err(e) => {
            return Err(e);
        },
    };
    let keep = match check_sub(BASE, rik.ma.smoothing) {
        Ok(v) => v,
        Err(e) => {
            return Err(e);
        },
    };
    let carried = match bmul(keep, rik.ma.ema) {
        Ok(v) => v,
        Err(e) => {
            return Err(e);
        },
    };
    let new_ema = match check_add(fresh, carried) {
        Ok(v) => v,
        Err(e) => {
            return Err(e);
        },
    };
    Ok((ai, ao, new_ema))
}

/// The Rikiddo branch of [`swap_exact_amount`].
#[verifier::rlimit(100)]
#[verifier::spinoff_prover]
fn swap_rikiddo(
    pool_ref: &mut Pool,
    ledger: &mut Ledger,
    pool_id: u64,
    who: Account,
    asset_in: Asset,
    asset_out: Asset,
    given: SwapGiven,
    asset_bound: Option<u128>,
    max_price: Option<u128>,
) -> (r: Result<SwapEvent, Error>)
    requires
        old(pool_ref).wf(),
        who is User,
        old(pool_ref).scoring_rule == ScoringRule::RikiddoSigmoidFeeMarketEma,
    ensures
        final(pool_ref).wf(),
        r is Err ==> *final(pool_ref) == *old(pool_ref) && *final(ledger) == *old(ledger),
        ({
            &&& match rik_swap_outcome(
                *old(pool_ref),
                *old(ledger),
                pool_id,
                who,
                asset_in,
                asset_out,
                given,
                max_price,
            ) {
                Err(e) => r is Err && r->Err_0 == e,
                Ok((oai, oao)) => r is Ok && r->Ok_0.asset_amount_in == oai
                    && r->Ok_0.asset_amount_out == oao,
            }
            &&& (r matches Ok(ev) ==> {
                let base = old(pool_ref).base_asset;
                let ai = ev.asset_amount_in;
                let ao = ev.asset_amount_out;
                let vol = if asset_in == base {
                    ai
                } else {
                    ao
                };
                &&& old(pool_ref).status == PoolStatus::Active
                &&& old(pool_ref).assets@.contains(asset_in)
                &&& old(pool_ref).assets@.contains(asset_out)
                &&& (asset_in == base || asset_out == base)
                &&& asset_in != asset_out
                &&& ai > 0
                &&& ao > 0
                &&& {
                    let amounts = rik_amounts_val(
                        *old(pool_ref),
                        *old(ledger),
                        asset_in,
                        asset_out,
                        given,
                    );
                    ai == amounts.0 && ao == amounts.1
                }
                &&& ev.asset_in == asset_in
                &&& ev.asset_out == asset_out
                &&& ev.asset_bound == asset_bound
                &&& ev.max_price == max_price
                &&& ev.cpep == (CommonPoolEventParams { pool_id, who })
                &&& (max_price is Some ==> rik_spot_val(
                    *old(pool_ref),
                    *old(ledger),
                    asset_in,
                    asset_out,
                ) <= max_price->Some_0)
                &&& (max_price is Some ==> rik_spot_after_val(
                    *old(pool_ref),
                    *old(ledger),
                    asset_in,
                    asset_out,
                    ai,
                    ao,
                ) <= max_price->Some_0)
                &&& {
                    let sbv = rik_spot_val(*old(pool_ref), *old(ledger), asset_in, asset_out);
                    let sav = rik_spot_after_val(
                        *old(pool_ref),
                        *old(ledger),
                        asset_in,
                        asset_out,
                        ai,
                        ao,
                    );
                    sbv > sav ==> sbv - sav < TOLERANCE
                }
                &&& ema_update_spec(old(pool_ref).rikiddo->Some_0.ma, vol) matches Ok(nv)
                    && *final(pool_ref) == (Pool {
                    rikiddo: Some(
                        RikiddoSigmoidMV {
                            config: old(pool_ref).rikiddo->Some_0.config,
                            ma: (EmaMarketVolume {
                                smoothing: old(pool_ref).rikiddo->Some_0.ma.smoothing,
                                ema: nv,
                            }),
                        },
                    ),
                    ..*old(pool_ref)
                })
                &&& (asset_in == base ==> {
                    &&& final(ledger).balance_of(who, base) == old(ledger).balance_of(who, base)
                        - ai
                    &&& final(ledger).balance_of(Account::PoolAccount(pool_id), base) == old(
                        ledger,
                    ).balance_of(Account::PoolAccount(pool_id), base) + ai
                    &&& final(ledger).balance_of(who, asset_out) == old(ledger).balance_of(
                        who,
                        asset_out,
                    ) + ao
                    &&& final(ledger).issuance_of(asset_out) == old(ledger).issuance_of(
                        asset_out,
                    ) + ao
                    &&& forall|a2: Account, x2: Asset|
                        !(a2 == who && x2 == base) && !(a2 == Account::PoolAccount(pool_id) && x2
                            == base) && !(a2 == who && x2 == asset_out) ==> #[trigger]
                            final(ledger).balance_of(a2, x2) == old(ledger).balance_of(a2, x2)
                    &&& forall|x2: Asset|
                        x2 != asset_out ==> #[trigger] final(ledger).issuance_of(x2) == old(
                            ledger,
                        ).issuance_of(x2)
                })
                &&& (asset_out == base ==> {
                    &&& final(ledger).balance_of(who, asset_in) == old(ledger).balance_of(
                        who,
                        asset_in,
                    ) - ai
                    &&& final(ledger).issuance_of(asset_in) == old(ledger).issuance_of(asset_in)
                        - ai
                    &&& final(ledger).balance_of(who, base) == old(ledger).balance_of(who, base)
                        + ao
                    &&& final(ledger).balance_of(Account::PoolAccount(pool_id), base) == old(
                        ledger,
                    ).balance_of(Account::PoolAccount(pool_id), base) - ao
                    &&& forall|a2: Account, x2: Asset|
                        !(a2 == who && x2 == base) && !(a2 == Account::PoolAccount(pool_id) && x2
                            == base) && !(a2 == who && x2 == asset_in) ==> #[trigger]
                            final(ledger).balance_of(a2, x2) == old(ledger).balance_of(a2, x2)
                    &&& forall|x2: Asset|
                        x2 != asset_in ==> #[trigger] final(ledger).issuance_of(x2) == old(
                            ledger,
                        ).issuance_of(x2)
                })
            })
        }),
{
    let plan = match rik_compute(
        pool_ref,
        ledger,
        pool_id,
        who,
        asset_in,
        asset_out,
        given,
        max_price,
    ) {
        Ok(p) => p,
        Err(e) => {
            return Err(e);
        },
    };
    let (ai, ao, new_ema) = plan;
    let base = pool_ref.base_asset;
    let pacc = pool_account_id(pool_id);
    let rik = match pool_ref.rikiddo {
        Some(rk) => rk,
        None => {
            proof {
                assert(false);
            }
            return Err(Error::InvalidScoringRule);
        },
    };
    let outcome_asset = if asset_in == base {
        asset_out
    } else {
        asset_in
    };
    proof {
        let k = choose|k: int|
            0 <= k < pool_ref.assets@.len() && pool_ref.assets@[k] == outcome_asset;
        assert(!(outcome_asset is PoolShare));
    }
    if asset_in == base {
        match ledger.transfer(base, &who, &pacc, ai) {
            Ok(()) => {},
            Err(e) => {
                proof {
                    assert(false);
                }
                return Err(e);
            },
        }
        match ledger.deposit(asset_out, &who, ao) {
            Ok(()) => {},
            Err(e) => {
                proof {
                    assert(false);
                }
                return Err(e);
            },
        }
    } else {
        match ledger.withdraw(asset_in, &who, ai) {
            Ok(()) => {},
            Err(e) => {
                proof {
                    assert(false);
                }
                return Err(e);
            },
        }
        match ledger.transfer(base, &pacc, &who, ao) {
            Ok(()) => {},
            Err(e) => {
                proof {
                    assert(false);
                }
                return Err(e);
            },
        }
    }
    pool_ref.rikiddo = Some(
        RikiddoSigmoidMV {
            config: rik.config,
            ma: EmaMarketVolume { smoothing: rik.ma.smoothing, ema: new_ema },
        },
    );
    Ok(
        SwapEvent {
            asset_amount_in: ai,
            asset_amount_out: ao,
            asset_bound,
            asset_in,
            asset_out,
            cpep: CommonPoolEventParams { pool_id, who },
            max_price,
        },
    )
}

#[verifier::rlimit(100)]
#[verifier::spinoff_prover]
pub fn swap_exact_amount(
    pool_ref: &mut Pool,
    ledger: &mut Ledger,
    pool_id: u64,
    who: Account,
    asset_in: Asset,
    asset_out: Asset,
    given: SwapGiven,
    asset_bound: Option<u128>,
    max_price: Option<u128>,
) -> (r: Result<SwapEvent, Error>)
    requires
        old(pool_ref).wf(),
        who is User,
    ensures
        final(pool_ref).wf(),
        r is Err ==> *final(pool_ref) == *old(pool_ref) && *final(ledger) == *old(ledger),
        old(pool_ref).scoring_rule == ScoringRule::CPMM ==> *final(pool_ref) == *old(pool_ref)
            && match cpmm_swap_outcome(
            *old(pool_ref),
            *old(ledger),
            pool_id,
            who,
            asset_in,
            asset_out,
            given,
            max_price,
        ) {
            Err(e) => r is Err && r->Err_0 == e,
            Ok((ai, ao, sb, sa)) => {
                &&& r is Ok
                &&& r->Ok_0 == (SwapEvent {
                    asset_amount_in: ai,
                    asset_amount_out: ao,
                    asset_bound,
                    asset_in,
                    asset_out,
                    cpep: (CommonPoolEventParams { pool_id, who }),
                    max_price,
                })
                &&& sa >= sb
                &&& cpmm_spot(*old(pool_ref), *old(ledger), pool_id, asset_in, asset_out)
                    == Ok::<u128, Error>(sb)
                &&& cpmm_spot(*old(pool_ref), *final(ledger), pool_id, asset_in, asset_out)
                    == Ok::<u128, Error>(sa)
                &&& (asset_in != asset_out ==> {
                    &&& final(ledger).balance_of(who, asset_in) == old(ledger).balance_of(
                        who,
                        asset_in,
                    ) - ai
                    &&& final(ledger).balance_of(Account::PoolAccount(pool_id), asset_in) == old(
                        ledger,
                    ).balance_of(Account::PoolAccount(pool_id), asset_in) + ai
                    &&& final(ledger).balance_of(who, asset_out) == old(ledger).balance_of(
                        who,
                        asset_out,
                    ) + ao
                    &&& final(ledger).balance_of(Account::PoolAccount(pool_id), asset_out) == old(
                        ledger,
                    ).balance_of(Account::PoolAccount(pool_id), asset_out) - ao
                })
                &&& (asset_in == asset_out ==> {
                    &&& final(ledger).balance_of(who, asset_in) == old(ledger).balance_of(
                        who,
                        asset_in,
                    ) - ai + ao
                    &&& final(ledger).balance_of(Account::PoolAccount(pool_id), asset_in) == old(
                        ledger,
                    ).balance_of(Account::PoolAccount(pool_id), asset_in) + ai - ao
                })
                &&& forall|a2: Account, x2: Asset|
                    !(a2 == who && x2 == asset_in) && !(a2 == Account::PoolAccount(pool_id) && x2
                        == asset_in) && !(a2 == who && x2 == asset_out) && !(a2
                        == Account::PoolAccount(pool_id) && x2 == asset_out) ==> #[trigger]
                        final(ledger).balance_of(a2, x2) == old(ledger).balance_of(a2, x2)
                &&& forall|x2: Asset| #[trigger]
                    final(ledger).issuance_of(x2) == old(ledger).issuance_of(x2)
            },
        },
        old(pool_ref).scoring_rule == ScoringRule::RikiddoSigmoidFeeMarketEma ==> {
            &&& match rik_swap_outcome(
                *old(pool_ref),
                *old(ledger),
                pool_id,
                who,
                asset_in,
                asset_out,
                given,
                max_price,
            ) {
                Err(e) => r is Err && r->Err_0 == e,
                Ok((oai, oao)) => r is Ok && r->Ok_0.asset_amount_in == oai
                    && r->Ok_0.asset_amount_out == oao,
            }
            &&& (r matches Ok(ev) ==> {
                let base = old(pool_ref).base_asset;
                let ai = ev.asset_amount_in;
                let ao = ev.asset_amount_out;
                let vol = if asset_in == base {
                    ai
                } else {
                    ao
                };
                &&& old(pool_ref).status == PoolStatus::Active
                &&& old(pool_ref).assets@.contains(asset_in)
                &&& old(pool_ref).assets@.contains(asset_out)
                &&& (asset_in == base || asset_out == base)
                &&& asset_in != asset_out
                &&& ai > 0
                &&& ao > 0
                &&& {
                    let amounts = rik_amounts_val(
                        *old(pool_ref),
                        *old(ledger),
                        asset_in,
                        asset_out,
                        given,
                    );
                    ai == amounts.0 && ao == amounts.1
                }
                &&& ev.asset_in == asset_in
                &&& ev.asset_out == asset_out
                &&& ev.asset_bound == asset_bound
                &&& ev.max_price == max_price
                &&& ev.cpep == (CommonPoolEventParams { pool_id, who })
                &&& (max_price is Some ==> rik_spot_val(
                    *old(pool_ref),
                    *old(ledger),
                    asset_in,
                    asset_out,
                ) <= max_price->Some_0)
                &&& (max_price is Some ==> rik_spot_after_val(
                    *old(pool_ref),
                    *old(ledger),
                    asset_in,
                    asset_out,
                    ai,
                    ao,
                ) <= max_price->Some_0)
                &&& {
                    let sbv = rik_spot_val(*old(pool_ref), *old(ledger), asset_in, asset_out);
                    let sav = rik_spot_after_val(
                        *old(pool_ref),
                        *old(ledger),
                        asset_in,
                        asset_out,
                        ai,
                        ao,
                    );
                    sbv > sav ==> sbv - sav < TOLERANCE
                }
                &&& ema_update_spec(old(pool_ref).rikiddo->Some_0.ma, vol) matches Ok(nv)
                    && *final(pool_ref) == (Pool {
                    rikiddo: Some(
                        RikiddoSigmoidMV {
                            config: old(pool_ref).rikiddo->Some_0.config,
                            ma: (EmaMarketVolume {
                                smoothing: old(pool_ref).rikiddo->Some_0.ma.smoothing,
                                ema: nv,
                            }),
                        },
                    ),
                    ..*old(pool_ref)
                })
                &&& (asset_in == base ==> {
                    &&& final(ledger).balance_of(who, base) == old(ledger).balance_of(who, base)
                        - ai
                    &&& final(ledger).balance_of(Account::PoolAccount(pool_id), base) == old(
                        ledger,
                    ).balance_of(Account::PoolAccount(pool_id), base) + ai
                    &&& final(ledger).balance_of(who, asset_out) == old(ledger).balance_of(
                        who,
                        asset_out,
                    ) + ao
                    &&& final(ledger).issuance_of(asset_out) == old(ledger).issuance_of(
                        asset_out,
                    ) + ao
                    &&& forall|a2: Account, x2: Asset|
                        !(a2 == who && x2 == base) && !(a2 == Account::PoolAccount(pool_id) && x2
                            == base) && !(a2 == who && x2 == asset_out) ==> #[trigger]
                            final(ledger).balance_of(a2, x2) == old(ledger).balance_of(a2, x2)
                    &&& forall|x2: Asset|
                        x2 != asset_out ==> #[trigger] final(ledger).issuance_of(x2) == old(
                            ledger,
                        ).issuance_of(x2)
                })
                &&& (asset_out == base ==> {
                    &&& final(ledger).balance_of(who, asset_in) == old(ledger).balance_of(
                        who,
                        asset_in,
                    ) - ai
                    &&& final(ledger).issuance_of(asset_in) == old(ledger).issuance_of(asset_in)
                        - ai
                    &&& final(ledger).balance_of(who, base) == old(ledger).balance_of(who, base)
                        + ao
                    &&& final(ledger).balance_of(Account::PoolAccount(pool_id), base) == old(
                        ledger,
                    ).balance_of(Account::PoolAccount(pool_id), base) - ao
                    &&& forall|a2: Account, x2: Asset|
                        !(a2 == who && x2 == base) && !(a2 == Account::PoolAccount(pool_id) && x2
                            == base) && !(a2 == who && x2 == asset_in) ==> #[trigger]
                            final(ledger).balance_of(a2, x2) == old(ledger).balance_of(a2, x2)
                    &&& forall|x2: Asset|
                        x2 != asset_in ==> #[trigger] final(ledger).issuance_of(x2) == old(
                            ledger,
                        ).issuance_of(x2)
                })
            })
        },
{
    match pool_ref.scoring_rule {
        ScoringRule::CPMM => swap_cpmm(
            pool_ref,
            ledger,
            pool_id,
            who,
            asset_in,
            asset_out,
            given,
            asset_bound,
            max_price,
        ),
        ScoringRule::RikiddoSigmoidFeeMarketEma => swap_rikiddo(
            pool_ref,
            ledger,
            pool_id,
            who,
            asset_in,
            asset_out,
            given,
            asset_bound,
            max_price,
        ),
    }
}

} // verus!
