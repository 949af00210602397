//! The pool data model: assets, accounts, pool state and its invariant.
//!
//! An asset is an opaque, totally ordered identifier; a pool keeps its
//! assets strictly sorted so that membership is a binary search.  Each pool
//! fixes its scoring rule, base asset, swap fee and (for the constant
//! product rule) per-asset weights at creation; only balances, the status
//! and the Rikiddo volume average change afterwards.

use vstd::prelude::*;
use vstd::assert_seqs_equal;

use crate::fixed::BASE;
use crate::rikiddo::RikiddoSigmoidMV;

verus! {

/// An asset identifier: the native currency, an outcome share of a market,
/// or the share token of a liquidity pool.
#[derive(Clone, Copy, Debug, PartialEq, Eq, Structural)]
pub enum Asset {
    /// The native base currency.
    Ztg,
    /// Outcome share `index` of the market `market_id`.
    CategoricalOutcome(u64, u16),
    /// The pool-share token of the pool `pool_id`.
    PoolShare(u64),
}

/// An account: an ordinary user account or the account a pool owns.
#[derive(Clone, Copy, Debug, PartialEq, Eq, Structural)]
pub enum Account {
    /// A user account.
    User(u64),
    /// The account that holds the reserves of the pool `pool_id`.
    PoolAccount(u64),
}

/// Which pricing strategy a pool uses; fixed at pool creation.
#[derive(Clone, Copy, Debug, PartialEq, Eq, Structural)]
pub enum ScoringRule {
    /// Weighted constant-product market maker.
    CPMM,
    /// Logarithmic market scoring rule with a sigmoid fee over an
    /// exponential moving average of volume.
    RikiddoSigmoidFeeMarketEma,
}

/// Whether a pool accepts operations.
#[derive(Clone, Copy, Debug, PartialEq, Eq, Structural)]
pub enum PoolStatus {
    /// Join, exit and swap are permitted.
    Active,
    /// Terminal state: no further operations.
    Closed,
}

/// Discriminant used by the total order on assets.
pub open spec fn asset_tag(a: Asset) -> int {
    match a {
        Asset::Ztg => 0,
        Asset::CategoricalOutcome(_, _) => 1,
        Asset::PoolShare(_) => 2,
    }
}

/// The strict total order on assets: by kind, then by identifier fields.
pub open spec fn asset_lt(a: Asset, b: Asset) -> bool {
    asset_tag(a) < asset_tag(b) || (asset_tag(a) == asset_tag(b) && match (a, b) {
        (Asset::CategoricalOutcome(m1, i1), Asset::CategoricalOutcome(m2, i2)) => m1 < m2 || (m1
            == m2 && i1 < i2),
        (Asset::PoolShare(p1), Asset::PoolShare(p2)) => p1 < p2,
        _ => false,
    })
}

/// `asset_lt` is a strict total order: asymmetric, connected and transitive.
pub proof fn lemma_asset_lt_order()
    ensures
        forall|a: Asset, b: Asset| #[trigger] asset_lt(a, b) ==> !asset_lt(b, a) && a != b,
        forall|a: Asset, b: Asset| a != b ==> #[trigger] asset_lt(a, b) || asset_lt(b, a),
        forall|a: Asset, b: Asset, c: Asset|
            #[trigger] asset_lt(a, b) && #[trigger] asset_lt(b, c) ==> asset_lt(a, c),
{
}

/// Decide the strict order between two assets.
pub fn asset_precedes(a: &Asset, b: &Asset) -> (r: bool)
    ensures
        r == asset_lt(*a, *b),
{
    match (a, b) {
        (Asset::Ztg, Asset::Ztg) => false,
        (Asset::Ztg, _) => true,
        (Asset::CategoricalOutcome(_, _), Asset::Ztg) => false,
        (Asset::CategoricalOutcome(m1, i1), Asset::CategoricalOutcome(m2, i2)) => *m1 < *m2 || (*m1
            == *m2 && *i1 < *i2),
        (Asset::CategoricalOutcome(_, _), Asset::PoolShare(_)) => true,
        (Asset::PoolShare(p1), Asset::PoolShare(p2)) => *p1 < *p2,
        (Asset::PoolShare(_), _) => false,
    }
}

/// A sequence of assets in strictly increasing order (hence without
/// duplicates).
pub open spec fn sorted_assets(s: Seq<Asset>) -> bool {
    forall|i: int, j: int| 0 <= i < j < s.len() ==> asset_lt(s[i], s[j])
}

/// In a sorted sequence every asset occurs at most once.
pub proof fn lemma_sorted_distinct(s: Seq<Asset>)
    requires
        sorted_assets(s),
    ensures
        forall|i: int, j: int|
            0 <= i < s.len() && 0 <= j < s.len() && i != j ==> #[trigger] s[i] != #[trigger] s[j],
{
    lemma_asset_lt_order();
    assert forall|i: int, j: int|
        0 <= i < s.len() && 0 <= j < s.len() && i != j implies #[trigger] s[i] != #[trigger] s[j] by {
        if i < j {
            assert(asset_lt(s[i], s[j]));
        } else {
            assert(asset_lt(s[j], s[i]));
        }
    }
}

/// Sum of a sequence of weights.
pub open spec fn sum_weights(s: Seq<u128>) -> int
    decreases s.len(),
{
    if s.len() == 0 {
        0
    } else {
        sum_weights(s.drop_last()) + s.last()
    }
}

/// The account that holds the reserves of the pool `pool_id`.
pub fn pool_account_id(pool_id: u64) -> (r: Account)
    ensures
        r == Account::PoolAccount(pool_id),
{
    Account::PoolAccount(pool_id)
}

/// The asset in which the shares of the pool `pool_id` are denominated.
pub fn pool_shares_id(pool_id: u64) -> (r: Asset)
    ensures
        r == Asset::PoolShare(pool_id),
{
    Asset::PoolShare(pool_id)
}

/// The aggregate state of one liquidity pool.
pub struct Pool {
    /// The tradeable assets, strictly sorted.
    pub assets: Vec<Asset>,
    /// The designated numeraire; one of `assets`.
    pub base_asset: Asset,
    /// The pricing strategy, fixed at creation.
    pub scoring_rule: ScoringRule,
    /// Whether operations are permitted.
    pub status: PoolStatus,
    /// Fraction of trade volume charged as fee, below one.
    pub swap_fee: u128,
    /// Sum of all weights (constant-product pools only; zero otherwise).
    pub total_weight: u128,
    /// Per-asset weights, parallel to `assets` (constant-product pools only).
    pub weights: Option<Vec<u128>>,
    /// The Rikiddo state (Rikiddo pools only).
    pub rikiddo: Option<RikiddoSigmoidMV>,
}

impl Pool {
    /// The pool invariant: assets sorted and non-trivial, the base asset a
    /// member, the fee a proper fraction, and the strategy-specific fields
    /// present exactly for the strategy in use.
    pub open spec fn wf(self) -> bool {
        &&& self.assets@.len() >= 2
        &&& sorted_assets(self.assets@)
        &&& self.assets@.contains(self.base_asset)
        &&& forall|i: int| 0 <= i < self.assets@.len() ==> !(#[trigger] self.assets@[i] is PoolShare)
        &&& self.swap_fee < BASE
        &&& match self.scoring_rule {
            ScoringRule::CPMM => {
                &&& self.rikiddo is None
                &&& match self.weights {
                    Some(w) => {
                        &&& w@.len() == self.assets@.len()
                        &&& forall|i: int| 0 <= i < w@.len() ==> 0 < #[trigger] w@[i]
                        &&& self.total_weight == sum_weights(w@)
                    },
                    None => false,
                }
            },
            ScoringRule::RikiddoSigmoidFeeMarketEma => {
                &&& self.weights is None
                &&& match self.rikiddo {
                    Some(rik) => rik.wf(),
                    None => false,
                }
            },
        }
    }

    /// Binary search for `asset` among the pool's sorted assets.
    pub fn asset_index(&self, asset: &Asset) -> (r: Option<usize>)
        requires
            sorted_assets(self.assets@),
        ensures
            match r {
                Some(i) => i < self.assets@.len() && self.assets@[i as int] == *asset,
                None => !self.assets@.contains(*asset),
            },
            r is Some <==> self.assets@.contains(*asset),
    {
        proof {
            lemma_asset_lt_order();
        }
        let mut lo: usize = 0;
        let mut hi: usize = self.assets.len();
        while lo < hi
            invariant
                lo <= hi <= self.assets@.len(),
                sorted_assets(self.assets@),
                forall|i: int| 0 <= i < lo ==> asset_lt(#[trigger] self.assets@[i], *asset),
                forall|i: int|
                    hi <= i < self.assets@.len() ==> !asset_lt(#[trigger] self.assets@[i], *asset),
                forall|a: Asset, b: Asset| #[trigger] asset_lt(a, b) ==> !asset_lt(b, a) && a != b,
                forall|a: Asset, b: Asset| a != b ==> #[trigger] asset_lt(a, b) || asset_lt(b, a),
                forall|a: Asset, b: Asset, c: Asset|
                    #[trigger] asset_lt(a, b) && #[trigger] asset_lt(b, c) ==> asset_lt(a, c),
            decreases hi - lo,
        {
            let mid = lo + (hi - lo) / 2;
            if asset_precedes(&self.assets[mid], asset) {
                lo = mid + 1;
            } else {
                hi = mid;
            }
        }
        if lo < self.assets.len() {
            let found = self.assets[lo];
            if found == *asset {
                return Some(lo);
            }
        }
        proof {
            assert forall|i: int| 0 <= i < self.assets@.len() implies self.assets@[i]
                != *asset by {
                if i < lo {
                    assert(asset_lt(self.assets@[i], *asset));
                } else {
                    assert(!asset_lt(self.assets@[i], *asset));
                }
            }
            if self.assets@.contains(*asset) {
                let i = choose|i: int| 0 <= i < self.assets@.len() && self.assets@[i] == *asset;
                assert(false);
            }
        }
        None
    }

    /// Whether `asset` is a bound (exchangeable) asset of the pool: a member
    /// of a pool that carries weights.
    pub open spec fn bound_spec(self, asset: Asset) -> bool {
        self.weights is Some && self.assets@.contains(asset)
    }

    /// Whether `asset` is bound to the pool.
    pub fn bound(&self, asset: &Asset) -> (r: bool)
        requires
            sorted_assets(self.assets@),
        ensures
            r == self.bound_spec(*asset),
    {
        match &self.weights {
            Some(_) => self.asset_index(asset).is_some(),
            None => false,
        }
    }

    /// The weight assigned to `asset`, for constant-product pools.
    pub open spec fn weight_of(self, asset: Asset) -> u128 {
        self.weights->Some_0@[self.assets@.index_of(asset)]
    }

    /// Look up the weight assigned to a bound asset.
    pub fn weight_for(&self, asset: &Asset) -> (r: u128)
        requires
            self.wf(),
            self.bound_spec(*asset),
        ensures
            r == self.weight_of(*asset),
    {
        proof {
            lemma_sorted_distinct(self.assets@);
            assert(self.assets@[self.assets@.index_of(*asset)] == *asset);
        }
        match self.asset_index(asset) {
            Some(i) => self.weight_at(i),
            None => 0,
        }
    }

    /// The weight of the asset at index `i`, for constant-product pools.
    pub fn weight_at(&self, i: usize) -> (r: u128)
        requires
            self.weights is Some,
            i < self.weights->Some_0@.len(),
        ensures
            r == self.weights->Some_0@[i as int],
    {
        match &self.weights {
            Some(w) => w[i],
            None => 0,
        }
    }
}

/// The pool registry: resolves a pool identifier to the pool's state.
/// Identifiers are dense indices handed out at creation.
pub struct PoolRegistry {
    pools: Vec<Pool>,
}

impl PoolRegistry {
    /// How many pools have been created.
    pub closed spec fn len(self) -> int {
        self.pools@.len() as int
    }

    /// The pool registered under `pool_id`.
    pub closed spec fn pool_at(self, pool_id: int) -> Pool {
        self.pools@[pool_id]
    }

    /// Every registered pool satisfies the pool invariant.
    pub open spec fn wf(self) -> bool {
        forall|i: int| 0 <= i < self.len() ==> #[trigger] self.pool_at(i).wf()
    }

    /// An empty registry.
    pub fn new() -> (r: PoolRegistry)
        ensures
            r.len() == 0,
            r.wf(),
    {
        PoolRegistry { pools: Vec::new() }
    }

    /// How many pools exist.
    pub fn count(&self) -> (r: u64)
        requires
            self.len() <= u64::MAX,
        ensures
            r == self.len(),
    {
        self.pools.len() as u64
    }

    /// Register a new pool.  The creation arguments are fixed for the
    /// pool's lifetime: assets sorted and without pool-share tokens, the
    /// base asset a member, the fee a proper fraction, and exactly the
    /// fields of the chosen scoring rule supplied.  The new pool starts
    /// `Active`.
    pub fn create_pool(
        &mut self,
        assets: Vec<Asset>,
        base_asset: Asset,
        scoring_rule: ScoringRule,
        swap_fee: u128,
        weights: Option<Vec<u128>>,
        rikiddo: Option<RikiddoSigmoidMV>,
    ) -> (pool_id: u64)
        requires
            old(self).len() < u64::MAX,
            assets@.len() >= 2,
            sorted_assets(assets@),
            assets@.contains(base_asset),
            forall|i: int| 0 <= i < assets@.len() ==> !(#[trigger] assets@[i] is PoolShare),
            swap_fee < BASE,
            scoring_rule == ScoringRule::CPMM ==> rikiddo is None && (weights matches Some(w)
                && w@.len() == assets@.len() && (forall|i: int|
                0 <= i < w@.len() ==> 0 < #[trigger] w@[i]) && sum_weights(w@) <= u128::MAX),
            scoring_rule == ScoringRule::RikiddoSigmoidFeeMarketEma ==> weights is None && (
            rikiddo matches Some(rik) && rik.wf()),
        ensures
            pool_id == old(self).len(),
            final(self).len() == old(self).len() + 1,
            forall|i: int| 0 <= i < old(self).len() ==> #[trigger] final(self).pool_at(i) == old(
                self,
            ).pool_at(i),
            final(self).pool_at(pool_id as int).wf(),
            final(self).pool_at(pool_id as int) == (Pool {
                assets,
                base_asset,
                scoring_rule,
                status: PoolStatus::Active,
                swap_fee,
                total_weight: (if weights is Some {
                    sum_weights(weights->Some_0@) as u128
                } else {
                    0
                }),
                weights,
                rikiddo,
            }),
    {
        let pool_id = self.pools.len() as u64;
        let total_weight: u128 = match &weights {
            Some(w) => {
                let mut tw: u128 = 0;
                let mut i: usize = 0;
                while i < w.len()
                    invariant
                        i <= w@.len(),
                        tw == sum_weights(w@.take(i as int)),
                        sum_weights(w@) <= u128::MAX,
                        forall|j: int| 0 <= j < w@.len() ==> 0 < #[trigger] w@[j],
                    decreases w@.len() - i,
                {
                    proof {
                        assert_seqs_equal!(w@.take(i + 1).drop_last() == w@.take(i as int));
                        lemma_sum_weights_prefix_bound(w@, i + 1);
                    }
                    tw = tw + w[i];
                    i = i + 1;
                }
                proof {
                    assert_seqs_equal!(w@.take(i as int) == w@);
                }
                tw
            },
            None => 0,
        };
        let pool = Pool {
            assets,
            base_asset,
            scoring_rule,
            status: PoolStatus::Active,
            swap_fee,
            total_weight,
            weights,
            rikiddo,
        };
        self.pools.push(pool);
        pool_id
    }

    /// Resolve a pool identifier.
    pub fn pool_by_id(&self, pool_id: u64) -> (r: Option<&Pool>)
        ensures
            pool_id < self.len() ==> (r matches Some(p) && *p == self.pool_at(pool_id as int)),
            pool_id >= self.len() ==> r is None,
    {
        let n = self.pools.len();
        if pool_id < (n as u64) {
            Some(&self.pools[pool_id as usize])
        } else {
            None
        }
    }

    /// Close a pool: the terminal state, after which no join, exit or
    /// swap is permitted.  Everything but the status is kept.
    pub fn close_pool(&mut self, pool_id: u64)
        requires
            0 <= pool_id < old(self).len(),
        ensures
            final(self).len() == old(self).len(),
            final(self).pool_at(pool_id as int) == (Pool {
                status: PoolStatus::Closed,
                ..old(self).pool_at(pool_id as int)
            }),
            forall|i: int|
                0 <= i < old(self).len() && i != pool_id ==> #[trigger] final(self).pool_at(i)
                    == old(self).pool_at(i),
    {
        let ghost s0 = self.pools@;
        let n = self.pools.len();
        proof {
            assert(pool_id < n as u64);
        }
        let mut p = self.pools.remove(pool_id as usize);
        p.status = PoolStatus::Closed;
        let ghost pv = p;
        self.pools.insert(pool_id as usize, p);
        proof {
            vstd::seq_lib::lemma_update_is_remove_insert(s0, pool_id as int, pv);
            assert(self.pools@ =~= s0.update(pool_id as int, pv));
        }
    }
}

/// The sum of a prefix of positive weights is at most the whole sum.
proof fn lemma_sum_weights_prefix_bound(w: Seq<u128>, m: int)
    requires
        0 <= m <= w.len(),
    ensures
        sum_weights(w.take(m)) <= sum_weights(w),
    decreases w.len() - m,
{
    if m == w.len() {
        assert_seqs_equal!(w.take(m) == w);
    } else {
        assert_seqs_equal!(w.take(m + 1).drop_last() == w.take(m));
        lemma_sum_weights_prefix_bound(w, m + 1);
    }
}

} // verus!
