//! The ledger: balances of every (account, asset) pair and the total
//! issuance of every asset.
//!
//! This is the capability interface the pool operations consume —
//! `free_balance`, `transfer`, `deposit`, `withdraw`, `total_issuance` —
//! realized as an in-memory book.  Every operation is synchronous and fails
//! atomically: on any error the book is left exactly as it was.

use vstd::prelude::*;
use vstd::assert_seqs_equal;

use crate::Error;
use crate::pool::{Account, Asset};

verus! {

/// One balance entry: how much of `asset` the account holds.
#[derive(Clone, Copy, Debug, PartialEq, Eq, Structural)]
pub struct Holding {
    /// The owning account.
    pub account: Account,
    /// The asset held.
    pub asset: Asset,
    /// The amount held.
    pub amount: u128,
}

/// Whether `h` is the entry of the pair `(account, asset)`.
pub open spec fn is_key(h: Holding, account: Account, asset: Asset) -> bool {
    h.account == account && h.asset == asset
}

/// The balance of `(account, asset)` in `s`: the amount of the first
/// matching entry, or zero.
pub open spec fn bal_in(s: Seq<Holding>, account: Account, asset: Asset) -> u128
    decreases s.len(),
{
    if s.len() == 0 {
        0
    } else if is_key(s[0], account, asset) {
        s[0].amount
    } else {
        bal_in(s.drop_first(), account, asset)
    }
}

/// The issuance of `asset` in `s`: the amount of the first matching entry,
/// or zero.
pub open spec fn iss_in(s: Seq<(Asset, u128)>, asset: Asset) -> u128
    decreases s.len(),
{
    if s.len() == 0 {
        0
    } else if s[0].0 == asset {
        s[0].1
    } else {
        iss_in(s.drop_first(), asset)
    }
}

/// If the first matching entry sits at index `i`, the balance is its amount.
proof fn lemma_bal_at(s: Seq<Holding>, account: Account, asset: Asset, i: int)
    requires
        0 <= i < s.len(),
        is_key(s[i], account, asset),
        forall|j: int| 0 <= j < i ==> !is_key(#[trigger] s[j], account, asset),
    ensures
        bal_in(s, account, asset) == s[i].amount,
    decreases i,
{
    if i > 0 {
        lemma_bal_at(s.drop_first(), account, asset, i - 1);
    }
}

/// A sequence without a matching entry holds balance zero.
proof fn lemma_bal_none(s: Seq<Holding>, account: Account, asset: Asset)
    requires
        forall|j: int| 0 <= j < s.len() ==> !is_key(#[trigger] s[j], account, asset),
    ensures
        bal_in(s, account, asset) == 0,
    decreases s.len(),
{
    if s.len() > 0 {
        lemma_bal_none(s.drop_first(), account, asset);
    }
}

/// Updating an entry of a different key leaves a balance unchanged.
proof fn lemma_bal_update_other(
    s: Seq<Holding>,
    i: int,
    h: Holding,
    account: Account,
    asset: Asset,
)
    requires
        0 <= i < s.len(),
        !is_key(s[i], account, asset),
        !is_key(h, account, asset),
    ensures
        bal_in(s.update(i, h), account, asset) == bal_in(s, account, asset),
    decreases i,
{
    let t = s.update(i, h);
    if i == 0 {
        assert_seqs_equal!(t.drop_first() == s.drop_first());
    } else {
        if !is_key(s[0], account, asset) {
            assert_seqs_equal!(t.drop_first() == s.drop_first().update(i - 1, h));
            lemma_bal_update_other(s.drop_first(), i - 1, h, account, asset);
        }
    }
}

/// Appending an entry of a different key leaves a balance unchanged.
proof fn lemma_bal_push_other(s: Seq<Holding>, h: Holding, account: Account, asset: Asset)
    requires
        !is_key(h, account, asset),
    ensures
        bal_in(s.push(h), account, asset) == bal_in(s, account, asset),
    decreases s.len(),
{
    if s.len() == 0 {
        assert(bal_in(s.push(h).drop_first(), account, asset) == 0) by {
            lemma_bal_none(s.push(h).drop_first(), account, asset);
        }
    } else {
        if !is_key(s[0], account, asset) {
            assert_seqs_equal!(s.push(h).drop_first() == s.drop_first().push(h));
            lemma_bal_push_other(s.drop_first(), h, account, asset);
        }
    }
}

/// If the first matching issuance entry sits at index `i`, the issuance is
/// its amount.
proof fn lemma_iss_at(s: Seq<(Asset, u128)>, asset: Asset, i: int)
    requires
        0 <= i < s.len(),
        s[i].0 == asset,
        forall|j: int| 0 <= j < i ==> (#[trigger] s[j]).0 != asset,
    ensures
        iss_in(s, asset) == s[i].1,
    decreases i,
{
    if i > 0 {
        lemma_iss_at(s.drop_first(), asset, i - 1);
    }
}

/// A sequence without a matching issuance entry holds issuance zero.
proof fn lemma_iss_none(s: Seq<(Asset, u128)>, asset: Asset)
    requires
        forall|j: int| 0 <= j < s.len() ==> (#[trigger] s[j]).0 != asset,
    ensures
        iss_in(s, asset) == 0,
    decreases s.len(),
{
    if s.len() > 0 {
        lemma_iss_none(s.drop_first(), asset);
    }
}

/// Updating an issuance entry of a different asset leaves another asset's
/// issuance unchanged.
proof fn lemma_iss_update_other(s: Seq<(Asset, u128)>, i: int, e: (Asset, u128), asset: Asset)
    requires
        0 <= i < s.len(),
        s[i].0 != asset,
        e.0 != asset,
    ensures
        iss_in(s.update(i, e), asset) == iss_in(s, asset),
    decreases i,
{
    let t = s.update(i, e);
    if i == 0 {
        assert_seqs_equal!(t.drop_first() == s.drop_first());
    } else {
        if s[0].0 != asset {
            assert_seqs_equal!(t.drop_first() == s.drop_first().update(i - 1, e));
            lemma_iss_update_other(s.drop_first(), i - 1, e, asset);
        }
    }
}

/// Appending an issuance entry of a different asset leaves another asset's
/// issuance unchanged.
proof fn lemma_iss_push_other(s: Seq<(Asset, u128)>, e: (Asset, u128), asset: Asset)
    requires
        e.0 != asset,
    ensures
        iss_in(s.push(e), asset) == iss_in(s, asset),
    decreases s.len(),
{
    if s.len() == 0 {
        assert(iss_in(s.push(e).drop_first(), asset) == 0) by {
            lemma_iss_none(s.push(e).drop_first(), asset);
        }
    } else {
        if s[0].0 != asset {
            assert_seqs_equal!(s.push(e).drop_first() == s.drop_first().push(e));
            lemma_iss_push_other(s.drop_first(), e, asset);
        }
    }
}

/// The in-memory ledger.
pub struct Ledger {
    holdings: Vec<Holding>,
    issuance: Vec<(Asset, u128)>,
}

/// What a deposit does: both the account's balance and the asset's issuance
/// grow by `amount`, or the whole operation fails on overflow.
pub open spec fn deposit_outcome(
    l: Ledger,
    asset: Asset,
    account: Account,
    amount: u128,
) -> Result<(), Error> {
    if l.balance_of(account, asset) + amount > u128::MAX {
        Err(Error::ArithmeticError)
    } else if l.issuance_of(asset) + amount > u128::MAX {
        Err(Error::ArithmeticError)
    } else {
        Ok(())
    }
}

/// What a withdrawal does: both the account's balance and the asset's
/// issuance shrink by `amount`; an insufficient balance fails first.
pub open spec fn withdraw_outcome(
    l: Ledger,
    asset: Asset,
    account: Account,
    amount: u128,
) -> Result<(), Error> {
    if l.balance_of(account, asset) < amount {
        Err(Error::InsufficientBalance)
    } else if l.issuance_of(asset) < amount {
        Err(Error::ArithmeticError)
    } else {
        Ok(())
    }
}

/// What a transfer does: `amount` moves from `from` to `to`; issuance is
/// untouched; a transfer to oneself is a no-op.
pub open spec fn transfer_outcome(
    l: Ledger,
    asset: Asset,
    from: Account,
    to: Account,
    amount: u128,
) -> Result<(), Error> {
    if l.balance_of(from, asset) < amount {
        Err(Error::InsufficientBalance)
    } else if from != to && l.balance_of(to, asset) + amount > u128::MAX {
        Err(Error::ArithmeticError)
    } else {
        Ok(())
    }
}

impl Ledger {
    /// The balance of `(account, asset)`.
    pub closed spec fn balance_of(self, account: Account, asset: Asset) -> u128 {
        bal_in(self.holdings@, account, asset)
    }

    /// The total issuance of `asset`.
    pub closed spec fn issuance_of(self, asset: Asset) -> u128 {
        iss_in(self.issuance@, asset)
    }

    /// An empty ledger: every balance and every issuance is zero.
    pub fn new() -> (r: Ledger)
        ensures
            forall|account: Account, asset: Asset| r.balance_of(account, asset) == 0,
            forall|asset: Asset| r.issuance_of(asset) == 0,
    {
        Ledger { holdings: Vec::new(), issuance: Vec::new() }
    }

    /// Index of the first entry of `(account, asset)`, if any.
    fn find_holding(&self, account: &Account, asset: &Asset) -> (r: Option<usize>)
        ensures
            match r {
                Some(i) => i < self.holdings@.len() && is_key(self.holdings@[i as int], *account, *asset)
                    && forall|j: int| 0 <= j < i ==> !is_key(
                    #[trigger] self.holdings@[j],
                    *account,
                    *asset,
                ),
                None => forall|j: int|
                    0 <= j < self.holdings@.len() ==> !is_key(
                        #[trigger] self.holdings@[j],
                        *account,
                        *asset,
                    ),
            },
    {
        let mut i: usize = 0;
        while i < self.holdings.len()
            invariant
                i <= self.holdings@.len(),
                forall|j: int| 0 <= j < i ==> !is_key(#[trigger] self.holdings@[j], *account, *asset),
            decreases self.holdings@.len() - i,
        {
            let h = self.holdings[i];
            if h.account == *account && h.asset == *asset {
                return Some(i);
            }
            i = i + 1;
        }
        None
    }

    /// Index of the first issuance entry of `asset`, if any.
    fn find_issuance(&self, asset: &Asset) -> (r: Option<usize>)
        ensures
            match r {
                Some(i) => i < self.issuance@.len() && self.issuance@[i as int].0 == *asset
                    && forall|j: int| 0 <= j < i ==> (#[trigger] self.issuance@[j]).0 != *asset,
                None => forall|j: int|
                    0 <= j < self.issuance@.len() ==> (#[trigger] self.issuance@[j]).0 != *asset,
            },
    {
        let mut i: usize = 0;
        while i < self.issuance.len()
            invariant
                i <= self.issuance@.len(),
                forall|j: int| 0 <= j < i ==> (#[trigger] self.issuance@[j]).0 != *asset,
            decreases self.issuance@.len() - i,
        {
            let e = self.issuance[i];
            if e.0 == *asset {
                return Some(i);
            }
            i = i + 1;
        }
        None
    }

    /// The free balance of `account` in `asset`.
    pub fn free_balance(&self, asset: Asset, account: &Account) -> (r: u128)
        ensures
            r == self.balance_of(*account, asset),
    {
        match self.find_holding(account, &asset) {
            Some(i) => {
                proof {
                    lemma_bal_at(self.holdings@, *account, asset, i as int);
                }
                self.holdings[i].amount
            },
            None => {
                proof {
                    lemma_bal_none(self.holdings@, *account, asset);
                }
                0
            },
        }
    }

    /// The total issuance of `asset`.
    pub fn total_issuance(&self, asset: Asset) -> (r: u128)
        ensures
            r == self.issuance_of(asset),
    {
        match self.find_issuance(&asset) {
            Some(i) => {
                proof {
                    lemma_iss_at(self.issuance@, asset, i as int);
                }
                self.issuance[i].1
            },
            None => {
                proof {
                    lemma_iss_none(self.issuance@, asset);
                }
                0
            },
        }
    }

    /// Overwrite the balance of `(account, asset)`, leaving every other
    /// balance and all issuances unchanged.
    fn set_balance(&mut self, asset: Asset, account: &Account, value: u128)
        ensures
            final(self).balance_of(*account, asset) == value,
            forall|a2: Account, x2: Asset|
                !(a2 == *account && x2 == asset) ==> #[trigger] final(self).balance_of(a2, x2)
                    == old(self).balance_of(a2, x2),
            forall|x2: Asset| #[trigger] final(self).issuance_of(x2) == old(self).issuance_of(x2),
    {
        let entry = Holding { account: *account, asset, amount: value };
        match self.find_holding(account, &asset) {
            Some(i) => {
                let ghost s0 = self.holdings@;
                self.holdings.set(i, entry);
                proof {
                    lemma_bal_at(self.holdings@, *account, asset, i as int);
                    assert forall|a2: Account, x2: Asset| !(a2 == *account && x2 == asset) implies
                        #[trigger] bal_in(self.holdings@, a2, x2) == bal_in(s0, a2, x2) by {
                        lemma_bal_update_other(s0, i as int, entry, a2, x2);
                    }
                }
            },
            None => {
                let ghost s0 = self.holdings@;
                self.holdings.push(entry);
                proof {
                    lemma_bal_at(self.holdings@, *account, asset, s0.len() as int);
                    assert forall|a2: Account, x2: Asset| !(a2 == *account && x2 == asset) implies
                        #[trigger] bal_in(self.holdings@, a2, x2) == bal_in(s0, a2, x2) by {
                        lemma_bal_push_other(s0, entry, a2, x2);
                    }
                }
            },
        }
    }

    /// Overwrite the issuance of `asset`, leaving every other issuance and
    /// all balances unchanged.
    fn set_issuance(&mut self, asset: Asset, value: u128)
        ensures
            final(self).issuance_of(asset) == value,
            forall|x2: Asset|
                x2 != asset ==> #[trigger] final(self).issuance_of(x2) == old(self).issuance_of(
                    x2,
                ),
            forall|a2: Account, x2: Asset| #[trigger]
                final(self).balance_of(a2, x2) == old(self).balance_of(a2, x2),
    {
        let entry = (asset, value);
        match self.find_issuance(&asset) {
            Some(i) => {
                let ghost s0 = self.issuance@;
                self.issuance.set(i, entry);
                proof {
                    lemma_iss_at(self.issuance@, asset, i as int);
                    assert forall|x2: Asset| x2 != asset implies #[trigger] iss_in(
                        self.issuance@,
                        x2,
                    ) == iss_in(s0, x2) by {
                        lemma_iss_update_other(s0, i as int, entry, x2);
                    }
                }
            },
            None => {
                let ghost s0 = self.issuance@;
                self.issuance.push(entry);
                proof {
                    lemma_iss_at(self.issuance@, asset, s0.len() as int);
                    assert forall|x2: Asset| x2 != asset implies #[trigger] iss_in(
                        self.issuance@,
                        x2,
                    ) == iss_in(s0, x2) by {
                        lemma_iss_push_other(s0, entry, x2);
                    }
                }
            },
        }
    }

    /// Create `amount` new units of `asset` in `account`.
    pub fn deposit(&mut self, asset: Asset, account: &Account, amount: u128) -> (r: Result<
        (),
        Error,
    >)
        ensures
            r == deposit_outcome(*old(self), asset, *account, amount),
            r is Err ==> *final(self) == *old(self),
            r is Ok ==> {
                &&& final(self).balance_of(*account, asset) == old(self).balance_of(
                    *account,
                    asset,
                ) + amount
                &&& final(self).issuance_of(asset) == old(self).issuance_of(asset) + amount
                &&& forall|a2: Account, x2: Asset|
                    !(a2 == *account && x2 == asset) ==> #[trigger] final(self).balance_of(a2, x2)
                        == old(self).balance_of(a2, x2)
                &&& forall|x2: Asset|
                    x2 != asset ==> #[trigger] final(self).issuance_of(x2) == old(
                        self,
                    ).issuance_of(x2)
            },
    {
        let bal = self.free_balance(asset, account);
        let new_bal = match bal.checked_add(amount) {
            Some(v) => v,
            None => {
                return Err(Error::ArithmeticError);
            },
        };
        let iss = self.total_issuance(asset);
        let new_iss = match iss.checked_add(amount) {
            Some(v) => v,
            None => {
                return Err(Error::ArithmeticError);
            },
        };
        self.set_balance(asset, account, new_bal);
        self.set_issuance(asset, new_iss);
        Ok(())
    }

    /// Destroy `amount` units of `asset` held by `account`.
    pub fn withdraw(&mut self, asset: Asset, account: &Account, amount: u128) -> (r: Result<
        (),
        Error,
    >)
        ensures
            r == withdraw_outcome(*old(self), asset, *account, amount),
            r is Err ==> *final(self) == *old(self),
            r is Ok ==> {
                &&& final(self).balance_of(*account, asset) == old(self).balance_of(
                    *account,
                    asset,
                ) - amount
                &&& final(self).issuance_of(asset) == old(self).issuance_of(asset) - amount
                &&& forall|a2: Account, x2: Asset|
                    !(a2 == *account && x2 == asset) ==> #[trigger] final(self).balance_of(a2, x2)
                        == old(self).balance_of(a2, x2)
                &&& forall|x2: Asset|
                    x2 != asset ==> #[trigger] final(self).issuance_of(x2) == old(
                        self,
                    ).issuance_of(x2)
            },
    {
        let bal = self.free_balance(asset, account);
        if bal < amount {
            return Err(Error::InsufficientBalance);
        }
        let iss = self.total_issuance(asset);
        if iss < amount {
            return Err(Error::ArithmeticError);
        }
        self.set_balance(asset, account, bal - amount);
        self.set_issuance(asset, iss - amount);
        Ok(())
    }

    /// Move `amount` units of `asset` from `from` to `to`.
    pub fn transfer(&mut self, asset: Asset, from: &Account, to: &Account, amount: u128) -> (r:
        Result<(), Error>)
        ensures
            r == transfer_outcome(*old(self), asset, *from, *to, amount),
            r is Err ==> *final(self) == *old(self),
            r is Ok && *from == *to ==> *final(self) == *old(self),
            r is Ok && *from != *to ==> {
                &&& final(self).balance_of(*from, asset) == old(self).balance_of(*from, asset)
                    - amount
                &&& final(self).balance_of(*to, asset) == old(self).balance_of(*to, asset) + amount
                &&& forall|a2: Account, x2: Asset|
                    !(a2 == *from && x2 == asset) && !(a2 == *to && x2 == asset) ==> #[trigger]
                        final(self).balance_of(a2, x2) == old(self).balance_of(a2, x2)
                &&& forall|x2: Asset| #[trigger] final(self).issuance_of(x2) == old(
                    self,
                ).issuance_of(x2)
            },
    {
        let bal_from = self.free_balance(asset, from);
        if bal_from < amount {
            return Err(Error::InsufficientBalance);
        }
        if from == to {
            return Ok(());
        }
        let bal_to = self.free_balance(asset, to);
        let new_to = match bal_to.checked_add(amount) {
            Some(v) => v,
            None => {
                return Err(Error::ArithmeticError);
            },
        };
        self.set_balance(asset, from, bal_from - amount);
        self.set_balance(asset, to, new_to);
        Ok(())
    }

    /// Mint pool shares of the pool `pool_id` to `account`.
    pub fn mint_pool_shares(&mut self, pool_id: u64, account: &Account, amount: u128) -> (r:
        Result<(), Error>)
        ensures
            r == deposit_outcome(*old(self), Asset::PoolShare(pool_id), *account, amount),
            r is Err ==> *final(self) == *old(self),
            r is Ok ==> {
                &&& final(self).balance_of(*account, Asset::PoolShare(pool_id)) == old(
                    self,
                ).balance_of(*account, Asset::PoolShare(pool_id)) + amount
                &&& final(self).issuance_of(Asset::PoolShare(pool_id)) == old(self).issuance_of(
                    Asset::PoolShare(pool_id),
                ) + amount
                &&& forall|a2: Account, x2: Asset|
                    !(a2 == *account && x2 == Asset::PoolShare(pool_id)) ==> #[trigger]
                        final(self).balance_of(a2, x2) == old(self).balance_of(a2, x2)
                &&& forall|x2: Asset|
                    x2 != Asset::PoolShare(pool_id) ==> #[trigger] final(self).issuance_of(x2)
                        == old(self).issuance_of(x2)
            },
    {
        self.deposit(Asset::PoolShare(pool_id), account, amount)
    }

    /// Burn pool shares of the pool `pool_id` held by `account`.
    pub fn burn_pool_shares(&mut self, pool_id: u64, account: &Account, amount: u128) -> (r:
        Result<(), Error>)
        ensures
            r == withdraw_outcome(*old(self), Asset::PoolShare(pool_id), *account, amount),
            r is Err ==> *final(self) == *old(self),
            r is Ok ==> {
                &&& final(self).balance_of(*account, Asset::PoolShare(pool_id)) == old(
                    self,
                ).balance_of(*account, Asset::PoolShare(pool_id)) - amount
                &&& final(self).issuance_of(Asset::PoolShare(pool_id)) == old(self).issuance_of(
                    Asset::PoolShare(pool_id),
                ) - amount
                &&& forall|a2: Account, x2: Asset|
                    !(a2 == *account && x2 == Asset::PoolShare(pool_id)) ==> #[trigger]
                        final(self).balance_of(a2, x2) == old(self).balance_of(a2, x2)
                &&& forall|x2: Asset|
                    x2 != Asset::PoolShare(pool_id) ==> #[trigger] final(self).issuance_of(x2)
                        == old(self).issuance_of(x2)
            },
    {
        self.withdraw(Asset::PoolShare(pool_id), account, amount)
    }
}

} // verus!
