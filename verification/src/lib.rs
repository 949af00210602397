//! Pricing and liquidity engine of a pooled-liquidity automated market maker
//! for a prediction-market exchange.
//!
//! Traders deposit or withdraw basket liquidity and swap between outcome
//! assets.  Each pool prices trades with one of two interchangeable scoring
//! rules: a weighted constant-product market maker, or the Rikiddo rule, a
//! logarithmic market scoring rule whose fee follows a moving average of
//! trade volume.  All amounts are fixed-point numbers over a decimal scale;
//! every arithmetic step is checked, and every operation either applies all
//! of its effects or none of them.

use vstd::prelude::*;

pub mod events;
pub mod fixed;
pub mod ledger;
pub mod math;
pub mod ops;
pub mod pool;
pub mod rikiddo;
pub mod transcend;
pub mod weights;

verus! {

/// The error kinds that pool operations surface to the caller.
///
/// Every operation is a single atomic unit: on any error the pool and the
/// ledger are left exactly as they were.
#[derive(Clone, Copy, Debug, PartialEq, Eq, Structural)]
pub enum Error {
    /// The pool's scoring rule does not support the requested operation.
    InvalidScoringRule,
    /// The referenced asset is not a tradeable (bound) asset of the pool.
    AssetNotBound,
    /// The referenced asset is absent from the pool.
    AssetNotInPool,
    /// The pool is not in the `Active` status.
    PoolInactive,
    /// A computed amount resolved to zero, or a post-trade price invariant
    /// was violated.
    MathApproximation,
    /// A caller-supplied price bound was violated before or after the trade.
    BadLimitPrice,
    /// A Rikiddo trade between two non-base assets was requested.
    UnsupportedTrade,
    /// Overflow, underflow or division by zero in fixed-point arithmetic.
    ArithmeticError,
    /// An account lacks the balance that a transfer, withdrawal or burn needs.
    InsufficientBalance,
    /// A caller-supplied bounds list does not have one entry per pool asset.
    ProvidedValuesLenMustEqualAssetsLen,
}

} // verus!
