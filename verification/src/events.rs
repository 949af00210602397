//! Structured event records returned by successful pool operations.
//!
//! The core hands these to its caller, which owns the event sink; nothing
//! in an event feeds back into the pool state.

use vstd::prelude::*;

use crate::pool::{Account, Asset};

verus! {

/// Fields common to every pool event: which pool, and who acted.
#[derive(Clone, Copy, Debug, PartialEq, Eq, Structural)]
pub struct CommonPoolEventParams {
    /// The pool operated on.
    pub pool_id: u64,
    /// The caller.
    pub who: Account,
}

/// A single-asset join or exit.
#[derive(Clone, Copy, Debug, PartialEq, Eq, Structural)]
pub struct PoolAssetEvent {
    /// The asset deposited or withdrawn.
    pub asset: Asset,
    /// The caller-supplied bound, recorded as given.
    pub bound: u128,
    /// Pool and caller.
    pub cpep: CommonPoolEventParams,
    /// The asset amount transferred.
    pub transferred: u128,
    /// The pool-share amount minted or burned.
    pub pool_amount: u128,
}

/// A symmetric join or exit across every bound asset.
#[derive(Debug, PartialEq, Eq)]
pub struct PoolAssetsEvent {
    /// The pool's assets, in pool order.
    pub assets: Vec<Asset>,
    /// The caller-supplied bounds, recorded as given.
    pub bounds: Vec<u128>,
    /// Pool and caller.
    pub cpep: CommonPoolEventParams,
    /// The amount transferred per asset, parallel to `assets`.
    pub transferred: Vec<u128>,
    /// The pool-share amount minted or burned.
    pub pool_amount: u128,
}

/// A completed swap.
#[derive(Clone, Copy, Debug, PartialEq, Eq)]
pub struct SwapEvent {
    /// Amount of `asset_in` paid by the caller.
    pub asset_amount_in: u128,
    /// Amount of `asset_out` received by the caller.
    pub asset_amount_out: u128,
    /// The caller-supplied amount bound, recorded as given.
    pub asset_bound: Option<u128>,
    /// The asset paid in.
    pub asset_in: Asset,
    /// The asset received.
    pub asset_out: Asset,
    /// Pool and caller.
    pub cpep: CommonPoolEventParams,
    /// The caller-supplied price bound, recorded as given.
    pub max_price: Option<u128>,
}

} // verus!
