//! Execution-weight accounting for the dispatch layer.
//!
//! The outer runtime meters each call by a weight: a benchmarked base cost
//! plus the cost of the database reads and writes the call performs.  The
//! table below computes that sum with saturating arithmetic, so a corrupt
//! configuration can never wrap around.

use vstd::prelude::*;

verus! {

/// Saturating addition on weights.
pub open spec fn sat_add_weight(a: u64, b: u64) -> u64 {
    if a + b > u64::MAX {
        u64::MAX
    } else {
        (a + b) as u64
    }
}

/// Saturating multiplication on weights.
pub open spec fn sat_mul_weight(a: u64, b: u64) -> u64 {
    if a * b > u64::MAX {
        u64::MAX
    } else {
        (a * b) as u64
    }
}

/// Weight table: the per-operation costs of the storage backend.
#[derive(Clone, Copy, Debug, PartialEq, Eq, Structural)]
pub struct WeightInfo {
    /// Weight of one database read.
    pub db_read: u64,
    /// Weight of one database write.
    pub db_write: u64,
}

impl WeightInfo {
    /// The weight of a call with the benchmarked base cost `base` that
    /// performs `reads` database reads and `writes` database writes:
    /// `base + db_read * reads + db_write * writes`, saturating.
    pub fn call_weight(&self, base: u64, reads: u64, writes: u64) -> (r: u64)
        ensures
            r == sat_add_weight(
                base,
                sat_add_weight(
                    sat_mul_weight(self.db_read, reads),
                    sat_mul_weight(self.db_write, writes),
                ),
            ),
    {
        let rd = match self.db_read.checked_mul(reads) {
            Some(v) => v,
            None => u64::MAX,
        };
        let wr = match self.db_write.checked_mul(writes) {
            Some(v) => v,
            None => u64::MAX,
        };
        base.saturating_add(rd.saturating_add(wr))
    }
}

} // verus!
