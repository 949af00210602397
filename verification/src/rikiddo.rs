//! The Rikiddo scoring rule: a logarithmic market scoring rule whose fee
//! follows a sigmoid curve over an exponential moving average of trade
//! volume.
//!
//! The rule exposes three pure queries over current reserves — `cost`,
//! `price` and `all_prices` — plus `update_volume`, which is invoked exactly
//! once after each completed swap.  The fee applied to a trade is the
//! sigmoid curve evaluated at the moving average as it stood when the trade
//! was quoted; the average is advanced only after the trade's effects are
//! final.

use vstd::prelude::*;
use vstd::assert_seqs_equal;

use crate::Error;
use crate::fixed::{
    bdiv, bdiv_spec, bmul, bmul_spec, check_add, check_add_spec, check_sub_spec, BASE,
};
use crate::transcend::{
    bits_to_dec, dec_to_bits, exp_bits, exp_i64f64, exp_ok_i64f64, fits_bits, ln_bits,
    ln_i64f64, ln_ok_i64f64, sqrt_bits, sqrt_i64f64, sqrt_ok_i64f64, to_bits_val, to_dec_val,
    ONE_BITS,
};

verus! {

/// The binary fixed-point image of the decimal value `v`.
pub open spec fn to_bits_of(v: int) -> i128 {
    ((v * (ONE_BITS as int)) / (BASE as int)) as i128
}

/// The value of a successful fixed-point multiplication.
pub open spec fn bmul_val(a: int, b: int) -> int {
    (a * b + (BASE as int) / 2) / (BASE as int)
}

/// The value of a successful fixed-point division.
pub open spec fn bdiv_val(a: int, b: int) -> int {
    (a * (BASE as int) + b / 2) / b
}

/// The decimal value of `exp` on the decimal value `v`.
pub open spec fn exp_val(v: int) -> int {
    to_dec_val(exp_i64f64(to_bits_of(v)))
}

/// The decimal value of `ln` on the decimal value `v`.
pub open spec fn ln_val(v: int) -> int {
    to_dec_val(ln_i64f64(to_bits_of(v)))
}

/// The decimal value of `sqrt` on the decimal value `v`.
pub open spec fn sqrt_val(v: int) -> int {
    to_dec_val(sqrt_i64f64(to_bits_of(v)))
}

/// Sum of a sequence of balances.
pub open spec fn seq_sum(q: Seq<u128>) -> int
    decreases q.len(),
{
    if q.len() == 0 {
        0
    } else {
        seq_sum(q.drop_last()) + q.last()
    }
}

/// Sum of `exp(q_i / b)` over a sequence of balances.
pub open spec fn sum_exps_val(q: Seq<u128>, b: int) -> int
    decreases q.len(),
{
    if q.len() == 0 {
        0
    } else {
        sum_exps_val(q.drop_last(), b) + exp_val(bdiv_val(q.last() as int, b))
    }
}

/// The exact outcome of exponentiating a decimal value: the conversion to
/// binary fixed point, the `exp` call, and the conversion back; every
/// failure is an arithmetic error.
pub open spec fn dec_exp_outcome(v: u128) -> Result<u128, Error> {
    if !fits_bits(v) {
        Err(Error::ArithmeticError)
    } else if !exp_ok_i64f64(to_bits_val(v)) {
        Err(Error::ArithmeticError)
    } else if exp_i64f64(to_bits_val(v)) < 0 {
        Err(Error::ArithmeticError)
    } else {
        Ok(to_dec_val(exp_i64f64(to_bits_val(v))) as u128)
    }
}

/// The exact outcome of the natural logarithm of a decimal value.
pub open spec fn dec_ln_outcome(v: u128) -> Result<u128, Error> {
    if !fits_bits(v) {
        Err(Error::ArithmeticError)
    } else if !ln_ok_i64f64(to_bits_val(v)) {
        Err(Error::ArithmeticError)
    } else if ln_i64f64(to_bits_val(v)) < 0 {
        Err(Error::ArithmeticError)
    } else {
        Ok(to_dec_val(ln_i64f64(to_bits_val(v))) as u128)
    }
}

/// The exact outcome of the square root of a decimal value.
pub open spec fn dec_sqrt_outcome(v: u128) -> Result<u128, Error> {
    if !fits_bits(v) {
        Err(Error::ArithmeticError)
    } else if !sqrt_ok_i64f64(to_bits_val(v)) {
        Err(Error::ArithmeticError)
    } else if sqrt_i64f64(to_bits_val(v)) < 0 {
        Err(Error::ArithmeticError)
    } else {
        Ok(to_dec_val(sqrt_i64f64(to_bits_val(v))) as u128)
    }
}

/// The exact outcome of the checked sum of a sequence of balances.
pub open spec fn sum_outcome(q: Seq<u128>) -> Result<u128, Error>
    decreases q.len(),
{
    if q.len() == 0 {
        Ok(0)
    } else {
        match sum_outcome(q.drop_last()) {
            Err(e) => Err(e),
            Ok(pre) => check_add_spec(pre, q.last()),
        }
    }
}

/// The exact outcome of summing `exp(q_i / b)` over the balances.
pub open spec fn exp_sum_outcome(q: Seq<u128>, b: u128) -> Result<u128, Error>
    decreases q.len(),
{
    if q.len() == 0 {
        Ok(0)
    } else {
        match exp_sum_outcome(q.drop_last(), b) {
            Err(e) => Err(e),
            Ok(pre) => match bdiv_spec(q.last(), b) {
                Err(e) => Err(e),
                Ok(xq) => match dec_exp_outcome(xq) {
                    Err(e) => Err(e),
                    Ok(ev) => check_add_spec(pre, ev),
                },
            },
        }
    }
}

/// An error in a prefix of the checked sum settles the whole sum.
proof fn lemma_sum_outcome_prefix(q: Seq<u128>, m: int)
    requires
        0 <= m <= q.len(),
        sum_outcome(q.take(m)) is Err,
    ensures
        sum_outcome(q) == sum_outcome(q.take(m)),
    decreases q.len() - m,
{
    if m == q.len() {
        assert_seqs_equal!(q.take(m) == q);
    } else {
        assert_seqs_equal!(q.take(m + 1).drop_last() == q.take(m));
        lemma_sum_outcome_prefix(q, m + 1);
    }
}

/// An error in a prefix of the exponential sum settles the whole sum.
proof fn lemma_exp_sum_outcome_prefix(q: Seq<u128>, b: u128, m: int)
    requires
        0 <= m <= q.len(),
        exp_sum_outcome(q.take(m), b) is Err,
    ensures
        exp_sum_outcome(q, b) == exp_sum_outcome(q.take(m), b),
    decreases q.len() - m,
{
    if m == q.len() {
        assert_seqs_equal!(q.take(m) == q);
    } else {
        assert_seqs_equal!(q.take(m + 1).drop_last() == q.take(m));
        lemma_exp_sum_outcome_prefix(q, b, m + 1);
    }
}

/// Configuration of the sigmoid fee curve
/// `fee(r) = initial_fee + m * r / sqrt(n + r * r)`,
/// where `r` is the moving average of trade volume.
#[derive(Clone, Copy, Debug, PartialEq, Eq, Structural)]
pub struct FeeSigmoid {
    /// Slope of the sigmoid's linear region.
    pub m: u128,
    /// Curvature offset under the square root.
    pub n: u128,
    /// Fee charged while no volume has been observed.
    pub initial_fee: u128,
}

/// Exponential moving average of trade volume in base-asset units.
///
/// After each completed swap of base-asset size `v`, the average moves to
/// `smoothing * v + (1 - smoothing) * ema`.
#[derive(Clone, Copy, Debug, PartialEq, Eq, Structural)]
pub struct EmaMarketVolume {
    /// Decay factor in `[0, BASE]`: the weight of the newest observation.
    pub smoothing: u128,
    /// Current value of the moving average.
    pub ema: u128,
}

/// The next moving average after observing `volume`.
pub open spec fn ema_update_spec(ma: EmaMarketVolume, volume: u128) -> Result<u128, Error> {
    match bmul_spec(ma.smoothing, volume) {
        Err(e) => Err(e),
        Ok(fresh) => match check_sub_spec(BASE, ma.smoothing) {
            Err(e) => Err(e),
            Ok(keep) => match bmul_spec(keep, ma.ema) {
                Err(e) => Err(e),
                Ok(carried) => check_add_spec(fresh, carried),
            },
        },
    }
}

impl EmaMarketVolume {
    /// The decay factor is a fraction of one.
    pub open spec fn wf(self) -> bool {
        self.smoothing <= BASE
    }

    /// Fold one observed volume into the moving average.
    pub fn update_volume(&mut self, volume: u128) -> (r: Result<(), Error>)
        ensures
            match ema_update_spec(*old(self), volume) {
                Ok(v) => r == Ok::<(), Error>(()) && *final(self) == (EmaMarketVolume {
                    ema: v,
                    ..*old(self)
                }),
                Err(e) => r == Err::<(), Error>(e) && *final(self) == *old(self),
            },
    {
        let fresh = match bmul(self.smoothing, volume) {
            Ok(v) => v,
            Err(e) => {
                return Err(e);
            },
        };
        let keep = match crate::fixed::check_sub(BASE, self.smoothing) {
            Ok(v) => v,
            Err(e) => {
                return Err(e);
            },
        };
        let carried = match bmul(keep, self.ema) {
            Ok(v) => v,
            Err(e) => {
                return Err(e);
            },
        };
        let next = match check_add(fresh, carried) {
            Ok(v) => v,
            Err(e) => {
                return Err(e);
            },
        };
        self.ema = next;
        Ok(())
    }

    /// Forget all observed volume.
    pub fn clear(&mut self)
        ensures
            *final(self) == (EmaMarketVolume { ema: 0, ..*old(self) }),
    {
        self.ema = 0;
    }
}

/// What the sigmoid fee evaluates to, given the moving average `r` and the
/// already-computed square root `root` of `n + r * r`:
/// `initial_fee + m * r / root`.
pub open spec fn sigmoid_fee_spec(config: FeeSigmoid, r: u128, root: u128) -> Result<
    u128,
    Error,
> {
    match bmul_spec(config.m, r) {
        Err(e) => Err(e),
        Ok(mr) => match bdiv_spec(mr, root) {
            Err(e) => Err(e),
            Ok(quot) => check_add_spec(config.initial_fee, quot),
        },
    }
}

/// The sigmoid fee, taking the square root of `n + r * r` as an argument:
/// `initial_fee + m * r / root`.
pub fn sigmoid_fee(config: FeeSigmoid, r: u128, root: u128) -> (res: Result<u128, Error>)
    ensures
        res == sigmoid_fee_spec(config, r, root),
{
    let mr = match bmul(config.m, r) {
        Ok(v) => v,
        Err(e) => {
            return Err(e);
        },
    };
    let quot = match bdiv(mr, root) {
        Ok(v) => v,
        Err(e) => {
            return Err(e);
        },
    };
    check_add(config.initial_fee, quot)
}

/// The value of the sigmoid fee at moving average `ema`.
pub open spec fn fee_val(config: FeeSigmoid, ema: u128) -> int {
    config.initial_fee + bdiv_val(
        bmul_val(config.m as int, ema as int),
        sqrt_val(config.n + bmul_val(ema as int, ema as int)),
    )
}

/// The Rikiddo liquidity parameter: the fee times the sum of balances.
pub open spec fn lmsr_b_val(rik: RikiddoSigmoidMV, q: Seq<u128>) -> int {
    bmul_val(fee_val(rik.config, rik.ma.ema), seq_sum(q))
}

/// The value of the Rikiddo cost function:
/// `b * ln(sum of exp(q_i / b))` with `b = fee * sum of q`.
pub open spec fn cost_val(rik: RikiddoSigmoidMV, q: Seq<u128>) -> int {
    bmul_val(lmsr_b_val(rik, q), ln_val(sum_exps_val(q, lmsr_b_val(rik, q))))
}

/// The value of the Rikiddo marginal price of the asset whose balance is
/// `q_for`: `exp(q_for / b) / sum of exp(q_i / b)`.
pub open spec fn price_val(rik: RikiddoSigmoidMV, q: Seq<u128>, q_for: u128) -> int {
    bdiv_val(
        exp_val(bdiv_val(q_for as int, lmsr_b_val(rik, q))),
        sum_exps_val(q, lmsr_b_val(rik, q)),
    )
}

/// The exact outcome of evaluating the sigmoid fee at the moving average
/// `ema`: squaring, the offset, the square root, and the curve itself.
pub open spec fn fee_outcome(config: FeeSigmoid, ema: u128) -> Result<u128, Error> {
    match bmul_spec(ema, ema) {
        Err(e) => Err(e),
        Ok(r2) => match check_add_spec(config.n, r2) {
            Err(e) => Err(e),
            Ok(arg) => match dec_sqrt_outcome(arg) {
                Err(e) => Err(e),
                Ok(root) => sigmoid_fee_spec(config, ema, root),
            },
        },
    }
}

/// The exact outcome of the liquidity parameter: the fee times the
/// checked sum of balances.
pub open spec fn lmsr_b_outcome(rik: RikiddoSigmoidMV, q: Seq<u128>) -> Result<u128, Error> {
    match fee_outcome(rik.config, rik.ma.ema) {
        Err(e) => Err(e),
        Ok(f) => match sum_outcome(q) {
            Err(e) => Err(e),
            Ok(total) => bmul_spec(f, total),
        },
    }
}

/// The exact outcome of the cost function `b * ln(sum of exp(q_i / b))`.
pub open spec fn cost_outcome(rik: RikiddoSigmoidMV, q: Seq<u128>) -> Result<u128, Error> {
    match lmsr_b_outcome(rik, q) {
        Err(e) => Err(e),
        Ok(b) => match exp_sum_outcome(q, b) {
            Err(e) => Err(e),
            Ok(se) => match dec_ln_outcome(se) {
                Err(e) => Err(e),
                Ok(l) => bmul_spec(b, l),
            },
        },
    }
}

/// The exact outcome of the marginal price of the asset whose balance is
/// `q_for`; a balance that is not a member of `q` is rejected first.
pub open spec fn price_outcome(rik: RikiddoSigmoidMV, q: Seq<u128>, q_for: u128) -> Result<
    u128,
    Error,
> {
    if !q.contains(q_for) {
        Err(Error::AssetNotInPool)
    } else {
        match lmsr_b_outcome(rik, q) {
            Err(e) => Err(e),
            Ok(b) => match exp_sum_outcome(q, b) {
                Err(e) => Err(e),
                Ok(se) => match bdiv_spec(q_for, b) {
                    Err(e) => Err(e),
                    Ok(xq) => match dec_exp_outcome(xq) {
                        Err(e) => Err(e),
                        Ok(ef) => bdiv_spec(ef, se),
                    },
                },
            },
        }
    }
}

/// The exact outcome of pricing every balance against the precomputed
/// liquidity `b` and exponential sum `se`, in balance order.
pub open spec fn prices_outcome(q: Seq<u128>, b: u128, se: u128) -> Result<Seq<u128>, Error>
    decreases q.len(),
{
    if q.len() == 0 {
        Ok(Seq::<u128>::empty())
    } else {
        match prices_outcome(q.drop_last(), b, se) {
            Err(e) => Err(e),
            Ok(pre) => match bdiv_spec(q.last(), b) {
                Err(e) => Err(e),
                Ok(xq) => match dec_exp_outcome(xq) {
                    Err(e) => Err(e),
                    Ok(ei) => match bdiv_spec(ei, se) {
                        Err(e) => Err(e),
                        Ok(p) => Ok(pre.push(p)),
                    },
                },
            },
        }
    }
}

/// An error in a prefix of the per-balance prices settles the whole list.
proof fn lemma_prices_outcome_prefix(q: Seq<u128>, b: u128, se: u128, m: int)
    requires
        0 <= m <= q.len(),
        prices_outcome(q.take(m), b, se) is Err,
    ensures
        prices_outcome(q, b, se) == prices_outcome(q.take(m), b, se),
    decreases q.len() - m,
{
    if m == q.len() {
        assert_seqs_equal!(q.take(m) == q);
    } else {
        assert_seqs_equal!(q.take(m + 1).drop_last() == q.take(m));
        lemma_prices_outcome_prefix(q, b, se, m + 1);
    }
}

/// The exact outcome of the full price vector.
pub open spec fn all_prices_outcome(rik: RikiddoSigmoidMV, q: Seq<u128>) -> Result<
    Seq<u128>,
    Error,
> {
    match lmsr_b_outcome(rik, q) {
        Err(e) => Err(e),
        Ok(b) => match exp_sum_outcome(q, b) {
            Err(e) => Err(e),
            Ok(se) => prices_outcome(q, b, se),
        },
    }
}

/// Exponential of a decimal value, through the binary representation.
fn dec_exp(v: u128) -> (r: Result<u128, Error>)
    ensures
        r == dec_exp_outcome(v),
        r matches Ok(y) ==> y == exp_val(v as int),
{
    let xb = match dec_to_bits(v) {
        Ok(b) => b,
        Err(e) => {
            return Err(e);
        },
    };
    let eb = match exp_bits(xb) {
        Ok(b) => b,
        Err(e) => {
            return Err(e);
        },
    };
    match bits_to_dec(eb) {
        Ok(y) => Ok(y),
        Err(e) => Err(e),
    }
}

/// Natural logarithm of a decimal value, through the binary representation.
fn dec_ln(v: u128) -> (r: Result<u128, Error>)
    ensures
        r == dec_ln_outcome(v),
        r matches Ok(y) ==> y == ln_val(v as int),
{
    let xb = match dec_to_bits(v) {
        Ok(b) => b,
        Err(e) => {
            return Err(e);
        },
    };
    let lb = match ln_bits(xb) {
        Ok(b) => b,
        Err(e) => {
            return Err(e);
        },
    };
    match bits_to_dec(lb) {
        Ok(y) => Ok(y),
        Err(e) => Err(e),
    }
}

/// Square root of a decimal value, through the binary representation.
fn dec_sqrt(v: u128) -> (r: Result<u128, Error>)
    ensures
        r == dec_sqrt_outcome(v),
        r matches Ok(y) ==> y == sqrt_val(v as int),
{
    let xb = match dec_to_bits(v) {
        Ok(b) => b,
        Err(e) => {
            return Err(e);
        },
    };
    let sb = match sqrt_bits(xb) {
        Ok(b) => b,
        Err(e) => {
            return Err(e);
        },
    };
    match bits_to_dec(sb) {
        Ok(y) => Ok(y),
        Err(e) => Err(e),
    }
}

/// The Rikiddo scoring rule's state: the fee curve configuration and the
/// moving average of trade volume it is evaluated at.
#[derive(Clone, Copy, Debug, PartialEq, Eq, Structural)]
pub struct RikiddoSigmoidMV {
    /// The sigmoid fee curve.
    pub config: FeeSigmoid,
    /// The moving average of trade volume.
    pub ma: EmaMarketVolume,
}

impl RikiddoSigmoidMV {
    /// Well-formedness: the moving average's decay factor is a fraction.
    pub open spec fn wf(self) -> bool {
        self.ma.wf()
    }

    /// Record the base-asset size of a completed swap in the moving average.
    pub fn update_volume(&mut self, volume: u128) -> (r: Result<(), Error>)
        ensures
            match ema_update_spec(old(self).ma, volume) {
                Ok(v) => r == Ok::<(), Error>(()) && *final(self) == (RikiddoSigmoidMV {
                    ma: EmaMarketVolume { ema: v, ..old(self).ma },
                    ..*old(self)
                }),
                Err(e) => r == Err::<(), Error>(e) && *final(self) == *old(self),
            },
    {
        match self.ma.update_volume(volume) {
            Ok(()) => Ok(()),
            Err(e) => Err(e),
        }
    }

    /// Reset the moving average, as when a market is destroyed.
    pub fn clear(&mut self)
        ensures
            *final(self) == (RikiddoSigmoidMV {
                ma: EmaMarketVolume { ema: 0, ..old(self).ma },
                ..*old(self)
            }),
    {
        self.ma.clear();
    }

    /// The fee for the next trade: the sigmoid curve evaluated at the
    /// current moving average of volume.
    pub fn fee(&self) -> (r: Result<u128, Error>)
        ensures
            r == fee_outcome(self.config, self.ma.ema),
            r matches Ok(f) ==> f == fee_val(self.config, self.ma.ema),
    {
        let ema = self.ma.ema;
        let r2 = match bmul(ema, ema) {
            Ok(v) => v,
            Err(e) => {
                return Err(e);
            },
        };
        let arg = match check_add(self.config.n, r2) {
            Ok(v) => v,
            Err(e) => {
                return Err(e);
            },
        };
        let root = match dec_sqrt(arg) {
            Ok(v) => v,
            Err(e) => {
                return Err(e);
            },
        };
        match sigmoid_fee(self.config, ema, root) {
            Ok(f) => Ok(f),
            Err(e) => Err(e),
        }
    }

    /// The liquidity parameter `b`: the current fee times the sum of the
    /// outcome balances.
    fn liquidity(&self, asset_balances: &Vec<u128>) -> (r: Result<u128, Error>)
        ensures
            r == lmsr_b_outcome(*self, asset_balances@),
            r matches Ok(b) ==> b == lmsr_b_val(*self, asset_balances@),
    {
        let f = match self.fee() {
            Ok(v) => v,
            Err(e) => {
                return Err(e);
            },
        };
        let mut total: u128 = 0;
        let mut i: usize = 0;
        while i < asset_balances.len()
            invariant
                i <= asset_balances@.len(),
                total == seq_sum(asset_balances@.take(i as int)),
                sum_outcome(asset_balances@.take(i as int)) == Ok::<u128, Error>(total),
                fee_outcome(self.config, self.ma.ema) == Ok::<u128, Error>(f),
            decreases asset_balances@.len() - i,
        {
            proof {
                assert_seqs_equal!(
                    asset_balances@.take(i + 1).drop_last() == asset_balances@.take(i as int)
                );
            }
            total = match check_add(total, asset_balances[i]) {
                Ok(v) => v,
                Err(e) => {
                    proof {
                        lemma_sum_outcome_prefix(asset_balances@, i + 1);
                    }
                    return Err(e);
                },
            };
            i = i + 1;
        }
        proof {
            assert_seqs_equal!(asset_balances@.take(i as int) == asset_balances@);
        }
        bmul(f, total)
    }

    /// Sum of `exp(q_i / b)` over the balances.
    fn exp_sum(&self, asset_balances: &Vec<u128>, b: u128) -> (r: Result<u128, Error>)
        ensures
            r == exp_sum_outcome(asset_balances@, b),
            r matches Ok(se) ==> se == sum_exps_val(asset_balances@, b as int),
    {
        let mut se: u128 = 0;
        let mut i: usize = 0;
        while i < asset_balances.len()
            invariant
                i <= asset_balances@.len(),
                se == sum_exps_val(asset_balances@.take(i as int), b as int),
                exp_sum_outcome(asset_balances@.take(i as int), b) == Ok::<u128, Error>(se),
            decreases asset_balances@.len() - i,
        {
            proof {
                assert_seqs_equal!(
                    asset_balances@.take(i + 1).drop_last() == asset_balances@.take(i as int)
                );
            }
            let xq = match bdiv(asset_balances[i], b) {
                Ok(v) => v,
                Err(e) => {
                    proof {
                        lemma_exp_sum_outcome_prefix(asset_balances@, b, i + 1);
                    }
                    return Err(e);
                },
            };
            let ev = match dec_exp(xq) {
                Ok(v) => v,
                Err(e) => {
                    proof {
                        lemma_exp_sum_outcome_prefix(asset_balances@, b, i + 1);
                    }
                    return Err(e);
                },
            };
            se = match check_add(se, ev) {
                Ok(v) => v,
                Err(e) => {
                    proof {
                        lemma_exp_sum_outcome_prefix(asset_balances@, b, i + 1);
                    }
                    return Err(e);
                },
            };
            i = i + 1;
        }
        proof {
            assert_seqs_equal!(asset_balances@.take(i as int) == asset_balances@);
        }
        Ok(se)
    }

    /// The total cost function value over the current balances:
    /// `b * ln(sum of exp(q_i / b))`.
    pub fn cost(&self, asset_balances: &Vec<u128>) -> (r: Result<u128, Error>)
        ensures
            r == cost_outcome(*self, asset_balances@),
            r matches Ok(c) ==> c == cost_val(*self, asset_balances@),
    {
        let b = match self.liquidity(asset_balances) {
            Ok(v) => v,
            Err(e) => {
                return Err(e);
            },
        };
        let se = match self.exp_sum(asset_balances, b) {
            Ok(v) => v,
            Err(e) => {
                return Err(e);
            },
        };
        let l = match dec_ln(se) {
            Ok(v) => v,
            Err(e) => {
                return Err(e);
            },
        };
        bmul(b, l)
    }

    /// The marginal price of the asset whose balance is
    /// `asset_in_question_balance`; the balance must be one of
    /// `asset_balances`.
    pub fn price(&self, asset_balances: &Vec<u128>, asset_in_question_balance: u128) -> (r:
        Result<u128, Error>)
        ensures
            r == price_outcome(*self, asset_balances@, asset_in_question_balance),
            !asset_balances@.contains(asset_in_question_balance) ==> r == Err::<u128, Error>(
                Error::AssetNotInPool,
            ),
            r matches Ok(p) ==> asset_balances@.contains(asset_in_question_balance) && p
                == price_val(*self, asset_balances@, asset_in_question_balance),
    {
        let mut found = false;
        let mut i: usize = 0;
        while i < asset_balances.len()
            invariant
                i <= asset_balances@.len(),
                found ==> asset_balances@.contains(asset_in_question_balance),
                !found ==> forall|j: int|
                    0 <= j < i ==> asset_balances@[j] != asset_in_question_balance,
            decreases asset_balances@.len() - i,
        {
            if asset_balances[i] == asset_in_question_balance {
                found = true;
            }
            i = i + 1;
        }
        if !found {
            proof {
                if asset_balances@.contains(asset_in_question_balance) {
                    let j = choose|j: int|
                        0 <= j < asset_balances@.len() && asset_balances@[j]
                            == asset_in_question_balance;
                    assert(false);
                }
            }
            return Err(Error::AssetNotInPool);
        }
        let b = match self.liquidity(asset_balances) {
            Ok(v) => v,
            Err(e) => {
                return Err(e);
            },
        };
        let se = match self.exp_sum(asset_balances, b) {
            Ok(v) => v,
            Err(e) => {
                return Err(e);
            },
        };
        let xq = match bdiv(asset_in_question_balance, b) {
            Ok(v) => v,
            Err(e) => {
                return Err(e);
            },
        };
        let e_for = match dec_exp(xq) {
            Ok(v) => v,
            Err(e) => {
                return Err(e);
            },
        };
        bdiv(e_for, se)
    }

    /// The marginal prices of every asset, in balance order.
    pub fn all_prices(&self, asset_balances: &Vec<u128>) -> (r: Result<Vec<u128>, Error>)
        ensures
            r matches Ok(v) ==> Ok::<Seq<u128>, Error>(v@) == all_prices_outcome(
                *self,
                asset_balances@,
            ),
            r is Err ==> r->Err_0 == all_prices_outcome(*self, asset_balances@)->Err_0
                && all_prices_outcome(*self, asset_balances@) is Err,
            r matches Ok(v) ==> v@.len() == asset_balances@.len() && forall|i: int|
                0 <= i < v@.len() ==> v@[i] == price_val(
                    *self,
                    asset_balances@,
                    #[trigger] asset_balances@[i],
                ),
    {
        let b = match self.liquidity(asset_balances) {
            Ok(v) => v,
            Err(e) => {
                return Err(e);
            },
        };
        let se = match self.exp_sum(asset_balances, b) {
            Ok(v) => v,
            Err(e) => {
                return Err(e);
            },
        };
        let mut out: Vec<u128> = Vec::new();
        let mut i: usize = 0;
        while i < asset_balances.len()
            invariant
                i <= asset_balances@.len(),
                out@.len() == i,
                b == lmsr_b_val(*self, asset_balances@),
                se == sum_exps_val(asset_balances@, b as int),
                lmsr_b_outcome(*self, asset_balances@) == Ok::<u128, Error>(b),
                exp_sum_outcome(asset_balances@, b) == Ok::<u128, Error>(se),
                prices_outcome(asset_balances@.take(i as int), b, se) == Ok::<Seq<u128>, Error>(
                    out@,
                ),
                forall|j: int|
                    0 <= j < i ==> out@[j] == price_val(
                        *self,
                        asset_balances@,
                        #[trigger] asset_balances@[j],
                    ),
            decreases asset_balances@.len() - i,
        {
            proof {
                assert_seqs_equal!(
                    asset_balances@.take(i + 1).drop_last() == asset_balances@.take(i as int)
                );
            }
            let xq = match bdiv(asset_balances[i], b) {
                Ok(v) => v,
                Err(e) => {
                    proof {
                        lemma_prices_outcome_prefix(asset_balances@, b, se, i + 1);
                    }
                    return Err(e);
                },
            };
            let e_i = match dec_exp(xq) {
                Ok(v) => v,
                Err(e) => {
                    proof {
                        lemma_prices_outcome_prefix(asset_balances@, b, se, i + 1);
                    }
                    return Err(e);
                },
            };
            let p = match bdiv(e_i, se) {
                Ok(v) => v,
                Err(e) => {
                    proof {
                        lemma_prices_outcome_prefix(asset_balances@, b, se, i + 1);
                    }
                    return Err(e);
                },
            };
            out.push(p);
            proof {
                assert_seqs_equal!(out@.drop_last() == out@.take(i as int));
            }
            i = i + 1;
        }
        proof {
            assert_seqs_equal!(asset_balances@.take(i as int) == asset_balances@);
        }
        Ok(out)
    }
}

} // verus!
