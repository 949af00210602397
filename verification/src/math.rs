//! Weighted constant-product pool formulas.
//!
//! These are the amount computations of the constant-product scoring rule:
//! spot price, exact-in / exact-out swap amounts, and the four single-asset
//! join / exit solutions.  Fractional powers are evaluated by a truncated
//! binomial series with a fixed iteration budget, so every function is a
//! total, checked computation over the decimal fixed-point scale.

use vstd::prelude::*;

use crate::Error;
use crate::fixed::{
    bdiv, bdiv_spec, bmul, bmul_spec, check_add, check_add_spec, check_sub, check_sub_spec,
    BASE,
};

verus! {

/// Smallest base accepted by [`bpow`].
pub const MIN_BPOW_BASE: u128 = 1;

/// Largest base accepted by [`bpow`]: just under two units.
pub const MAX_BPOW_BASE: u128 = 2 * 10_000_000_000 - 1;

/// The binomial series stops once a term falls below this threshold.
pub const BPOW_PRECISION: u128 = 10;

/// Upper bound on binomial series iterations.
pub const BPOW_APPROX_ITERATIONS: u128 = 100;

/// `|a - b|` together with the sign of `a - b` (`true` means negative).
pub open spec fn bsub_sign_spec(a: u128, b: u128) -> (u128, bool) {
    if a >= b {
        ((a - b) as u128, false)
    } else {
        ((b - a) as u128, true)
    }
}

/// Absolute difference and sign flag of `a - b`.
pub fn bsub_sign(a: u128, b: u128) -> (r: (u128, bool))
    ensures
        r == bsub_sign_spec(a, b),
{
    if a >= b {
        (a - b, false)
    } else {
        (b - a, true)
    }
}

/// Square-and-multiply state recursion behind [`bpowi_spec`]: accumulator
/// `z`, current square `b`, remaining exponent bits `m`.
pub open spec fn bpowi_from(z: u128, b: u128, m: u128) -> Result<u128, Error>
    decreases m,
{
    if m == 0 {
        Ok(z)
    } else {
        match bmul_spec(b, b) {
            Err(e) => Err(e),
            Ok(b2) => {
                if m % 2 != 0 {
                    match bmul_spec(z, b2) {
                        Err(e) => Err(e),
                        Ok(z2) => bpowi_from(z2, b2, (m / 2) as u128),
                    }
                } else {
                    bpowi_from(z, b2, (m / 2) as u128)
                }
            },
        }
    }
}

/// `a` raised to the integer power `n`, in fixed point.
pub open spec fn bpowi_spec(a: u128, n: u128) -> Result<u128, Error> {
    bpowi_from(if n % 2 != 0 { a } else { BASE }, a, (n / 2) as u128)
}

/// Fixed-point integer power by binary exponentiation.
pub fn bpowi(a: u128, n: u128) -> (r: Result<u128, Error>)
    ensures
        r == bpowi_spec(a, n),
{
    let mut z: u128 = if n % 2 != 0 { a } else { BASE };
    let mut b: u128 = a;
    let mut m: u128 = n / 2;
    loop
        invariant
            bpowi_spec(a, n) == bpowi_from(z, b, m),
        decreases m,
    {
        if m == 0 {
            return Ok(z);
        }
        let b2 = match bmul(b, b) {
            Ok(v) => v,
            Err(e) => {
                return Err(e);
            },
        };
        if m % 2 != 0 {
            z = match bmul(z, b2) {
                Ok(v) => v,
                Err(e) => {
                    return Err(e);
                },
            };
        }
        b = b2;
        m = m / 2;
    }
}

/// One step of the binomial series from iteration `i` onward, carrying the
/// difference `x = |base - BASE|` with its sign, the fractional exponent
/// `a`, the current `term`, the partial `sum` and the sign of the next term.
pub open spec fn bpow_approx_from(
    x: u128,
    xneg: bool,
    a: u128,
    term: u128,
    sum: u128,
    neg: bool,
    i: u128,
) -> Result<u128, Error>
    decreases BPOW_APPROX_ITERATIONS + 1 - i,
{
    if i > BPOW_APPROX_ITERATIONS || term < BPOW_PRECISION {
        Ok(sum)
    } else {
        let bigk = (i * BASE) as u128;
        let (c, cneg) = bsub_sign_spec(a, (bigk - BASE) as u128);
        match bmul_spec(c, x) {
            Err(e) => Err(e),
            Ok(cx) => match bmul_spec(term, cx) {
                Err(e) => Err(e),
                Ok(t1) => match bdiv_spec(t1, bigk) {
                    Err(e) => Err(e),
                    Ok(t2) => {
                        if t2 == 0 {
                            Ok(sum)
                        } else {
                            let neg2 = (neg != xneg) != cneg;
                            let step = if neg2 {
                                check_sub_spec(sum, t2)
                            } else {
                                check_add_spec(sum, t2)
                            };
                            match step {
                                Err(e) => Err(e),
                                Ok(sum2) => bpow_approx_from(
                                    x,
                                    xneg,
                                    a,
                                    t2,
                                    sum2,
                                    neg2,
                                    (i + 1) as u128,
                                ),
                            }
                        }
                    },
                },
            },
        }
    }
}

/// `base` raised to the fractional exponent `exp` (`exp < BASE`) by the
/// truncated binomial series.
pub open spec fn bpow_approx_spec(base: u128, exp: u128) -> Result<u128, Error> {
    let (x, xneg) = bsub_sign_spec(base, BASE);
    bpow_approx_from(x, xneg, exp, BASE, BASE, false, 1)
}

/// Fractional power by the truncated binomial series.
pub fn bpow_approx(base: u128, exp: u128) -> (r: Result<u128, Error>)
    ensures
        r == bpow_approx_spec(base, exp),
{
    let (x, xneg) = bsub_sign(base, BASE);
    let mut term: u128 = BASE;
    let mut sum: u128 = BASE;
    let mut negative: bool = false;
    let mut i: u128 = 1;
    loop
        invariant
            1 <= i <= BPOW_APPROX_ITERATIONS + 1,
            bpow_approx_spec(base, exp) == bpow_approx_from(
                x,
                xneg,
                exp,
                term,
                sum,
                negative,
                i,
            ),
        decreases BPOW_APPROX_ITERATIONS + 1 - i,
    {
        if i > BPOW_APPROX_ITERATIONS || term < BPOW_PRECISION {
            return Ok(sum);
        }
        let bigk: u128 = i * BASE;
        let (c, cneg) = bsub_sign(exp, bigk - BASE);
        let cx = match bmul(c, x) {
            Ok(v) => v,
            Err(e) => {
                return Err(e);
            },
        };
        let t1 = match bmul(term, cx) {
            Ok(v) => v,
            Err(e) => {
                return Err(e);
            },
        };
        let t2 = match bdiv(t1, bigk) {
            Ok(v) => v,
            Err(e) => {
                return Err(e);
            },
        };
        if t2 == 0 {
            return Ok(sum);
        }
        let neg2 = (negative != xneg) != cneg;
        let sum2 = if neg2 {
            match check_sub(sum, t2) {
                Ok(v) => v,
                Err(e) => {
                    return Err(e);
                },
            }
        } else {
            match check_add(sum, t2) {
                Ok(v) => v,
                Err(e) => {
                    return Err(e);
                },
            }
        };
        term = t2;
        sum = sum2;
        negative = neg2;
        i = i + 1;
    }
}

/// `base` raised to the fixed-point exponent `exp`: the integer part goes
/// through [`bpowi_spec`], the fractional remainder through the binomial
/// series, and the two are multiplied.  The base must lie in
/// `[MIN_BPOW_BASE, MAX_BPOW_BASE]`.
pub open spec fn bpow_spec(base: u128, exp: u128) -> Result<u128, Error> {
    if base < MIN_BPOW_BASE || base > MAX_BPOW_BASE {
        Err(Error::ArithmeticError)
    } else {
        let whole = (exp / BASE) as u128;
        let remain = (exp % BASE) as u128;
        match bpowi_spec(base, whole) {
            Err(e) => Err(e),
            Ok(whole_pow) => {
                if remain == 0 {
                    Ok(whole_pow)
                } else {
                    match bpow_approx_spec(base, remain) {
                        Err(e) => Err(e),
                        Ok(partial) => bmul_spec(whole_pow, partial),
                    }
                }
            },
        }
    }
}

/// Fixed-point power with a fractional exponent.
pub fn bpow(base: u128, exp: u128) -> (r: Result<u128, Error>)
    ensures
        r == bpow_spec(base, exp),
{
    if base < MIN_BPOW_BASE || base > MAX_BPOW_BASE {
        return Err(Error::ArithmeticError);
    }
    let whole = exp / BASE;
    let remain = exp % BASE;
    let whole_pow = match bpowi(base, whole) {
        Ok(v) => v,
        Err(e) => {
            return Err(e);
        },
    };
    if remain == 0 {
        return Ok(whole_pow);
    }
    let partial = match bpow_approx(base, remain) {
        Ok(v) => v,
        Err(e) => {
            return Err(e);
        },
    };
    bmul(whole_pow, partial)
}

/// Spot price of `asset_in` in terms of `asset_out`:
/// `((balance_in / weight_in) / (balance_out / weight_out)) / (1 - swap_fee)`.
pub open spec fn calc_spot_price_spec(
    balance_in: u128,
    weight_in: u128,
    balance_out: u128,
    weight_out: u128,
    swap_fee: u128,
) -> Result<u128, Error> {
    match bdiv_spec(balance_in, weight_in) {
        Err(e) => Err(e),
        Ok(numer) => match bdiv_spec(balance_out, weight_out) {
            Err(e) => Err(e),
            Ok(denom) => match bdiv_spec(numer, denom) {
                Err(e) => Err(e),
                Ok(ratio) => match check_sub_spec(BASE, swap_fee) {
                    Err(e) => Err(e),
                    Ok(fee_part) => match bdiv_spec(BASE, fee_part) {
                        Err(e) => Err(e),
                        Ok(scale) => bmul_spec(ratio, scale),
                    },
                },
            },
        },
    }
}

/// The weighted constant-product spot price, with the swap fee applied.
pub fn calc_spot_price(
    balance_in: u128,
    weight_in: u128,
    balance_out: u128,
    weight_out: u128,
    swap_fee: u128,
) -> (r: Result<u128, Error>)
    ensures
        r == calc_spot_price_spec(balance_in, weight_in, balance_out, weight_out, swap_fee),
{
    let numer = match bdiv(balance_in, weight_in) {
        Ok(v) => v,
        Err(e) => {
            return Err(e);
        },
    };
    let denom = match bdiv(balance_out, weight_out) {
        Ok(v) => v,
        Err(e) => {
            return Err(e);
        },
    };
    let ratio = match bdiv(numer, denom) {
        Ok(v) => v,
        Err(e) => {
            return Err(e);
        },
    };
    let fee_part = match check_sub(BASE, swap_fee) {
        Ok(v) => v,
        Err(e) => {
            return Err(e);
        },
    };
    let scale = match bdiv(BASE, fee_part) {
        Ok(v) => v,
        Err(e) => {
            return Err(e);
        },
    };
    bmul(ratio, scale)
}

/// Amount of `asset_out` received for an exact `asset_amount_in`:
/// `balance_out * (1 - (balance_in / (balance_in + in_after_fee)) ^ (weight_in / weight_out))`.
pub open spec fn calc_out_given_in_spec(
    balance_in: u128,
    weight_in: u128,
    balance_out: u128,
    weight_out: u128,
    asset_amount_in: u128,
    swap_fee: u128,
) -> Result<u128, Error> {
    match bdiv_spec(weight_in, weight_out) {
        Err(e) => Err(e),
        Ok(weight_ratio) => match check_sub_spec(BASE, swap_fee) {
            Err(e) => Err(e),
            Ok(fee_part) => match bmul_spec(asset_amount_in, fee_part) {
                Err(e) => Err(e),
                Ok(adjusted_in) => match check_add_spec(balance_in, adjusted_in) {
                    Err(e) => Err(e),
                    Ok(new_balance_in) => match bdiv_spec(balance_in, new_balance_in) {
                        Err(e) => Err(e),
                        Ok(y) => match bpow_spec(y, weight_ratio) {
                            Err(e) => Err(e),
                            Ok(foo) => match check_sub_spec(BASE, foo) {
                                Err(e) => Err(e),
                                Ok(bar) => bmul_spec(balance_out, bar),
                            },
                        },
                    },
                },
            },
        },
    }
}

/// Exact-in swap amount under the weighted constant-product relation.
pub fn calc_out_given_in(
    balance_in: u128,
    weight_in: u128,
    balance_out: u128,
    weight_out: u128,
    asset_amount_in: u128,
    swap_fee: u128,
) -> (r: Result<u128, Error>)
    ensures
        r == calc_out_given_in_spec(
            balance_in,
            weight_in,
            balance_out,
            weight_out,
            asset_amount_in,
            swap_fee,
        ),
{
    let weight_ratio = match bdiv(weight_in, weight_out) {
        Ok(v) => v,
        Err(e) => {
            return Err(e);
        },
    };
    let fee_part = match check_sub(BASE, swap_fee) {
        Ok(v) => v,
        Err(e) => {
            return Err(e);
        },
    };
    let adjusted_in = match bmul(asset_amount_in, fee_part) {
        Ok(v) => v,
        Err(e) => {
            return Err(e);
        },
    };
    let new_balance_in = match check_add(balance_in, adjusted_in) {
        Ok(v) => v,
        Err(e) => {
            return Err(e);
        },
    };
    let y = match bdiv(balance_in, new_balance_in) {
        Ok(v) => v,
        Err(e) => {
            return Err(e);
        },
    };
    let foo = match bpow(y, weight_ratio) {
        Ok(v) => v,
        Err(e) => {
            return Err(e);
        },
    };
    let bar = match check_sub(BASE, foo) {
        Ok(v) => v,
        Err(e) => {
            return Err(e);
        },
    };
    bmul(balance_out, bar)
}

/// Amount of `asset_in` owed for an exact `asset_amount_out`:
/// `balance_in * ((balance_out / (balance_out - out)) ^ (weight_out / weight_in) - 1) / (1 - swap_fee)`.
pub open spec fn calc_in_given_out_spec(
    balance_in: u128,
    weight_in: u128,
    balance_out: u128,
    weight_out: u128,
    asset_amount_out: u128,
    swap_fee: u128,
) -> Result<u128, Error> {
    match bdiv_spec(weight_out, weight_in) {
        Err(e) => Err(e),
        Ok(weight_ratio) => match check_sub_spec(balance_out, asset_amount_out) {
            Err(e) => Err(e),
            Ok(diff) => match bdiv_spec(balance_out, diff) {
                Err(e) => Err(e),
                Ok(y) => match bpow_spec(y, weight_ratio) {
                    Err(e) => Err(e),
                    Ok(pow) => match check_sub_spec(pow, BASE) {
                        Err(e) => Err(e),
                        Ok(foo) => match bmul_spec(balance_in, foo) {
                            Err(e) => Err(e),
                            Ok(gross) => match check_sub_spec(BASE, swap_fee) {
                                Err(e) => Err(e),
                                Ok(fee_part) => bdiv_spec(gross, fee_part),
                            },
                        },
                    },
                },
            },
        },
    }
}

/// Exact-out swap amount under the weighted constant-product relation.
pub fn calc_in_given_out(
    balance_in: u128,
    weight_in: u128,
    balance_out: u128,
    weight_out: u128,
    asset_amount_out: u128,
    swap_fee: u128,
) -> (r: Result<u128, Error>)
    ensures
        r == calc_in_given_out_spec(
            balance_in,
            weight_in,
            balance_out,
            weight_out,
            asset_amount_out,
            swap_fee,
        ),
{
    let weight_ratio = match bdiv(weight_out, weight_in) {
        Ok(v) => v,
        Err(e) => {
            return Err(e);
        },
    };
    let diff = match check_sub(balance_out, asset_amount_out) {
        Ok(v) => v,
        Err(e) => {
            return Err(e);
        },
    };
    let y = match bdiv(balance_out, diff) {
        Ok(v) => v,
        Err(e) => {
            return Err(e);
        },
    };
    let pow = match bpow(y, weight_ratio) {
        Ok(v) => v,
        Err(e) => {
            return Err(e);
        },
    };
    let foo = match check_sub(pow, BASE) {
        Ok(v) => v,
        Err(e) => {
            return Err(e);
        },
    };
    let gross = match bmul(balance_in, foo) {
        Ok(v) => v,
        Err(e) => {
            return Err(e);
        },
    };
    let fee_part = match check_sub(BASE, swap_fee) {
        Ok(v) => v,
        Err(e) => {
            return Err(e);
        },
    };
    bdiv(gross, fee_part)
}

/// Pool shares minted for an exact single-asset deposit.
pub open spec fn calc_pool_out_given_single_in_spec(
    balance_in: u128,
    weight_in: u128,
    pool_supply: u128,
    total_weight: u128,
    asset_amount_in: u128,
    swap_fee: u128,
) -> Result<u128, Error> {
    match bdiv_spec(weight_in, total_weight) {
        Err(e) => Err(e),
        Ok(normalized_weight) => match check_sub_spec(BASE, normalized_weight) {
            Err(e) => Err(e),
            Ok(weight_rest) => match bmul_spec(weight_rest, swap_fee) {
                Err(e) => Err(e),
                Ok(zaz) => match check_sub_spec(BASE, zaz) {
                    Err(e) => Err(e),
                    Ok(fee_part) => match bmul_spec(asset_amount_in, fee_part) {
                        Err(e) => Err(e),
                        Ok(in_after_fee) => match check_add_spec(balance_in, in_after_fee) {
                            Err(e) => Err(e),
                            Ok(new_balance_in) => match bdiv_spec(new_balance_in, balance_in) {
                                Err(e) => Err(e),
                                Ok(balance_ratio) => match bpow_spec(
                                    balance_ratio,
                                    normalized_weight,
                                ) {
                                    Err(e) => Err(e),
                                    Ok(pool_ratio) => match bmul_spec(pool_ratio, pool_supply) {
                                        Err(e) => Err(e),
                                        Ok(new_supply) => check_sub_spec(new_supply, pool_supply),
                                    },
                                },
                            },
                        },
                    },
                },
            },
        },
    }
}

/// Join with an exact asset amount: solves for the pool shares minted.
pub fn calc_pool_out_given_single_in(
    balance_in: u128,
    weight_in: u128,
    pool_supply: u128,
    total_weight: u128,
    asset_amount_in: u128,
    swap_fee: u128,
) -> (r: Result<u128, Error>)
    ensures
        r == calc_pool_out_given_single_in_spec(
            balance_in,
            weight_in,
            pool_supply,
            total_weight,
            asset_amount_in,
            swap_fee,
        ),
{
    let normalized_weight = match bdiv(weight_in, total_weight) {
        Ok(v) => v,
        Err(e) => {
            return Err(e);
        },
    };
    let weight_rest = match check_sub(BASE, normalized_weight) {
        Ok(v) => v,
        Err(e) => {
            return Err(e);
        },
    };
    let zaz = match bmul(weight_rest, swap_fee) {
        Ok(v) => v,
        Err(e) => {
            return Err(e);
        },
    };
    let fee_part = match check_sub(BASE, zaz) {
        Ok(v) => v,
        Err(e) => {
            return Err(e);
        },
    };
    let in_after_fee = match bmul(asset_amount_in, fee_part) {
        Ok(v) => v,
        Err(e) => {
            return Err(e);
        },
    };
    let new_balance_in = match check_add(balance_in, in_after_fee) {
        Ok(v) => v,
        Err(e) => {
            return Err(e);
        },
    };
    let balance_ratio = match bdiv(new_balance_in, balance_in) {
        Ok(v) => v,
        Err(e) => {
            return Err(e);
        },
    };
    let pool_ratio = match bpow(balance_ratio, normalized_weight) {
        Ok(v) => v,
        Err(e) => {
            return Err(e);
        },
    };
    let new_supply = match bmul(pool_ratio, pool_supply) {
        Ok(v) => v,
        Err(e) => {
            return Err(e);
        },
    };
    check_sub(new_supply, pool_supply)
}

/// Asset amount owed for an exact amount of pool shares minted.
pub open spec fn calc_single_in_given_pool_out_spec(
    balance_in: u128,
    weight_in: u128,
    pool_supply: u128,
    total_weight: u128,
    pool_amount_out: u128,
    swap_fee: u128,
) -> Result<u128, Error> {
    match bdiv_spec(weight_in, total_weight) {
        Err(e) => Err(e),
        Ok(normalized_weight) => match check_add_spec(pool_supply, pool_amount_out) {
            Err(e) => Err(e),
            Ok(new_supply) => match bdiv_spec(new_supply, pool_supply) {
                Err(e) => Err(e),
                Ok(pool_ratio) => match bdiv_spec(BASE, normalized_weight) {
                    Err(e) => Err(e),
                    Ok(exponent) => match bpow_spec(pool_ratio, exponent) {
                        Err(e) => Err(e),
                        Ok(balance_ratio) => match bmul_spec(balance_ratio, balance_in) {
                            Err(e) => Err(e),
                            Ok(new_balance_in) => match check_sub_spec(new_balance_in, balance_in) {
                                Err(e) => Err(e),
                                Ok(in_before_fee) => match check_sub_spec(
                                    BASE,
                                    normalized_weight,
                                ) {
                                    Err(e) => Err(e),
                                    Ok(weight_rest) => match bmul_spec(weight_rest, swap_fee) {
                                        Err(e) => Err(e),
                                        Ok(zar) => match check_sub_spec(BASE, zar) {
                                            Err(e) => Err(e),
                                            Ok(fee_part) => bdiv_spec(in_before_fee, fee_part),
                                        },
                                    },
                                },
                            },
                        },
                    },
                },
            },
        },
    }
}

/// Join with an exact pool-share amount: solves for the asset amount owed.
pub fn calc_single_in_given_pool_out(
    balance_in: u128,
    weight_in: u128,
    pool_supply: u128,
    total_weight: u128,
    pool_amount_out: u128,
    swap_fee: u128,
) -> (r: Result<u128, Error>)
    ensures
        r == calc_single_in_given_pool_out_spec(
            balance_in,
            weight_in,
            pool_supply,
            total_weight,
            pool_amount_out,
            swap_fee,
        ),
{
    let normalized_weight = match bdiv(weight_in, total_weight) {
        Ok(v) => v,
        Err(e) => {
            return Err(e);
        },
    };
    let new_supply = match check_add(pool_supply, pool_amount_out) {
        Ok(v) => v,
        Err(e) => {
            return Err(e);
        },
    };
    let pool_ratio = match bdiv(new_supply, pool_supply) {
        Ok(v) => v,
        Err(e) => {
            return Err(e);
        },
    };
    let exponent = match bdiv(BASE, normalized_weight) {
        Ok(v) => v,
        Err(e) => {
            return Err(e);
        },
    };
    let balance_ratio = match bpow(pool_ratio, exponent) {
        Ok(v) => v,
        Err(e) => {
            return Err(e);
        },
    };
    let new_balance_in = match bmul(balance_ratio, balance_in) {
        Ok(v) => v,
        Err(e) => {
            return Err(e);
        },
    };
    let in_before_fee = match check_sub(new_balance_in, balance_in) {
        Ok(v) => v,
        Err(e) => {
            return Err(e);
        },
    };
    let weight_rest = match check_sub(BASE, normalized_weight) {
        Ok(v) => v,
        Err(e) => {
            return Err(e);
        },
    };
    let zar = match bmul(weight_rest, swap_fee) {
        Ok(v) => v,
        Err(e) => {
            return Err(e);
        },
    };
    let fee_part = match check_sub(BASE, zar) {
        Ok(v) => v,
        Err(e) => {
            return Err(e);
        },
    };
    bdiv(in_before_fee, fee_part)
}

/// Asset amount paid out for an exact amount of pool shares burned.
pub open spec fn calc_single_out_given_pool_in_spec(
    balance_out: u128,
    weight_out: u128,
    pool_supply: u128,
    total_weight: u128,
    pool_amount_in: u128,
    swap_fee: u128,
    exit_fee: u128,
) -> Result<u128, Error> {
    match bdiv_spec(weight_out, total_weight) {
        Err(e) => Err(e),
        Ok(normalized_weight) => match check_sub_spec(BASE, exit_fee) {
            Err(e) => Err(e),
            Ok(exit_part) => match bmul_spec(pool_amount_in, exit_part) {
                Err(e) => Err(e),
                Ok(in_after_exit_fee) => match check_sub_spec(pool_supply, in_after_exit_fee) {
                    Err(e) => Err(e),
                    Ok(new_supply) => match bdiv_spec(new_supply, pool_supply) {
                        Err(e) => Err(e),
                        Ok(pool_ratio) => match bdiv_spec(BASE, normalized_weight) {
                            Err(e) => Err(e),
                            Ok(exponent) => match bpow_spec(pool_ratio, exponent) {
                                Err(e) => Err(e),
                                Ok(balance_ratio) => match bmul_spec(balance_ratio, balance_out) {
                                    Err(e) => Err(e),
                                    Ok(new_balance_out) => match check_sub_spec(
                                        balance_out,
                                        new_balance_out,
                                    ) {
                                        Err(e) => Err(e),
                                        Ok(out_before_fee) => match check_sub_spec(
                                            BASE,
                                            normalized_weight,
                                        ) {
                                            Err(e) => Err(e),
                                            Ok(weight_rest) => match bmul_spec(
                                                weight_rest,
                                                swap_fee,
                                            ) {
                                                Err(e) => Err(e),
                                                Ok(zaz) => match check_sub_spec(BASE, zaz) {
                                                    Err(e) => Err(e),
                                                    Ok(fee_part) => bmul_spec(
                                                        out_before_fee,
                                                        fee_part,
                                                    ),
                                                },
                                            },
                                        },
                                    },
                                },
                            },
                        },
                    },
                },
            },
        },
    }
}

/// Exit with an exact pool-share amount: solves for the asset amount paid out.
pub fn calc_single_out_given_pool_in(
    balance_out: u128,
    weight_out: u128,
    pool_supply: u128,
    total_weight: u128,
    pool_amount_in: u128,
    swap_fee: u128,
    exit_fee: u128,
) -> (r: Result<u128, Error>)
    ensures
        r == calc_single_out_given_pool_in_spec(
            balance_out,
            weight_out,
            pool_supply,
            total_weight,
            pool_amount_in,
            swap_fee,
            exit_fee,
        ),
{
    let normalized_weight = match bdiv(weight_out, total_weight) {
        Ok(v) => v,
        Err(e) => {
            return Err(e);
        },
    };
    let exit_part = match check_sub(BASE, exit_fee) {
        Ok(v) => v,
        Err(e) => {
            return Err(e);
        },
    };
    let in_after_exit_fee = match bmul(pool_amount_in, exit_part) {
        Ok(v) => v,
        Err(e) => {
            return Err(e);
        },
    };
    let new_supply = match check_sub(pool_supply, in_after_exit_fee) {
        Ok(v) => v,
        Err(e) => {
            return Err(e);
        },
    };
    let pool_ratio = match bdiv(new_supply, pool_supply) {
        Ok(v) => v,
        Err(e) => {
            return Err(e);
        },
    };
    let exponent = match bdiv(BASE, normalized_weight) {
        Ok(v) => v,
        Err(e) => {
            return Err(e);
        },
    };
    let balance_ratio = match bpow(pool_ratio, exponent) {
        Ok(v) => v,
        Err(e) => {
            return Err(e);
        },
    };
    let new_balance_out = match bmul(balance_ratio, balance_out) {
        Ok(v) => v,
        Err(e) => {
            return Err(e);
        },
    };
    let out_before_fee = match check_sub(balance_out, new_balance_out) {
        Ok(v) => v,
        Err(e) => {
            return Err(e);
        },
    };
    let weight_rest = match check_sub(BASE, normalized_weight) {
        Ok(v) => v,
        Err(e) => {
            return Err(e);
        },
    };
    let zaz = match bmul(weight_rest, swap_fee) {
        Ok(v) => v,
        Err(e) => {
            return Err(e);
        },
    };
    let fee_part = match check_sub(BASE, zaz) {
        Ok(v) => v,
        Err(e) => {
            return Err(e);
        },
    };
    bmul(out_before_fee, fee_part)
}

/// Pool shares burned for an exact single-asset withdrawal.
pub open spec fn calc_pool_in_given_single_out_spec(
    balance_out: u128,
    weight_out: u128,
    pool_supply: u128,
    total_weight: u128,
    asset_amount_out: u128,
    swap_fee: u128,
    exit_fee: u128,
) -> Result<u128, Error> {
    match bdiv_spec(weight_out, total_weight) {
        Err(e) => Err(e),
        Ok(normalized_weight) => match check_sub_spec(BASE, normalized_weight) {
            Err(e) => Err(e),
            Ok(weight_rest) => match bmul_spec(weight_rest, swap_fee) {
                Err(e) => Err(e),
                Ok(zar) => match check_sub_spec(BASE, zar) {
                    Err(e) => Err(e),
                    Ok(fee_part) => match bdiv_spec(asset_amount_out, fee_part) {
                        Err(e) => Err(e),
                        Ok(out_before_fee) => match check_sub_spec(balance_out, out_before_fee) {
                            Err(e) => Err(e),
                            Ok(new_balance_out) => match bdiv_spec(new_balance_out, balance_out) {
                                Err(e) => Err(e),
                                Ok(balance_ratio) => match bpow_spec(
                                    balance_ratio,
                                    normalized_weight,
                                ) {
                                    Err(e) => Err(e),
                                    Ok(pool_ratio) => match bmul_spec(pool_ratio, pool_supply) {
                                        Err(e) => Err(e),
                                        Ok(new_supply) => match check_sub_spec(
                                            pool_supply,
                                            new_supply,
                                        ) {
                                            Err(e) => Err(e),
                                            Ok(in_after_exit_fee) => match check_sub_spec(
                                                BASE,
                                                exit_fee,
                                            ) {
                                                Err(e) => Err(e),
                                                Ok(exit_part) => bdiv_spec(
                                                    in_after_exit_fee,
                                                    exit_part,
                                                ),
                                            },
                                        },
                                    },
                                },
                            },
                        },
                    },
                },
            },
        },
    }
}

/// Exit with an exact asset amount: solves for the pool shares burned.
pub fn calc_pool_in_given_single_out(
    balance_out: u128,
    weight_out: u128,
    pool_supply: u128,
    total_weight: u128,
    asset_amount_out: u128,
    swap_fee: u128,
    exit_fee: u128,
) -> (r: Result<u128, Error>)
    ensures
        r == calc_pool_in_given_single_out_spec(
            balance_out,
            weight_out,
            pool_supply,
            total_weight,
            asset_amount_out,
            swap_fee,
            exit_fee,
        ),
{
    let normalized_weight = match bdiv(weight_out, total_weight) {
        Ok(v) => v,
        Err(e) => {
            return Err(e);
        },
    };
    let weight_rest = match check_sub(BASE, normalized_weight) {
        Ok(v) => v,
        Err(e) => {
            return Err(e);
        },
    };
    let zar = match bmul(weight_rest, swap_fee) {
        Ok(v) => v,
        Err(e) => {
            return Err(e);
        },
    };
    let fee_part = match check_sub(BASE, zar) {
        Ok(v) => v,
        Err(e) => {
            return Err(e);
        },
    };
    let out_before_fee = match bdiv(asset_amount_out, fee_part) {
        Ok(v) => v,
        Err(e) => {
            return Err(e);
        },
    };
    let new_balance_out = match check_sub(balance_out, out_before_fee) {
        Ok(v) => v,
        Err(e) => {
            return Err(e);
        },
    };
    let balance_ratio = match bdiv(new_balance_out, balance_out) {
        Ok(v) => v,
        Err(e) => {
            return Err(e);
        },
    };
    let pool_ratio = match bpow(balance_ratio, normalized_weight) {
        Ok(v) => v,
        Err(e) => {
            return Err(e);
        },
    };
    let new_supply = match bmul(pool_ratio, pool_supply) {
        Ok(v) => v,
        Err(e) => {
            return Err(e);
        },
    };
    let in_after_exit_fee = match check_sub(pool_supply, new_supply) {
        Ok(v) => v,
        Err(e) => {
            return Err(e);
        },
    };
    let exit_part = match check_sub(BASE, exit_fee) {
        Ok(v) => v,
        Err(e) => {
            return Err(e);
        },
    };
    bdiv(in_after_exit_fee, exit_part)
}

} // verus!
