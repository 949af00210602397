//! Transcendental fixed-point functions for the Rikiddo scoring rule.
//!
//! The decimal fixed-point values of the library are converted — exactly,
//! in verified code — to binary fixed-point numbers with 64 fractional
//! bits, on which an outside crate evaluates `exp`, `ln` and `sqrt`.  Each
//! outside call sits behind one trusted wrapper over plain bit values;
//! both its result and whether it succeeds are named, since no short
//! statement can give either, and the wrappers' callers owe success
//! exactly when those names grant it.

use vstd::prelude::*;
use vstd::arithmetic::div_mod::lemma_hoist_over_denominator;

use crate::Error;
use crate::fixed::BASE;

verus! {

/// One, in binary fixed point with 64 fractional bits: `2^64`.
pub const ONE_BITS: u128 = 18_446_744_073_709_551_616;

/// What `exp` returns on a binary fixed-point value, as bits.
pub uninterp spec fn exp_i64f64(bits: i128) -> i128;

/// Whether `exp` succeeds on a binary fixed-point value.
pub uninterp spec fn exp_ok_i64f64(bits: i128) -> bool;

/// What `ln` returns on a binary fixed-point value, as bits.
pub uninterp spec fn ln_i64f64(bits: i128) -> i128;

/// Whether `ln` succeeds on a binary fixed-point value.
pub uninterp spec fn ln_ok_i64f64(bits: i128) -> bool;

/// What `sqrt` returns on a binary fixed-point value, as bits.
pub uninterp spec fn sqrt_i64f64(bits: i128) -> i128;

/// Whether `sqrt` succeeds on a binary fixed-point value.
pub uninterp spec fn sqrt_ok_i64f64(bits: i128) -> bool;

/// Whether the decimal value `v` fits the binary representation: its
/// integer part needs at most 63 bits.
pub open spec fn fits_bits(v: u128) -> bool {
    v / BASE < 9_223_372_036_854_775_808
}

/// The binary fixed-point image of the decimal value `v`.
pub open spec fn to_bits_val(v: u128) -> i128 {
    (((v as int) * (ONE_BITS as int)) / (BASE as int)) as i128
}

/// The decimal image of the binary fixed-point value `b`.
pub open spec fn to_dec_val(b: i128) -> int {
    ((b as int) * (BASE as int)) / (ONE_BITS as int)
}

/// Convert a decimal fixed-point value to binary fixed point, rounding
/// the fraction down; values with an integer part of 64 bits or more do
/// not fit.
pub fn dec_to_bits(v: u128) -> (r: Result<i128, Error>)
    ensures
        fits_bits(v) ==> r == Ok::<i128, Error>(to_bits_val(v)),
        !fits_bits(v) ==> r == Err::<i128, Error>(Error::ArithmeticError),
{
    let q = v / BASE;
    let rem = v % BASE;
    if q >= 9_223_372_036_854_775_808 {
        return Err(Error::ArithmeticError);
    }
    proof {
        assert(q * ONE_BITS <= 9_223_372_036_854_775_807 * ONE_BITS) by (nonlinear_arith)
            requires
                q <= 9_223_372_036_854_775_807,
        ;
        assert(rem * ONE_BITS < BASE * ONE_BITS) by (nonlinear_arith)
            requires
                rem < BASE,
        ;
        assert((rem * ONE_BITS) / (BASE as int) < ONE_BITS) by (nonlinear_arith)
            requires
                rem * ONE_BITS < BASE * ONE_BITS,
        ;
    }
    let frac = (rem * ONE_BITS) / BASE;
    let bits = q * ONE_BITS + frac;
    proof {
        assert(v == BASE * q + rem);
        assert((v as int) * (ONE_BITS as int) == ((rem * ONE_BITS) as int) + ((q
            * ONE_BITS) as int) * (BASE as int)) by (nonlinear_arith)
            requires
                v == BASE * q + rem,
        ;
        lemma_hoist_over_denominator(
            (rem * ONE_BITS) as int,
            (q * ONE_BITS) as int,
            BASE as nat,
        );
    }
    Ok(bits as i128)
}

/// Convert a non-negative binary fixed-point value back to decimal fixed
/// point, rounding the fraction down; negative values are an error.
pub fn bits_to_dec(b: i128) -> (r: Result<u128, Error>)
    ensures
        b >= 0 ==> r is Ok,
        r matches Ok(y) ==> b >= 0 && y == to_dec_val(b),
        b < 0 ==> r == Err::<u128, Error>(Error::ArithmeticError),
{
    if b < 0 {
        return Err(Error::ArithmeticError);
    }
    let u = b as u128;
    let hi = u / ONE_BITS;
    let lo = u % ONE_BITS;
    proof {
        assert(hi <= 9_223_372_036_854_775_808) by (nonlinear_arith)
            requires
                hi == u / ONE_BITS,
                u < 170_141_183_460_469_231_731_687_303_715_884_105_728,
        ;
        assert(hi * BASE <= 9_223_372_036_854_775_808 * BASE) by (nonlinear_arith)
            requires
                hi <= 9_223_372_036_854_775_808,
        ;
        assert(lo * BASE < ONE_BITS * BASE) by (nonlinear_arith)
            requires
                lo < ONE_BITS,
        ;
        assert((lo * BASE) / (ONE_BITS as int) < BASE) by (nonlinear_arith)
            requires
                lo * BASE < ONE_BITS * BASE,
        ;
    }
    let frac = (lo * BASE) / ONE_BITS;
    let v = hi * BASE + frac;
    proof {
        assert(u == ONE_BITS * hi + lo);
        assert((u as int) * (BASE as int) == ((lo * BASE) as int) + ((hi * BASE) as int) * (
        ONE_BITS as int)) by (nonlinear_arith)
            requires
                u == ONE_BITS * hi + lo,
        ;
        lemma_hoist_over_denominator((lo * BASE) as int, (hi * BASE) as int, ONE_BITS as nat);
    }
    Ok(v)
}

/// Relies on `substrate_fixed::transcendental::exp` over binary fixed
/// point with 64 fractional bits: whether the call succeeds, and what it
/// returns, depend on the bits alone; a failure is an arithmetic error;
/// `exp(0)` is exactly one.
#[verifier::external_body]
pub fn exp_bits(x: i128) -> (r: Result<i128, Error>)
    ensures
        r is Ok <==> exp_ok_i64f64(x),
        r matches Ok(b) ==> b == exp_i64f64(x),
        r is Err ==> r->Err_0 == Error::ArithmeticError,
        x == 0 ==> r is Ok && r->Ok_0 == 18_446_744_073_709_551_616i128,
{
    let s = substrate_fixed::FixedI128::<substrate_fixed::types::extra::U64>::from_bits(x);
    match substrate_fixed::transcendental::exp::<
        substrate_fixed::FixedI128<substrate_fixed::types::extra::U64>,
        substrate_fixed::FixedI128<substrate_fixed::types::extra::U64>,
    >(s) {
        Ok(d) => Ok(d.to_bits()),
        Err(()) => Err(Error::ArithmeticError),
    }
}

/// Relies on `substrate_fixed::transcendental::ln` over binary fixed
/// point with 64 fractional bits: whether the call succeeds, and what it
/// returns, depend on the bits alone; a failure is an arithmetic error;
/// a non-positive operand is rejected, and `ln(1)` is exactly zero.
#[verifier::external_body]
pub fn ln_bits(x: i128) -> (r: Result<i128, Error>)
    ensures
        r is Ok <==> ln_ok_i64f64(x),
        r matches Ok(b) ==> b == ln_i64f64(x),
        r is Err ==> r->Err_0 == Error::ArithmeticError,
        x <= 0 ==> r is Err,
        x == 18_446_744_073_709_551_616i128 ==> r is Ok && r->Ok_0 == 0,
{
    let s = substrate_fixed::FixedI128::<substrate_fixed::types::extra::U64>::from_bits(x);
    match substrate_fixed::transcendental::ln::<
        substrate_fixed::FixedI128<substrate_fixed::types::extra::U64>,
        substrate_fixed::FixedI128<substrate_fixed::types::extra::U64>,
    >(s) {
        Ok(d) => Ok(d.to_bits()),
        Err(()) => Err(Error::ArithmeticError),
    }
}

/// Relies on `substrate_fixed::transcendental::sqrt` over binary fixed
/// point with 64 fractional bits: whether the call succeeds, and what it
/// returns, depend on the bits alone; a failure is an arithmetic error;
/// `sqrt(0)` is exactly zero.
#[verifier::external_body]
pub fn sqrt_bits(x: i128) -> (r: Result<i128, Error>)
    ensures
        r is Ok <==> sqrt_ok_i64f64(x),
        r matches Ok(b) ==> b == sqrt_i64f64(x),
        r is Err ==> r->Err_0 == Error::ArithmeticError,
        x == 0 ==> r is Ok && r->Ok_0 == 0,
{
    let s = substrate_fixed::FixedI128::<substrate_fixed::types::extra::U64>::from_bits(x);
    match substrate_fixed::transcendental::sqrt::<
        substrate_fixed::FixedI128<substrate_fixed::types::extra::U64>,
        substrate_fixed::FixedI128<substrate_fixed::types::extra::U64>,
    >(s) {
        Ok(d) => Ok(d.to_bits()),
        Err(_) => Err(Error::ArithmeticError),
    }
}

} // verus!
