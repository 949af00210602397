//! Fixed-point arithmetic over `u128` with an explicit decimal scale.
//!
//! A value `v` stands for the rational number `v / BASE`.  All multiply and
//! divide operations detect overflow, underflow and division by zero and
//! fail with [`Error::ArithmeticError`] rather than wrap or truncate:
//! pool math is settlement-relevant and must be bit-exact and reproducible.

use vstd::prelude::*;

use crate::Error;

verus! {

/// The scale of the fixed-point representation: one unit of account.
pub const BASE: u128 = 10_000_000_000;

/// Whether `a + b` fits in `u128`.
pub open spec fn add_ok(a: u128, b: u128) -> bool {
    a + b <= u128::MAX
}

/// Whether `a * b` fits in `u128`.
pub open spec fn mul_ok(a: u128, b: u128) -> bool {
    a * b <= u128::MAX
}

/// `a + b`, or `ArithmeticError` on overflow.
pub open spec fn check_add_spec(a: u128, b: u128) -> Result<u128, Error> {
    if add_ok(a, b) {
        Ok((a + b) as u128)
    } else {
        Err(Error::ArithmeticError)
    }
}

/// `a - b`, or `ArithmeticError` on underflow.
pub open spec fn check_sub_spec(a: u128, b: u128) -> Result<u128, Error> {
    if b <= a {
        Ok((a - b) as u128)
    } else {
        Err(Error::ArithmeticError)
    }
}

/// `a * b`, or `ArithmeticError` on overflow.
pub open spec fn check_mul_spec(a: u128, b: u128) -> Result<u128, Error> {
    if mul_ok(a, b) {
        Ok((a * b) as u128)
    } else {
        Err(Error::ArithmeticError)
    }
}

/// `a / b`, or `ArithmeticError` when `b == 0`.
pub open spec fn check_div_spec(a: u128, b: u128) -> Result<u128, Error> {
    if b == 0 {
        Err(Error::ArithmeticError)
    } else {
        Ok((a / b) as u128)
    }
}

/// The fixed-point product `round((a * b) / BASE)`, rounding half up.
pub open spec fn bmul_spec(a: u128, b: u128) -> Result<u128, Error> {
    if a * b + BASE / 2 <= u128::MAX {
        Ok(((a * b + BASE / 2) / (BASE as int)) as u128)
    } else {
        Err(Error::ArithmeticError)
    }
}

/// The fixed-point quotient `round((a * BASE) / b)`, rounding half up;
/// division by zero is an error.
pub open spec fn bdiv_spec(a: u128, b: u128) -> Result<u128, Error> {
    if b == 0 {
        Err(Error::ArithmeticError)
    } else if a * BASE + b / 2 <= u128::MAX {
        Ok(((a * BASE + b / 2) / (b as int)) as u128)
    } else {
        Err(Error::ArithmeticError)
    }
}

/// Overflow-checked addition.
pub fn check_add(a: u128, b: u128) -> (r: Result<u128, Error>)
    ensures
        r == check_add_spec(a, b),
{
    match a.checked_add(b) {
        Some(c) => Ok(c),
        None => Err(Error::ArithmeticError),
    }
}

/// Underflow-checked subtraction.
pub fn check_sub(a: u128, b: u128) -> (r: Result<u128, Error>)
    ensures
        r == check_sub_spec(a, b),
{
    match a.checked_sub(b) {
        Some(c) => Ok(c),
        None => Err(Error::ArithmeticError),
    }
}

/// Overflow-checked multiplication.
pub fn check_mul(a: u128, b: u128) -> (r: Result<u128, Error>)
    ensures
        r == check_mul_spec(a, b),
{
    match a.checked_mul(b) {
        Some(c) => Ok(c),
        None => Err(Error::ArithmeticError),
    }
}

/// Zero-checked division.
pub fn check_div(a: u128, b: u128) -> (r: Result<u128, Error>)
    ensures
        r == check_div_spec(a, b),
{
    match a.checked_div(b) {
        Some(c) => Ok(c),
        None => Err(Error::ArithmeticError),
    }
}

/// Fixed-point multiplication: `(a * b + BASE / 2) / BASE`.
pub fn bmul(a: u128, b: u128) -> (r: Result<u128, Error>)
    ensures
        r == bmul_spec(a, b),
{
    match a.checked_mul(b) {
        Some(c0) => match c0.checked_add(BASE / 2) {
            Some(c1) => Ok(c1 / BASE),
            None => Err(Error::ArithmeticError),
        },
        None => Err(Error::ArithmeticError),
    }
}

/// Fixed-point division: `(a * BASE + b / 2) / b`.
pub fn bdiv(a: u128, b: u128) -> (r: Result<u128, Error>)
    ensures
        r == bdiv_spec(a, b),
{
    if b == 0 {
        return Err(Error::ArithmeticError);
    }
    match a.checked_mul(BASE) {
        Some(c0) => match c0.checked_add(b / 2) {
            Some(c1) => Ok(c1 / b),
            None => Err(Error::ArithmeticError),
        },
        None => Err(Error::ArithmeticError),
    }
}

} // verus!
