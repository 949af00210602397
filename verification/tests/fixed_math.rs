use swaps::fixed::{bdiv, bmul, check_add, check_div, check_mul, check_sub, BASE};
use swaps::math::{bpow, bpow_approx, bpowi, bsub_sign};
use swaps::Error;

#[test]
fn bmul_exact_products() {
    assert_eq!(bmul(2 * BASE, 3 * BASE), Ok(6 * BASE));
    assert_eq!(bmul(0, 123), Ok(0));
    assert_eq!(bmul(BASE, BASE), Ok(BASE));
}

#[test]
fn bmul_rounds_half_up() {
    assert_eq!(bmul(1, BASE / 2), Ok(1));
    assert_eq!(bmul(1, BASE / 2 - 1), Ok(0));
}

#[test]
fn bmul_overflow_is_error() {
    assert_eq!(bmul(u128::MAX, u128::MAX), Err(Error::ArithmeticError));
    assert_eq!(bmul(u128::MAX, 2 * BASE), Err(Error::ArithmeticError));
}

#[test]
fn bdiv_exact_quotients() {
    assert_eq!(bdiv(6 * BASE, 3 * BASE), Ok(2 * BASE));
    assert_eq!(bdiv(1, 3), Ok(3_333_333_333));
    assert_eq!(bdiv(BASE, BASE), Ok(BASE));
}

#[test]
fn bdiv_by_zero_is_error() {
    assert_eq!(bdiv(BASE, 0), Err(Error::ArithmeticError));
}

#[test]
fn bdiv_overflow_is_error() {
    assert_eq!(bdiv(u128::MAX, 7), Err(Error::ArithmeticError));
}

#[test]
fn checked_ops() {
    assert_eq!(check_add(2, 3), Ok(5));
    assert_eq!(check_add(u128::MAX, 1), Err(Error::ArithmeticError));
    assert_eq!(check_sub(5, 3), Ok(2));
    assert_eq!(check_sub(3, 5), Err(Error::ArithmeticError));
    assert_eq!(check_mul(4, 5), Ok(20));
    assert_eq!(check_mul(u128::MAX, 2), Err(Error::ArithmeticError));
    assert_eq!(check_div(20, 5), Ok(4));
    assert_eq!(check_div(20, 0), Err(Error::ArithmeticError));
}

#[test]
fn bsub_sign_both_directions() {
    assert_eq!(bsub_sign(7, 3), (4, false));
    assert_eq!(bsub_sign(3, 7), (4, true));
    assert_eq!(bsub_sign(5, 5), (0, false));
}

#[test]
fn bpowi_integer_powers() {
    assert_eq!(bpowi(5 * BASE, 0), Ok(BASE));
    assert_eq!(bpowi(5 * BASE, 1), Ok(5 * BASE));
    assert_eq!(bpowi(5 * BASE, 2), Ok(25 * BASE));
}

#[test]
fn bpow_whole_exponent() {
    assert_eq!(bpow(15_000_000_000, BASE), Ok(15_000_000_000));
    // (1.5)^2 = 2.25.
    assert_eq!(bpow(15_000_000_000, 2 * BASE), Ok(22_500_000_000));
}

#[test]
fn bpow_fractional_exponent_square_roots() {
    // (1.21)^(1/2) converges to exactly 1.1 at this scale.
    assert_eq!(bpow(12_100_000_000, BASE / 2), Ok(11_000_000_000));
    // (1.1)^(1/2) = 1.0488088481...
    assert_eq!(bpow(11_000_000_000, BASE / 2), Ok(10_488_088_481));
}

#[test]
fn bpow_base_out_of_range_is_error() {
    assert_eq!(bpow(0, BASE / 2), Err(Error::ArithmeticError));
    assert_eq!(bpow(2 * BASE, BASE / 2), Err(Error::ArithmeticError));
}

#[test]
fn bpow_approx_at_one_is_one() {
    // 1^x == 1: the series collapses after the first zero term.
    assert_eq!(bpow_approx(BASE, BASE / 3), Ok(BASE));
}
