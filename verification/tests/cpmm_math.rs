use swaps::fixed::BASE;
use swaps::math::{
    calc_in_given_out, calc_out_given_in, calc_pool_in_given_single_out,
    calc_pool_out_given_single_in, calc_single_in_given_pool_out, calc_single_out_given_pool_in,
    calc_spot_price,
};
use swaps::Error;

#[test]
fn spot_price_of_balanced_pool_is_one() {
    assert_eq!(calc_spot_price(100 * BASE, BASE, 100 * BASE, BASE, 0), Ok(BASE));
}

#[test]
fn spot_price_with_fee_scales_up() {
    // 1 / (1 - 0.5) = 2.
    assert_eq!(calc_spot_price(100 * BASE, BASE, 100 * BASE, BASE, BASE / 2), Ok(2 * BASE));
}

#[test]
fn spot_price_fee_of_one_is_error() {
    assert_eq!(
        calc_spot_price(100 * BASE, BASE, 100 * BASE, BASE, BASE),
        Err(Error::ArithmeticError)
    );
}

#[test]
fn out_given_in_constant_product() {
    // 100 - (100 * 100) / 110 = 9.0909...
    assert_eq!(
        calc_out_given_in(100 * BASE, BASE, 100 * BASE, BASE, 10 * BASE, 0),
        Ok(90_909_090_900)
    );
}

#[test]
fn in_given_out_inverts_out_given_in() {
    assert_eq!(
        calc_in_given_out(100 * BASE, BASE, 100 * BASE, BASE, 90_909_090_900, 0),
        Ok(10 * BASE)
    );
}

#[test]
fn in_given_out_draining_pool_is_error() {
    assert_eq!(
        calc_in_given_out(100 * BASE, BASE, 100 * BASE, BASE, 100 * BASE, 0),
        Err(Error::ArithmeticError)
    );
}

#[test]
fn pool_out_given_single_in_square_root_growth() {
    // sqrt(1.1) * 100 - 100 = 4.88088481 pool shares.
    assert_eq!(
        calc_pool_out_given_single_in(100 * BASE, BASE, 100 * BASE, 2 * BASE, 10 * BASE, 0),
        Ok(48_808_848_100)
    );
}

#[test]
fn single_in_given_pool_out_quadratic_growth() {
    // (1.05^2 - 1) * 100 = 10.25 exactly.
    assert_eq!(
        calc_single_in_given_pool_out(100 * BASE, BASE, 100 * BASE, 2 * BASE, 5 * BASE, 0),
        Ok(102_500_000_000)
    );
}

#[test]
fn single_out_given_pool_in_round_trip_never_gains() {
    // Exit with the same five pool shares that 10.25 just bought.
    let r = calc_single_out_given_pool_in(
        100 * BASE + 102_500_000_000,
        BASE,
        105 * BASE,
        2 * BASE,
        5 * BASE,
        0,
        0,
    );
    assert_eq!(r, Ok(102_499_999_954));
    assert!(r.unwrap() <= 102_500_000_000);
}

#[test]
fn pool_in_given_single_out_exact_asset_exit() {
    assert_eq!(
        calc_pool_in_given_single_out(100 * BASE, BASE, 100 * BASE, 2 * BASE, 10 * BASE, 0, 0),
        Ok(51_316_701_900)
    );
}
