//! The wide multiply-then-divide and the currency-to-share conversion.

use lockup_stake_metapool::arith::mul_div_checked;
use lockup_stake_metapool::utils::mul_div;
use lockup_stake_metapool::ONE_NEAR;

#[test]
fn mul_div_small_values() {
    assert_eq!(mul_div(6, 10, 4), 15);
    assert_eq!(mul_div(7, 10, 4), 17); // floor(70 / 4)
    assert_eq!(mul_div(0, 12345, 7), 0);
    assert_eq!(mul_div(12345, 0, 7), 0);
    assert_eq!(mul_div(1, 1, 1), 1);
}

#[test]
fn mul_div_needs_the_wide_intermediate() {
    // the product exceeds 128 bits although the quotient fits
    let a: u128 = 1u128 << 100;
    let n: u128 = 1u128 << 20;
    let d: u128 = 1u128 << 80;
    assert_eq!(mul_div(a, n, d), 1u128 << 40);
    assert_eq!(mul_div(u128::MAX, u128::MAX, u128::MAX), u128::MAX);
    assert_eq!(mul_div(u128::MAX, 2, 4), u128::MAX / 2);
    assert_eq!(
        mul_div(123_456_789_012_345_678_901_234_567_890, 10, 100),
        12_345_678_901_234_567_890_123_456_789
    );
}

#[test]
fn mul_div_checked_reports_overflow() {
    assert_eq!(mul_div_checked(u128::MAX, u128::MAX, 1), None);
    assert_eq!(mul_div_checked(u128::MAX, 2, 1), None);
    assert_eq!(mul_div_checked(u128::MAX, 2, 2), Some(u128::MAX));
    assert_eq!(mul_div_checked(0, u128::MAX, 3), Some(0));
}

#[test]
fn currency_to_shares_rounds_down() {
    // at a price of 1.5 NEAR per share, the shares handed out never exceed
    // the amount's worth
    let price: u128 = ONE_NEAR + ONE_NEAR / 2;
    let amounts: [u128; 5] = [0, 1, 2, 33_333, 1_000_000_000_007];
    for amount in amounts {
        let shares = mul_div(amount, ONE_NEAR, price);
        assert!(shares.checked_mul(price).unwrap() <= amount.checked_mul(ONE_NEAR).unwrap());
        // and one more share would be worth strictly more than the amount
        assert!((shares + 1).checked_mul(price).unwrap() > amount.checked_mul(ONE_NEAR).unwrap());
    }
    assert_eq!(mul_div(3 * ONE_NEAR, ONE_NEAR, price), 2 * ONE_NEAR);
}

#[test]
fn currency_to_shares_is_monotonic() {
    let price: u128 = ONE_NEAR + ONE_NEAR / 2;
    let mut previous: u128 = 0;
    let amounts: [u128; 6] = [0, 1, 2, ONE_NEAR - 1, ONE_NEAR, ONE_NEAR + 1];
    for amount in amounts {
        let shares = mul_div(amount, ONE_NEAR, price);
        assert!(shares >= previous);
        previous = shares;
    }
}
