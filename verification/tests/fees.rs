//! The split of an amount into fee and net, on given values.

use stellar_send::config::MAX_FEE_BPS;
use stellar_send::fee::split_fee;
use stellar_send::StellarSendError;

#[test]
fn test_split_fee_rounds_up_below_threshold() {
    let (fee_amount, net_amount) = split_fee(9_999, 1).unwrap();
    assert_eq!(fee_amount, 1);
    assert_eq!(net_amount, 9_998);
}

#[test]
fn test_split_fee_exact_division() {
    let (fee_amount, net_amount) = split_fee(10_000, 1).unwrap();
    assert_eq!(fee_amount, 1);
    assert_eq!(net_amount, 9_999);
}

#[test]
fn test_split_fee_just_above_boundary() {
    let (fee_amount, net_amount) = split_fee(10_001, 1).unwrap();
    assert_eq!(fee_amount, 2);
    assert_eq!(net_amount, 9_999);
}

#[test]
fn test_split_fee_very_small_amount() {
    let (fee_amount, net_amount) = split_fee(1, 1).unwrap();
    assert_eq!(fee_amount, 1);
    assert_eq!(net_amount, 0);
}

#[test]
fn test_split_fee_zero_fee_rate() {
    let (fee_amount, net_amount) = split_fee(9_999, 0).unwrap();
    assert_eq!(fee_amount, 0);
    assert_eq!(net_amount, 9_999);
}

#[test]
fn test_equivalent_single_payment() {
    // 499,950 * 1 / 10000 = 49.995 => ceil => 50
    let (fee_amount, net_amount) = split_fee(499_950, 1).unwrap();
    assert_eq!(fee_amount, 50);
    assert_eq!(net_amount, 499_900);
}

#[test]
fn cutting_a_payment_in_pieces_saves_no_fee() {
    let mut total: i128 = 0;
    for _ in 0..50 {
        total += split_fee(9_999, 1).unwrap().0;
    }
    assert_eq!(total, 50);
    assert!(total >= split_fee(50 * 9_999, 1).unwrap().0);
}

#[test]
fn highest_rate_takes_a_tenth() {
    assert_eq!(split_fee(1_000, MAX_FEE_BPS), Ok((100, 900)));
}

#[test]
fn fee_of_zero_and_of_the_whole() {
    assert_eq!(split_fee(0, 100), Ok((0, 0)));
    assert_eq!(split_fee(1_000, 10_000), Ok((1_000, 0)));
}

#[test]
fn fee_of_a_negative_amount_is_rounded_toward_zero() {
    assert_eq!(split_fee(-1, 1), Ok((0, -1)));
    assert_eq!(split_fee(-30_000, 10_000), Ok((-29_999, -1)));
}

#[test]
fn fee_overflow_is_reported() {
    assert_eq!(split_fee(i128::MAX, 2), Err(StellarSendError::ArithmeticOverflow));
    assert_eq!(split_fee(i128::MAX, 1), Err(StellarSendError::ArithmeticOverflow));
    assert_eq!(split_fee(i128::MIN, 2), Err(StellarSendError::ArithmeticOverflow));
    assert_eq!(split_fee(i128::MAX - 9_999, 1).unwrap().0, (i128::MAX) / 10_000);
    assert_eq!(split_fee(i128::MAX, 0), Ok((0, i128::MAX)));
}
