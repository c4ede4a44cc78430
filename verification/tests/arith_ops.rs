//! Exact-value exercises of the checked arithmetic layer, including every
//! arithmetic error variant.

use amm_core::arith::{checked_add, checked_div, checked_mul, checked_sub, mul_div_ceil, mul_div_floor};
use amm_core::error::AmmError;

#[test]
fn add_exact_and_overflow() {
    assert_eq!(checked_add(2, 3), Ok(5));
    assert_eq!(checked_add(u128::MAX - 1, 1), Ok(u128::MAX));
    assert_eq!(checked_add(u128::MAX, 1), Err(AmmError::ArithmeticOverflow));
}

#[test]
fn sub_exact_and_underflow() {
    assert_eq!(checked_sub(5, 3), Ok(2));
    assert_eq!(checked_sub(5, 5), Ok(0));
    assert_eq!(checked_sub(0, 1), Err(AmmError::ArithmeticUnderflow));
}

#[test]
fn mul_exact_and_overflow() {
    assert_eq!(checked_mul(6, 7), Ok(42));
    assert_eq!(checked_mul(0, u128::MAX), Ok(0));
    assert_eq!(checked_mul(1 << 64, 1 << 64), Err(AmmError::ArithmeticOverflow));
}

#[test]
fn div_floors_and_rejects_zero() {
    assert_eq!(checked_div(7, 2), Ok(3));
    assert_eq!(checked_div(0, 9), Ok(0));
    assert_eq!(checked_div(7, 0), Err(AmmError::DivisionByZero));
}

#[test]
fn mul_div_floor_exact() {
    // floor(7 * 3 / 4) = floor(5.25) = 5
    assert_eq!(mul_div_floor(7, 3, 4), Ok(5));
    assert_eq!(mul_div_floor(8, 3, 4), Ok(6));
    assert_eq!(mul_div_floor(1, 1, 0), Err(AmmError::DivisionByZero));
    assert_eq!(mul_div_floor(u128::MAX, 2, 2), Err(AmmError::ArithmeticOverflow));
}

#[test]
fn mul_div_ceil_exact() {
    // ceil(7 * 3 / 4) = ceil(5.25) = 6; an exact quotient is not rounded up.
    assert_eq!(mul_div_ceil(7, 3, 4), Ok(6));
    assert_eq!(mul_div_ceil(8, 3, 4), Ok(6));
    assert_eq!(mul_div_ceil(1, 1, 0), Err(AmmError::DivisionByZero));
    assert_eq!(mul_div_ceil(u128::MAX, 2, 2), Err(AmmError::ArithmeticOverflow));
}
