use humidefi::errors::Error;
use humidefi::fixed::{Fixed, SCALE};
use humidefi::wide::{wide_div, wide_isqrt, wide_mul};

#[test]
fn fixed_add_exact() {
    let a = Fixed::from_inner(3 * SCALE);
    let b = Fixed::from_inner(4 * SCALE);
    assert_eq!(a.checked_add(b), Ok(Fixed::from_inner(7 * SCALE)));
}

#[test]
fn fixed_add_overflow() {
    let a = Fixed::from_inner(u128::MAX);
    let b = Fixed::from_inner(1);
    assert_eq!(a.checked_add(b), Err(Error::ArithmeticOverflow));
}

#[test]
fn fixed_sub_exact() {
    let a = Fixed::from_inner(7 * SCALE);
    let b = Fixed::from_inner(4 * SCALE);
    assert_eq!(a.checked_sub(b), Ok(Fixed::from_inner(3 * SCALE)));
}

#[test]
fn fixed_sub_underflow() {
    let a = Fixed::from_inner(0);
    let b = Fixed::from_inner(1);
    assert_eq!(a.checked_sub(b), Err(Error::ArithmeticUnderflow));
}

#[test]
fn fixed_mul_exact() {
    let a = Fixed::from_inner(3 * SCALE);
    let b = Fixed::from_inner(2 * SCALE);
    assert_eq!(a.checked_mul(b), Ok(Fixed::from_inner(6 * SCALE)));
}

#[test]
fn fixed_mul_rounds_down_to_inner_unit() {
    // One inner unit squared is far below one inner unit: the product
    // rounds down to zero.
    let a = Fixed::from_inner(1);
    assert_eq!(a.checked_mul(a), Ok(Fixed::from_inner(0)));
}

#[test]
fn fixed_mul_overflow() {
    let a = Fixed::from_inner(u128::MAX);
    let b = Fixed::from_inner(2 * SCALE);
    assert_eq!(a.checked_mul(b), Err(Error::ArithmeticOverflow));
}

#[test]
fn fixed_div_exact_third() {
    let a = Fixed::from_inner(SCALE);
    let b = Fixed::from_inner(3 * SCALE);
    assert_eq!(a.checked_div(b), Ok(Fixed::from_inner(333_333_333_333_333_333)));
}

#[test]
fn fixed_div_by_zero() {
    let a = Fixed::from_inner(5);
    assert_eq!(a.checked_div(Fixed::from_inner(0)), Err(Error::DivisionByZero));
}

#[test]
fn fixed_div_overflow() {
    let a = Fixed::from_inner(u128::MAX);
    let b = Fixed::from_inner(1);
    assert_eq!(a.checked_div(b), Err(Error::ArithmeticOverflow));
}

#[test]
fn fixed_sqrt_perfect_square() {
    let a = Fixed::from_inner(4 * SCALE);
    assert_eq!(a.sqrt(), Fixed::from_inner(2 * SCALE));
}

#[test]
fn fixed_sqrt_of_two_floors() {
    let a = Fixed::from_inner(2 * SCALE);
    assert_eq!(a.sqrt(), Fixed::from_inner(1_414_213_562_373_095_048));
}

#[test]
fn fixed_inner_round_trip() {
    let a = Fixed::from_inner(123_456_789);
    assert_eq!(a.into_inner(), 123_456_789);
    assert!(Fixed::from_inner(0).is_zero());
    assert!(!a.is_zero());
}

#[test]
fn wide_mul_splits_product() {
    // 2^100 * 2^50 == 2^150: high half 2^22, low half 0.
    let (hi, lo) = wide_mul(1u128 << 100, 1u128 << 50);
    assert_eq!(hi, 1u128 << 22);
    assert_eq!(lo, 0);
}

#[test]
fn wide_div_inverts_mul() {
    let x: u128 = 987_654_321_987_654_321_987_654_321;
    let y: u128 = 123_456_789_123_456_789;
    let (hi, lo) = wide_mul(x, y);
    assert_eq!(wide_div(hi, lo, y), Some(x));
}

#[test]
fn wide_div_detects_overflow() {
    // 2^128 * 7 divided by 7 is 2^128, one past the largest quotient.
    assert_eq!(wide_div(7, 0, 7), None);
    assert_eq!(wide_div(6, u128::MAX, 7), Some(u128::MAX));
}

#[test]
fn wide_isqrt_exact_and_floor() {
    let (hi, lo) = wide_mul(123_456_789_000_000_000_000, 123_456_789_000_000_000_000);
    assert_eq!(wide_isqrt(hi, lo), 123_456_789_000_000_000_000);
    // One below the perfect square roots to one less.
    assert_eq!(wide_isqrt(0, 24), 4);
    assert_eq!(wide_isqrt(0, 25), 5);
}
