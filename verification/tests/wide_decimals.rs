use grug::{
    Dec128, Decimal, Fraction, MultiplyFraction, NextNumber, PrevNumber, Signed, Udec128, Unsigned,
    Dec256, FixedPoint, Int, Int256, Int512, IsZero, MathError, Number, NumberConst, Sign,
    Udec256, Uint256, Uint512, I256, U256,
};
use std::str::FromStr;

fn u(x: u128) -> Uint256 {
    Int(U256::from_u128(x))
}

fn i(x: i128) -> Int256 {
    Int(I256::from_i128(x))
}

#[test]
fn wide_constructors_from_128_bits() {
    assert_eq!(Uint256::new_from_u128(u128::MAX), Int(U256::from_u128(u128::MAX)));
    assert_eq!(Int256::new_from_i128(i128::MIN), Int(I256::from_i128(i128::MIN)));
    assert_eq!(Int256::new_from_i128(-1), Int(I256::from_i128(-1)));
    let big: Uint512 = Uint512::new_from_u128(7);
    let small: Int512 = Int512::new_from_i128(-7);
    assert_ne!(format!("{big:?}"), format!("{small:?}"));
    assert_eq!(Uint512::new_from_u128(0), Uint512::new_from_u128(0));
}

#[test]
fn udec256_constructors_scale_by_precision() {
    let e18 = 1_000_000_000_000_000_000u128;
    assert_eq!(Udec256::new(3).0, u(3 * e18));
    assert_eq!(Udec256::new_percent(250).0, u(25 * e18 / 10));
    assert_eq!(Udec256::new_permille(5).0, u(5 * e18 / 1000));
    assert_eq!(Udec256::new_bps(1).0, u(e18 / 10_000));
    assert_eq!(Udec256::PRECISION(), u(e18));
    assert_eq!(Udec256::ONE(), Udec256::new(1));
    assert_eq!(Udec256::TEN(), Udec256::new(10));
    assert!(Udec256::ZERO().is_zero());
    assert_eq!(Udec256::TICK().0, u(1));
    // A value of 2^128 - 1 whole units does not fit in 128 bits but does in 256.
    let wide = Udec256::new(u128::MAX);
    assert!(wide.0 .0.checked_into_u128().is_none());
}

#[test]
fn dec256_constructors_scale_by_precision() {
    let e18 = 1_000_000_000_000_000_000i128;
    assert_eq!(Dec256::new(-3).0, i(-3 * e18));
    assert_eq!(Dec256::new_percent(-150).0, i(-15 * e18 / 10));
    assert_eq!(Dec256::new_permille(-5).0, i(-5 * e18 / 1000));
    assert_eq!(Dec256::new_bps(-1).0, i(-e18 / 10_000));
    assert_eq!(Dec256::PRECISION(), i(e18));
    assert!(Dec256::new(-1).is_negative());
    assert!(Dec256::new(1).is_positive());
}

#[test]
fn udec256_from_ratio_rounds_as_asked() {
    assert_eq!(Udec256::checked_from_ratio(u(1), u(3)).unwrap().0, u(333_333_333_333_333_333));
    assert_eq!(Udec256::checked_from_ratio_floor(u(1), u(3)).unwrap().0, u(333_333_333_333_333_333));
    assert_eq!(Udec256::checked_from_ratio_ceil(u(1), u(3)).unwrap().0, u(333_333_333_333_333_334));
    assert_eq!(Udec256::checked_from_ratio(u(3), u(2)).unwrap(), Udec256::new_percent(150));
    assert!(matches!(Udec256::checked_from_ratio(u(1), u(0)), Err(MathError::DivisionByZero { .. })));
}

#[test]
fn dec256_from_ratio_rounds_as_asked() {
    assert_eq!(Dec256::checked_from_ratio(i(-1), i(3)).unwrap().0, i(-333_333_333_333_333_333));
    assert_eq!(Dec256::checked_from_ratio_floor(i(-1), i(3)).unwrap().0, i(-333_333_333_333_333_334));
    assert_eq!(Dec256::checked_from_ratio_ceil(i(-1), i(3)).unwrap().0, i(-333_333_333_333_333_333));
    assert!(matches!(Dec256::checked_from_ratio(i(1), i(0)), Err(MathError::DivisionByZero { .. })));
}

#[test]
fn udec256_arithmetic() {
    let a = Udec256::new_percent(150);
    let b = Udec256::new(2);
    assert_eq!(a.checked_add(b).unwrap(), Udec256::new_percent(350));
    assert_eq!(b.checked_sub(a).unwrap(), Udec256::new_percent(50));
    assert!(matches!(a.checked_sub(b), Err(MathError::OverflowSub { .. })));
    assert_eq!(a.checked_mul(b).unwrap(), Udec256::new(3));
    assert_eq!(a.checked_div(b).unwrap(), Udec256::new_percent(75));
    assert!(matches!(a.checked_div(Udec256::ZERO()), Err(MathError::DivisionByZero { .. })));
    assert_eq!(Udec256::new(7).checked_rem(b).unwrap(), Udec256::new(1));
    assert_eq!(a.checked_pow(2).unwrap(), Udec256::new_percent(225));
    assert_eq!(Udec256::new(4).checked_sqrt().unwrap(), Udec256::new(2));
    assert_eq!(Udec256::new_percent(225).checked_sqrt().unwrap(), a);
    assert_eq!(Udec256::MAX().saturating_add(b), Udec256::MAX());
    assert_eq!(a.saturating_sub(b), Udec256::ZERO());
    assert_eq!(Udec256::MAX().saturating_mul(b), Udec256::MAX());
    assert!(Udec256::MAX().checked_mul(b).is_err());
}

#[test]
fn dec256_arithmetic() {
    let a = Dec256::new_percent(-150);
    let b = Dec256::new(2);
    assert_eq!(a.checked_add(b).unwrap(), Dec256::new_percent(50));
    assert_eq!(a.checked_sub(b).unwrap(), Dec256::new_percent(-350));
    assert_eq!(a.checked_mul(b).unwrap(), Dec256::new(-3));
    assert_eq!(a.checked_div(b).unwrap(), Dec256::new_percent(-75));
    assert_eq!(a.checked_pow(3).unwrap(), Dec256::new_permille(-3375));
    assert_eq!(a.checked_abs().unwrap(), Dec256::new_percent(150));
    assert_eq!(a.checked_neg().unwrap(), Dec256::new_percent(150));
    assert!(a.checked_sqrt().is_err());
    assert_eq!(Dec256::new(9).checked_sqrt().unwrap(), Dec256::new(3));
    assert_eq!(Dec256::MIN().saturating_sub(b), Dec256::MIN());
    assert_eq!(Dec256::MIN().saturating_mul(b), Dec256::MIN());
    assert_eq!(Dec256::MAX().saturating_add(b), Dec256::MAX());
    assert!(Dec256::MIN().checked_abs().is_err());
}

#[test]
fn int_to_dec_wide() {
    assert_eq!(u(0).checked_into_dec::<18>().unwrap(), Udec256::ZERO());
    assert_eq!(u(10).checked_into_dec::<18>().unwrap(), Udec256::TEN());
    assert_eq!(i(-10).checked_into_dec::<18>().unwrap(), Dec256::new(-10));
    let max = Uint256::MAX();
    assert!(matches!(max.checked_into_dec::<18>(), Err(MathError::OverflowConversion { .. })));
    let min = Int256::MIN();
    assert!(matches!(min.checked_into_dec::<18>(), Err(MathError::OverflowConversion { .. })));
}

#[test]
fn dec_to_int_wide() {
    assert_eq!(Udec256::ZERO().into_int(), u(0));
    assert_eq!(Udec256::new_percent(101).into_int(), u(1));
    assert_eq!(Udec256::new_percent(199).into_int(), u(1));
    assert_eq!(Udec256::new(2).into_int(), u(2));
    assert_eq!(Udec256::new_percent(199).into_int_floor(), u(1));
    assert_eq!(Udec256::new_percent(101).into_int_ceil(), u(2));
    assert_eq!(Udec256::new(2).into_int_ceil(), u(2));
    assert_eq!(Dec256::new_percent(-101).into_int(), i(-1));
    assert_eq!(Dec256::new_percent(-199).into_int(), i(-1));
    assert_eq!(Dec256::new_percent(-101).into_int_floor(), i(-2));
    assert_eq!(Dec256::new_percent(-199).into_int_ceil(), i(-1));
    assert_eq!(Dec256::new_percent(101).into_int_ceil(), i(2));
    assert_eq!(Dec256::new(-2).into_int_floor(), i(-2));
}

#[test]
fn convert_precision_wide() {
    let d = Udec256::new_permille(123_456);
    let six = d.conver_precision::<6>().unwrap();
    assert_eq!(six.0, u(123_456_000));
    let back = six.conver_precision::<18>().unwrap();
    assert_eq!(back, d);
    let atoms = Udec256::checked_from_atomics(u(123_456), 3).unwrap();
    assert_eq!(atoms, d);
    let cut = Udec256::checked_from_atomics(u(1_234_567), 21).unwrap();
    assert_eq!(cut.0, u(1_234));
    let neg = Dec256::checked_from_atomics(i(-15), 1).unwrap();
    assert_eq!(neg, Dec256::new_percent(-150));
}

#[test]
fn wide_floor_ceil_and_fractions() {
    assert_eq!(Udec256::new_percent(150).checked_floor().unwrap(), Udec256::new(1));
    assert_eq!(Udec256::new_percent(150).checked_ceil().unwrap(), Udec256::new(2));
    assert_eq!(Dec256::new_percent(-150).checked_floor().unwrap(), Dec256::new(-2));
    assert_eq!(Dec256::new_percent(-150).checked_ceil().unwrap(), Dec256::new(-1));
    assert_eq!(Dec256::new(3).checked_floor().unwrap(), Dec256::new(3));
    assert!(Udec256::MAX().checked_ceil().is_err());
    assert_eq!(Udec256::new(4).checked_inv().unwrap(), Udec256::new_percent(25));
    assert_eq!(Udec256::denominator(), u(1_000_000_000_000_000_000));
    assert_eq!(Udec256::new(3).numerator(), u(3_000_000_000_000_000_000));
    assert!(Udec256::ZERO().checked_inv().is_err());
    let half = Udec256::new_percent(50);
    assert_eq!(u(7).checked_mul_dec(half).unwrap(), u(3));
    assert_eq!(u(7).checked_mul_dec_floor(half).unwrap(), u(3));
    assert_eq!(u(7).checked_mul_dec_ceil(half).unwrap(), u(4));
    assert_eq!(u(7).checked_div_dec(half).unwrap(), u(14));
    assert!(u(7).checked_div_dec(Udec256::ZERO()).is_err());
    let minus_half = Dec256::new_percent(-50);
    assert_eq!(i(7).checked_mul_dec(minus_half).unwrap(), i(-3));
    assert_eq!(i(7).checked_mul_dec_floor(minus_half).unwrap(), i(-4));
    assert_eq!(i(7).checked_mul_dec_ceil(minus_half).unwrap(), i(-3));
    assert_eq!(i(7).checked_div_dec_floor(Dec256::new(-2)).unwrap(), i(-4));
    assert_eq!(half.checked_mul_dec(half).unwrap(), Udec256::new_percent(25));
    assert_eq!(Udec256::new(1).checked_div_dec_ceil(Udec256::new(3)).unwrap().0, u(333_333_333_333_333_334));
}

#[test]
fn wide_sign_changes_and_widths() {
    assert_eq!(Dec256::new(5).checked_into_unsigned().unwrap(), Udec256::new(5));
    assert!(Dec256::new(-5).checked_into_unsigned().is_err());
    assert_eq!(Udec256::new(5).checked_into_signed().unwrap(), Dec256::new(5));
    assert!(Udec256::MAX().checked_into_signed().is_err());
    assert_eq!(Udec128::new(7).into_next(), Udec256::new(7));
    assert_eq!(Dec128::new(-7).into_next(), Dec256::new(-7));
    assert_eq!(Udec256::new(7).checked_into_prev().unwrap(), Udec128::new(7));
    assert!(Udec256::MAX().checked_into_prev().is_err());
    assert_eq!(Dec256::new(-7).checked_into_prev().unwrap(), Dec128::new(-7));
    let wide = Udec256::new(9).into_next();
    assert_eq!(wide.0.checked_into_prev().unwrap(), Udec256::new(9).0);
    let big: Int512 = Int512::new_from_i128(-3);
    assert!(big.checked_into_unsigned().is_err());
    let pos: Int512 = Int512::new_from_i128(3);
    assert_eq!(pos.checked_into_unsigned().unwrap(), Uint512::new_from_u128(3));
    assert_eq!(Uint512::new_from_u128(3).checked_into_signed().unwrap(), pos);
}

#[test]
fn wide_integer_text() {
    assert_eq!(Uint256::from_str("12345").unwrap(), u(12345));
    assert_eq!(Uint256::from_str("+7").unwrap(), u(7));
    assert!(Uint256::from_str("-7").is_err());
    assert!(Uint256::from_str("").is_err());
    assert!(Uint256::from_str("1a").is_err());
    let max = "115792089237316195423570985008687907853269984665640564039457584007913129639935";
    assert_eq!(Uint256::from_str(max).unwrap(), Uint256::MAX());
    assert_eq!(Uint256::MAX().to_text(), max);
    assert!(Uint256::from_str("115792089237316195423570985008687907853269984665640564039457584007913129639936").is_err());
    assert_eq!(Int256::from_str("-42").unwrap(), i(-42));
    assert_eq!(i(-42).to_text(), "-42");
    let min = "-57896044618658097711785492504343953926634992332820282019728792003956564819968";
    assert_eq!(Int256::from_str(min).unwrap(), Int256::MIN());
    assert_eq!(Int256::MIN().to_text(), min);
    match Int256::from_str("x") {
        Err(MathError::ParseNumber { input, .. }) => assert_eq!(input, "x"),
        other => panic!("unexpected {other:?}"),
    }
}

#[test]
fn wide_decimal_text() {
    assert_eq!(Udec256::from_str("1.5").unwrap(), Udec256::new_percent(150));
    assert_eq!(Udec256::from_str("0010.00").unwrap(), Udec256::new(10));
    assert_eq!(Udec256::from_str("0.000000000000000001").unwrap(), Udec256::TICK());
    assert!(Udec256::from_str(".5").is_err());
    assert!(Udec256::from_str("1.2.3").is_err());
    assert!(Udec256::from_str("1.1234567890123456789").is_err());
    assert!(Udec256::from_str("-1").is_err());
    assert_eq!(Dec256::from_str("-1.5").unwrap(), Dec256::new_percent(-150));
    assert_eq!(Dec256::from_str("-0.5").unwrap(), Dec256::new_percent(-50));
    assert!(Dec256::from_str("1.-5").is_err());
    match Udec256::from_str("1.2.3") {
        Err(MathError::ParseNumber { reason, .. }) => assert_eq!(reason, "Unexpected number of dots"),
        other => panic!("unexpected {other:?}"),
    }
    assert_eq!(Udec256::new_percent(150).to_text(), "1.5");
    assert_eq!(Udec256::new(100).to_text(), "100");
    assert_eq!(Udec256::TICK().to_text(), "0.000000000000000001");
    assert_eq!(Dec256::new_percent(-150).to_text(), "-1.5");
    assert_eq!(Dec256::new_percent(-50).to_text(), "-0.5");
    assert_eq!(Dec256::new(-3).to_text(), "-3");
    let big = Udec256::new(u128::MAX);
    assert_eq!(Udec256::from_str(&big.to_text()).unwrap(), big);
    assert_eq!(Udec256::MAX().to_text(), "115792089237316195423570985008687907853269984665640564039457.584007913129639935");
    assert_eq!(Dec256::MIN().to_text(), "-57896044618658097711785492504343953926634992332820282019728.792003956564819968");
    assert_eq!(Dec256::from_str(&Dec256::MIN().to_text()).unwrap(), Dec256::MIN());
}

#[test]
fn wide_values_compare_by_value() {
    assert!(u(1) < u(2));
    assert!(Uint256::MAX() > u(u128::MAX));
    assert!(i(-5) < i(3));
    assert!(Int256::MIN() < i(i128::MIN));
    assert!(Int256::MAX() > i(i128::MAX));
    assert!(Dec256::new(-2) < Dec256::new_percent(-150));
    assert!(Udec256::new_percent(150) < Udec256::new(2));
    let mut v = vec![u(9), u(1), Uint256::MAX(), u(4)];
    v.sort_by(|a, b| a.partial_cmp(b).unwrap());
    assert_eq!(v, vec![u(1), u(4), u(9), Uint256::MAX()]);
}
