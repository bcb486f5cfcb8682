use grug::{
    Dec, Dec128, Decimal, FixedPoint, Fraction, Int, MathError, MultiplyFraction, MultiplyRatio,
    Number, NumberConst, ParseFailure, Udec128, Udec128_24, Udec128_6, Uint128,
};
use std::str::FromStr;

fn udec(s: &str) -> Udec128 {
    Udec128::from_str(s).unwrap()
}

fn sdec(s: &str) -> Dec128 {
    Dec128::from_str(s).unwrap()
}

#[test]
fn from_str_accepts_plain_decimals() {
    assert_eq!(udec("0"), Udec128::new(0));
    assert_eq!(udec("0.1"), Udec128::new_percent(10));
    assert_eq!(udec("0.01"), Udec128::new_percent(1));
    assert_eq!(udec("0.001"), Udec128::new_permille(1));
    assert_eq!(udec("10"), Udec128::new(10));
    assert_eq!(udec("10.1"), Udec128::new_percent(1010));
    assert_eq!(udec("10.01"), Udec128::new_percent(1001));
    assert_eq!(udec("10.0"), Udec128::new(10));
    assert_eq!(udec("010.00"), Udec128::new(10));
    assert_eq!(udec("0010.00"), Udec128::new(10));
    assert_eq!(udec("+10.123456789012345678"), udec("10.123456789012345678"));
    assert_eq!(udec("10.123456789012345678").0, Int(10_123_456_789_012_345_678));
}

#[test]
fn from_str_signed_values() {
    assert_eq!(sdec("-0"), Dec128::new(0));
    assert_eq!(sdec("-0.1"), Dec128::new_percent(-10));
    assert_eq!(sdec("-0.001"), Dec128::new_permille(-1));
    assert_eq!(sdec("-10.01"), Dec128::new_percent(-1001));
    assert_eq!(sdec("-0010.00"), Dec128::new(-10));
}

#[test]
fn from_str_refuses_malformed_text() {
    for input in [".10", "10.10.10", "10.1234567890123456789", "", "1x", "-1"] {
        assert!(Udec128::from_str(input).is_err(), "{input}");
    }
    for input in [".10", "10.10.10", "10.1234567890123456789", "-.10", "-10.-10", "10.1234-5678901234567"] {
        assert!(Dec128::from_str(input).is_err(), "{input}");
    }
    match Udec128::from_str("1.2.3") {
        Err(MathError::ParseNumber { input, reason }) => {
            assert_eq!(input, "1.2.3");
            assert_eq!(reason, "Unexpected number of dots");
        },
        other => panic!("unexpected {other:?}"),
    }
    match Udec128_6::from_str("1.1234567") {
        Err(MathError::ParseNumber { reason, .. }) => {
            assert_eq!(reason, "cannot parse more than 1000000 fractional digits");
        },
        other => panic!("unexpected {other:?}"),
    }
}

#[test]
fn parse_failures_name_their_cause() {
    assert_eq!(grug::parse_udec(b".5", 18), Err(ParseFailure::Whole));
    assert_eq!(grug::parse_udec(b"340282366920938463463374607431768211455", 18), Err(ParseFailure::TooBig));
    assert_eq!(grug::parse_udec(b"1.x", 18), Err(ParseFailure::Fractional));
    assert_eq!(grug::parse_dec(b"1.-5", 18), Err(ParseFailure::NegativeFractional));
    assert_eq!(grug::parse_udec(b"1.1234567", 6), Err(ParseFailure::TooManyDigits));
    assert_eq!(grug::parse_udec(b"340282366920938463463.374607431768211456", 18), Err(ParseFailure::Overflow));
    assert_eq!(grug::parse_udec(b"1.2.3", 18), Err(ParseFailure::Dots));
    assert_eq!(grug::parse_dec(b"-1.5", 1), Ok(-15));
}

#[test]
fn display_writes_back_the_text() {
    for text in ["10", "10.1", "10.01", "10.001", "0.1", "0.01", "0.001", "0"] {
        assert_eq!(udec(text).to_text(), text);
        assert_eq!(sdec(text).to_text(), text);
    }
    for text in ["-10", "-10.1", "-10.01", "-10.001", "-0.1", "-0.01", "-0.001"] {
        assert_eq!(sdec(text).to_text(), text);
    }
    assert_eq!(Udec128::raw(Int(100)).to_text(), "0.0000000000000001");
}

#[test]
fn raw_and_new_agree_with_text() {
    assert_eq!(Udec128::raw(Uint128::new(100)), udec("0.000000000000000100"));
    assert_eq!(Udec128::new(100), udec("100.0"));
    assert_eq!(Udec128::new_bps(25), udec("0.0025"));
    assert_eq!(Udec128::DECIMAL_PLACES(), 18);
    assert_eq!(Udec128::PRECISION(), Int(1_000_000_000_000_000_000));
    assert_eq!(Udec128::TICK(), Udec128::raw(Int(1)));
    assert_eq!(Udec128::TEN(), Udec128::new(10));
}

#[test]
fn arithmetic_on_decimals() {
    assert_eq!(udec("2.5").checked_mul(udec("2")).unwrap(), udec("5"));
    assert_eq!(udec("10").checked_div(udec("4")).unwrap(), udec("2.5"));
    assert!(matches!(udec("1").checked_div(Udec128::ZERO()), Err(MathError::DivisionByZero { .. })));
    assert_eq!(udec("10").checked_pow(2).unwrap(), udec("100"));
    assert_eq!(udec("2.5").checked_pow(2).unwrap(), udec("6.25"));
    assert_eq!(udec("123.123").checked_pow(3).unwrap(), udec("1866455.185461867"));
    assert!(matches!(Udec128::MAX().checked_pow(2), Err(MathError::OverflowPow { .. })));
    assert_eq!(udec("100").checked_sqrt().unwrap(), udec("10"));
    assert_eq!(udec("2").checked_sqrt().unwrap(), udec("1.414213562373095048"));
    assert_eq!(udec("4.84").checked_sqrt().unwrap(), udec("2.2"));
    assert!(matches!(sdec("-4").checked_sqrt(), Err(MathError::NegativeSqrt { .. })));
    assert_eq!(udec("28").checked_rem(udec("2.5")).unwrap(), udec("0.5"));
    assert_eq!(udec("0.3").checked_rem(udec("2.5")).unwrap(), udec("0.3"));
    assert!(matches!(Udec128::MAX().checked_mul(udec("2")), Err(MathError::OverflowMul { .. })));
    assert_eq!(Udec128::MAX().saturating_mul(udec("2")), Udec128::MAX());
    assert_eq!(sdec("-2").saturating_pow(127), Dec128::MIN());
    assert_eq!(Udec128::MAX().saturating_add(udec("1")), Udec128::MAX());
    assert!(matches!(udec("1").checked_sub(udec("2")), Err(MathError::OverflowSub { .. })));
}

#[test]
fn floor_and_ceil() {
    assert_eq!(Udec128::new_percent(101).checked_floor().unwrap(), Udec128::new(1));
    assert_eq!(Udec128::new_percent(199).checked_floor().unwrap(), Udec128::new(1));
    assert_eq!(Dec128::new_percent(-101).checked_floor().unwrap(), Dec128::new(-2));
    assert_eq!(Dec128::new_percent(-99).checked_floor().unwrap(), Dec128::new(-1));
    assert!(matches!(Dec128::MIN().checked_floor(), Err(MathError::OverflowSub { .. })));
    assert_eq!(Udec128::new_percent(101).checked_ceil().unwrap(), Udec128::new(2));
    assert_eq!(Dec128::new_percent(-199).checked_ceil().unwrap(), Dec128::new(-1));
    assert!(matches!(Udec128::MAX().checked_ceil(), Err(MathError::OverflowAdd { .. })));
}

#[test]
fn conversions_between_integers_and_decimals() {
    assert_eq!(Int(10u128).checked_into_dec::<18>().unwrap(), Udec128::new(10));
    assert!(matches!(
        Int(u128::MAX / 1_000_000_000_000_000_000 + 1).checked_into_dec::<18>(),
        Err(MathError::OverflowConversion { .. })
    ));
    assert_eq!(udec("2.5").into_int(), Int(2));
    assert_eq!(sdec("-2.5").into_int(), Int(-2));
    assert_eq!(sdec("-2.5").into_int_floor(), Int(-3));
    assert_eq!(sdec("-2.5").into_int_ceil(), Int(-2));
    assert_eq!(udec("2.5").into_int_ceil(), Int(3));
    assert_eq!(udec("2").into_int_ceil(), Int(2));
    assert_eq!(Udec128::checked_from_atomics(Int(12345), 2).unwrap(), udec("123.45"));
    assert_eq!(Udec128::checked_from_atomics(Int(12345), 20).unwrap(), udec("0.000000000000000123"));
    assert_eq!(Udec128::checked_from_atomics(Int(12345), 60).unwrap(), Udec128::ZERO());
    assert!(matches!(Udec128_24::checked_from_atomics(Int(1), 0).map(|d| d.to_text()), Ok(_)));
    assert!(matches!(
        Udec128::checked_from_atomics(Int(u128::MAX), 0),
        Err(MathError::OverflowMul { .. })
    ));
    let up = udec("1.5").conver_precision::<24>().unwrap();
    assert_eq!(up, Udec128_24::from_str("1.5").unwrap());
    assert_eq!(up.conver_precision::<18>().unwrap(), udec("1.5"));
    assert_eq!(udec("1.5").conver_precision::<18>().unwrap(), udec("1.5"));
    assert!(matches!(
        Dec::<u128, 0>::raw(Int(1)).conver_precision::<39>(),
        Err(MathError::OverflowPow { .. })
    ));
}

#[test]
fn ratios_round_as_documented() {
    let five = Int(5i128);
    let three = Int(3i128);
    let two = Int(2i128);
    assert_eq!(five.checked_multiply_ratio(three, two).unwrap(), Int(7));
    assert_eq!(five.checked_multiply_ratio_floor(three, two).unwrap(), Int(7));
    assert_eq!(five.checked_multiply_ratio_ceil(three, two).unwrap(), Int(8));
    let minus_five = Int(-5i128);
    assert_eq!(minus_five.checked_multiply_ratio(three, two).unwrap(), Int(-7));
    assert_eq!(minus_five.checked_multiply_ratio_floor(three, two).unwrap(), Int(-8));
    assert_eq!(minus_five.checked_multiply_ratio_ceil(three, two).unwrap(), Int(-7));
    assert!(matches!(five.checked_multiply_ratio(three, Int(0)), Err(MathError::DivisionByZero { .. })));
    assert_eq!(Udec128::checked_from_ratio(Int(1), Int(3)).unwrap().to_text(), "0.333333333333333333");
    assert_eq!(Udec128::checked_from_ratio_ceil(Int(1), Int(3)).unwrap().to_text(), "0.333333333333333334");
    assert_eq!(Udec128::checked_from_ratio_floor(Int(2), Int(3)).unwrap().to_text(), "0.666666666666666666");
}

#[test]
fn fractions_multiply_integers() {
    assert_eq!(Int(10u128).checked_mul_dec(Udec128::new(2)).unwrap(), Int(20));
    assert_eq!(Int(10u128).checked_mul_dec(Udec128::new_percent(150)).unwrap(), Int(15));
    assert_eq!(Int(11u128).checked_mul_dec(Udec128::new_percent(50)).unwrap(), Int(5));
    assert_eq!(Int(9u128).checked_mul_dec(Udec128::new_percent(50)).unwrap(), Int(4));
    assert_eq!(Int(9u128).checked_mul_dec_ceil(Udec128::new_percent(50)).unwrap(), Int(5));
    assert_eq!(Int(10u128).checked_div_dec(Udec128::new(4)).unwrap(), Int(2));
    assert_eq!(Int(10u128).checked_div_dec_ceil(Udec128::new(4)).unwrap(), Int(3));
    assert!(matches!(Int(10u128).checked_div_dec(Udec128::ZERO()), Err(MathError::DivisionByZero { .. })));
    assert_eq!(udec("1.5").checked_mul_dec_floor(udec("1.5")).unwrap(), udec("2.25"));
    assert_eq!(udec("1").checked_div_dec_floor(udec("3")).unwrap().to_text(), "0.333333333333333333");
    assert_eq!(udec("4").checked_inv().unwrap(), udec("0.25"));
    assert!(matches!(Udec128::ZERO().checked_inv(), Err(MathError::DivisionByZero { .. })));
    assert_eq!(udec("2.5").numerator(), Int(2_500_000_000_000_000_000));
    assert_eq!(Udec128::denominator(), Int(1_000_000_000_000_000_000));
}

#[test]
fn scaling_up_and_down_gives_the_value_back() {
    // One whole unit is the multiplicative identity.
    let x = udec("123.456");
    assert_eq!(x.checked_mul(Udec128::ONE()).unwrap(), x);
    assert_eq!(x.conver_precision::<24>().unwrap().conver_precision::<18>().unwrap(), x);
    assert_eq!(Int(77u128).checked_into_dec::<18>().unwrap().into_int(), Int(77));
}

#[test]
fn floor_and_ceil_enclose_the_value() {
    let x = sdec("-3.75");
    let f = x.checked_floor().unwrap();
    let c = x.checked_ceil().unwrap();
    assert!(f.0 .0 <= x.0 .0 && x.0 .0 <= c.0 .0);
    assert_eq!(c.0 .0 - f.0 .0, Dec128::ONE().0 .0);
}

#[test]
fn text_of_least_whole_decimal_reads_back() {
    let least = Dec::<i128, 0>::raw(Int(i128::MIN));
    let text = least.to_text();
    assert_eq!(text, "-170141183460469231731687303715884105728");
    assert_eq!(Dec::<i128, 0>::from_text(&text).unwrap(), least);
}

#[test]
fn text_reads_back_as_the_same_decimal() {
    for raw in [0i128, 1, -1, 5, -5, 1_000_000_000_000_000_000, -1_500_000_000_000_000_000, i128::MAX, i128::MIN] {
        let d = Dec128::raw(Int(raw));
        assert_eq!(Dec128::from_text(&d.to_text()).unwrap(), d);
    }
    for raw in [0u128, 7, 1_000_000, u128::MAX] {
        let d = Udec128_6::raw(Int(raw));
        assert_eq!(Udec128_6::from_text(&d.to_text()).unwrap(), d);
    }
}
