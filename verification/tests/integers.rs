use grug::{
    Int, Int128, Int64, Integer, IsZero, MathError, NextNumber, Number, NumberConst, PrevNumber,
    Sign, Signed, Uint128, Uint256, Uint64, Unsigned, U256,
};
use std::str::FromStr;

#[test]
fn integers_read_and_write_text() {
    assert_eq!(Uint128::from_str("123").unwrap(), Int(123));
    assert_eq!(Uint128::from_str("+7").unwrap(), Int(7));
    assert_eq!(Int128::from_str("-42").unwrap(), Int(-42));
    assert_eq!(Int64::from_str("-9223372036854775808").unwrap(), Int(i64::MIN));
    assert_eq!(Uint128::from_str("340282366920938463463374607431768211455").unwrap(), Uint128::MAX());
    for (input, reason) in [
        ("", "cannot parse integer from empty string"),
        ("12a", "invalid digit found in string"),
        ("-", "invalid digit found in string"),
        ("-1", "invalid digit found in string"),
        ("18446744073709551616", "number too large to fit in target type"),
    ] {
        match Uint64::from_str(input) {
            Err(MathError::ParseNumber { reason: r, input: i }) => {
                assert_eq!(r, reason);
                assert_eq!(i, input);
            },
            other => panic!("unexpected {other:?} for {input}"),
        }
    }
    match Int64::from_str("-9223372036854775809") {
        Err(MathError::ParseNumber { reason, .. }) => {
            assert_eq!(reason, "number too small to fit in target type");
        },
        other => panic!("unexpected {other:?}"),
    }
    assert_eq!(Int(-12i128).to_text(), "-12");
    assert_eq!(Int(0u64).to_text(), "0");
    assert_eq!(Uint128::MAX().to_text(), "340282366920938463463374607431768211455");
}

#[test]
fn checked_integer_arithmetic() {
    assert_eq!(Int(5u64).checked_add(Int(6)).unwrap(), Int(11));
    assert!(matches!(Uint64::MAX().checked_add(Int(1)), Err(MathError::OverflowAdd { .. })));
    assert!(matches!(Int(1u128).checked_sub(Int(2)), Err(MathError::OverflowSub { .. })));
    assert!(matches!(Int(1u128).checked_div(Int(0)), Err(MathError::DivisionByZero { .. })));
    assert_eq!(Int(-7i64).checked_div(Int(2)).unwrap(), Int(-3));
    assert_eq!(Int(-7i64).checked_rem(Int(2)).unwrap(), Int(-1));
    assert_eq!(Int(3u64).checked_pow(4).unwrap(), Int(81));
    assert_eq!(Int(99u128).checked_sqrt().unwrap(), Int(9));
    assert_eq!(Int(100u128).checked_sqrt().unwrap(), Int(10));
    assert_eq!(Int(2u64).saturating_pow(64), Uint64::MAX());
    assert_eq!(Int(-2i64).saturating_pow(63), Int64::MIN());
    assert_eq!(Int(1000u64).checked_ilog10().unwrap(), 3);
    assert!(matches!(Int(0u64).checked_ilog2(), Err(MathError::ZeroLog)));
    assert!(matches!(Int(1u64).checked_shl(64), Err(MathError::OverflowShl { .. })));
    assert_eq!(Int(250u64).wrapping_add(Int(u64::MAX)), Int(249));
    assert!(Int(0i64).is_zero());
    assert!(Int(-3i64).is_negative());
    assert_eq!(Int(-3i64).checked_abs().unwrap(), Int(3));
    assert!(matches!(Int(i128::MIN).checked_neg(), Err(MathError::OverflowNegation { .. })));
    assert!(matches!(Int(1u128).checked_neg(), Err(MathError::InvalidNegation)));
}

#[test]
fn word_size_conversions() {
    let x = Int(u64::MAX);
    let wide = x.into_next();
    assert_eq!(wide, Int(u64::MAX as u128));
    assert_eq!(wide.checked_into_prev().unwrap(), x);
    assert!(matches!(Int(u128::MAX).checked_into_prev(), Err(MathError::OverflowConversion { .. })));
    let big = Int(u128::MAX).into_next();
    assert_eq!(big.checked_into_prev().unwrap(), Int(u128::MAX));
    let product = Int(u128::MAX).checked_full_mul(Int(2)).unwrap();
    assert!(matches!(product.checked_into_prev(), Err(MathError::OverflowConversion { .. })));
    let _: Uint256 = Int(U256::from_u128(1));
}

#[test]
fn signedness_conversions() {
    assert_eq!(Int(5i64).checked_into_unsigned().unwrap(), Int(5u64));
    assert!(matches!(Int(-5i128).checked_into_unsigned(), Err(MathError::OverflowConversion { .. })));
    assert_eq!(Int(5u128).checked_into_signed().unwrap(), Int(5i128));
    assert!(matches!(Uint128::MAX().checked_into_signed(), Err(MathError::OverflowConversion { .. })));
}

#[test]
fn error_constructors_build_their_variants() {
    assert!(matches!(MathError::negative_mul(1u64, -2i64), MathError::NegativeMul { .. }));
    assert!(matches!(MathError::negative_div(1u64, -2i64), MathError::NegativeDiv { .. }));
    assert!(matches!(MathError::remainder_by_zero(3u64), MathError::RemainderByZero { .. }));
    assert!(matches!(MathError::negative_sqrt(-4i64), MathError::NegativeSqrt { .. }));
    assert!(matches!(MathError::overflow_shr(1u64, 70), MathError::OverflowShr { b: 70, .. }));
    assert!(matches!(Int(1u128).checked_shr(128), Err(MathError::OverflowShr { .. })));
    assert!(matches!(MathError::zero_log(), MathError::ZeroLog));
    match MathError::overflow_add(1u64, 2u64) {
        MathError::OverflowAdd { a, b } => assert_eq!((a.as_str(), b.as_str()), ("1", "2")),
        other => panic!("unexpected {other:?}"),
    }
}

#[test]
fn wrapped_integers_compare_by_value() {
    assert!(Int::new(10u128) < Int::new(200u128));
    assert!(Int::new(-200i128) < Int::new(-10i128));
    assert!(Int::new(-10i128) > Int::new(-200i128));
    assert!(Int::new(5i64) == Int::new(5i64));
    assert!(Int::new(U256::from_u128(10)) < Int::new(U256::from_u128(200)));
    assert!(Uint128::MAX() > Uint128::ZERO());
    let mut values = vec![Int::new(3i128), Int::new(-7), Int::new(0)];
    values.sort();
    assert_eq!(values, vec![Int::new(-7i128), Int::new(0), Int::new(3)]);
}
