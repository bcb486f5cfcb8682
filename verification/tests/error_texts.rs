use grug::{
    Dec, Dec128, Int, MathError, Number, NumberConst, Udec128, Udec256, Uint128, Uint256, U256,
};

const U128_MAX_TEXT: &str = "340282366920938463463374607431768211455";

#[test]
fn addition_overflow_keeps_the_operands() {
    let err = Uint128::MAX().checked_add(Uint128::ONE()).unwrap_err();
    match &err {
        MathError::OverflowAdd { a, b } => {
            assert_eq!(a, U128_MAX_TEXT);
            assert_eq!(b, "1");
        },
        other => panic!("unexpected {other:?}"),
    }
    assert_eq!(err.message(), format!("addition overflow: {U128_MAX_TEXT} + 1"));
}

#[test]
fn multiplication_overflow_keeps_the_operands() {
    let err = Uint128::MAX().checked_mul(Uint128::new(2)).unwrap_err();
    match &err {
        MathError::OverflowMul { a, b } => {
            assert_eq!(a, U128_MAX_TEXT);
            assert_eq!(b, "2");
        },
        other => panic!("unexpected {other:?}"),
    }
    assert!(err.message().contains("multiplication overflow"));
}

#[test]
fn division_by_zero_keeps_the_dividend() {
    let err = Uint128::ONE().checked_div(Uint128::ZERO()).unwrap_err();
    assert_eq!(err, MathError::DivisionByZero { a: "1".to_string() });
    assert_eq!(err.message(), "division by zero: 1 / 0");
}

#[test]
fn decimal_errors_carry_decimal_text() {
    match Udec128::MAX().checked_mul(Udec128::new(2)) {
        Err(MathError::OverflowMul { a, b }) => {
            assert_eq!(a, "340282366920938463463.374607431768211455");
            assert_eq!(b, "2");
        },
        other => panic!("unexpected {other:?}"),
    }
    // The power reports the base and exponent left at the failing step.
    match Udec128::new(10).checked_pow(30) {
        Err(MathError::OverflowPow { a, b }) => {
            assert_eq!(a, "10000000000000000");
            assert_eq!(b, "1");
        },
        other => panic!("unexpected {other:?}"),
    }
    match Udec128::new(10_000_000_000).checked_pow(4) {
        Err(MathError::OverflowPow { a, b }) => {
            assert_eq!(a, "100000000000000000000");
            assert_eq!(b, "2");
        },
        other => panic!("unexpected {other:?}"),
    }
    match Dec128::new_percent(-150).checked_mul(Dec128::MAX()) {
        Err(MathError::OverflowMul { a, .. }) => assert_eq!(a, "-1.5"),
        other => panic!("unexpected {other:?}"),
    }
    match Udec256::MAX().checked_mul(Udec256::new(3)) {
        Err(MathError::OverflowMul { b, .. }) => assert_eq!(b, "3"),
        other => panic!("unexpected {other:?}"),
    }
}

#[test]
fn conversion_overflow_keeps_the_integer() {
    match Uint128::MAX().checked_into_dec::<18>() {
        Err(MathError::OverflowConversion { value }) => assert_eq!(value, U128_MAX_TEXT),
        other => panic!("unexpected {other:?}"),
    }
    let big = Int(U256::from_u128(u128::MAX)).checked_pow(2).unwrap();
    match big.checked_into_dec::<18>() {
        Err(MathError::OverflowConversion { value }) => {
            assert_eq!(value, "115792089237316195423570985008687907852589419931798687112530834793049593217025")
        },
        other => panic!("unexpected {other:?}"),
    }
    let _: Uint256 = big;
}

#[test]
fn messages_name_the_failure() {
    assert_eq!(MathError::ZeroLog.message(), "logarithm of zero");
    assert_eq!(MathError::SqrtFailed.message(), "square root failed");
    assert_eq!(MathError::overflow_shl(1u64, 70).message(), "left shift overflow: 1 << 70");
    assert_eq!(MathError::overflow_pow(3u64, 50).message(), "power overflow: 3 ^ 50");
    assert_eq!(MathError::negative_sqrt(-4i64).message(), "square root of negative: sqrt(-4)");
    assert_eq!(
        MathError::parse_number::<Uint128>("x".to_string(), "invalid digit found in string".to_string()).message(),
        "failed to parse string `x`: invalid digit found in string"
    );
}

#[test]
fn negative_square_roots_keep_the_operand() {
    match grug::Int128::new(-4).checked_sqrt() {
        Err(MathError::NegativeSqrt { a }) => assert_eq!(a, "-4"),
        other => panic!("unexpected {other:?}"),
    }
    match Dec128::new_percent(-250).checked_sqrt() {
        Err(MathError::NegativeSqrt { a }) => assert_eq!(a, "-2.5"),
        other => panic!("unexpected {other:?}"),
    }
}

#[test]
fn scaling_errors_keep_their_operands() {
    // Ten to the 40th does not fit in 128 bits.
    match Dec::<u128, 40>::checked_from_atomics(Int(1u128), 0) {
        Err(MathError::OverflowPow { a, b }) => {
            assert_eq!(a, "10");
            assert_eq!(b, "40");
        },
        other => panic!("unexpected {other:?}"),
    }
    match Udec128::checked_from_atomics(Int(u128::MAX), 0) {
        Err(MathError::OverflowMul { a, b }) => {
            assert_eq!(a, U128_MAX_TEXT);
            assert_eq!(b, "1000000000000000000");
        },
        other => panic!("unexpected {other:?}"),
    }
    match Dec::<u128, 6>::raw(Int(u128::MAX)).conver_precision::<18>() {
        Err(MathError::OverflowMul { a, b }) => {
            assert_eq!(a, U128_MAX_TEXT);
            assert_eq!(b, "1000000000000");
        },
        other => panic!("unexpected {other:?}"),
    }
}
