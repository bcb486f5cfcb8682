use grug::{Dec128, Int, MathError, PrimaryKey, StdError, Udec128};
use std::str::FromStr;

fn udec_reason(input: &str) -> String {
    match Udec128::from_str(input) {
        Err(MathError::ParseNumber { input: i, reason }) => {
            assert_eq!(i, input);
            reason
        },
        other => panic!("unexpected {other:?}"),
    }
}

fn dec_reason(input: &str) -> String {
    match Dec128::from_str(input) {
        Err(MathError::ParseNumber { input: i, reason }) => {
            assert_eq!(i, input);
            reason
        },
        other => panic!("unexpected {other:?}"),
    }
}

fn key_reason<T: PrimaryKey>(bytes: &[u8]) -> String {
    match T::from_slice(bytes) {
        Err(StdError::Deserialize { what, reason }) => {
            assert_eq!(what, "key");
            reason
        },
        Ok(_) => panic!("bytes {bytes:?} were accepted"),
    }
}

#[test]
fn decimal_refusals_name_the_failing_part() {
    assert_eq!(udec_reason("abc.5"), "error parsing whole");
    assert_eq!(udec_reason("1000000000000000000000"), "value too big");
    assert_eq!(udec_reason("1.x"), "error parsing fractional");
    assert_eq!(dec_reason("1.-5"), "fractional part cannot be negative");
    assert_eq!(
        udec_reason("1.1234567890123456789"),
        "cannot parse more than 1000000000000000000 fractional digits"
    );
    assert_eq!(udec_reason("340282366920938463463.9"), "Value too big");
    assert_eq!(udec_reason("1.2.3"), "Unexpected number of dots");
}

#[test]
fn integer_refusals_follow_the_standard_parser() {
    let reason = |input: &str| match Int::<i64>::from_str(input) {
        Err(MathError::ParseNumber { reason, .. }) => reason,
        other => panic!("unexpected {other:?}"),
    };
    assert_eq!(reason(""), "cannot parse integer from empty string");
    assert_eq!(reason("+"), "invalid digit found in string");
    assert_eq!(reason("-1x"), "invalid digit found in string");
    assert_eq!(reason("-9223372036854775809"), "number too small to fit in target type");
    assert_eq!(reason("9223372036854775808"), "number too large to fit in target type");
}

#[test]
fn key_refusals_give_their_reason() {
    assert_eq!(key_reason::<()>(&[1]), "expecting empty bytes");
    assert_eq!(key_reason::<bool>(&[]), "unknown bytes `[]` for boolean key, expecting 0 or 1");
    assert_eq!(
        key_reason::<bool>(&[7, 200, 15]),
        "unknown bytes `[7, 200, 15]` for boolean key, expecting 0 or 1"
    );
    assert_eq!(key_reason::<u128>(&[0; 17]), "wrong number of bytes: expecting 16, got 17");
    assert_eq!(key_reason::<i16>(&[]), "wrong number of bytes: expecting 2, got 0");
}
