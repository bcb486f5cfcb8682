use grug::{FixedPoint, Number, NumberConst, Udec128, Udec128_6};
use std::str::FromStr;

#[test]
fn convert_precision() {
    let dec_18 = Udec128::from_str("123.123456789012345678").unwrap();
    let dec_6 = dec_18.conver_precision::<6>().unwrap();
    assert_eq!(dec_6, Udec128_6::from_str("123.123456").unwrap());

    // Try at max
    let dec_18 = Udec128::MAX();
    dec_18.checked_add(Udec128::TICK()).unwrap_err();
    let dec_6 = dec_18.conver_precision::<6>().unwrap();
    dec_6.checked_add(Udec128_6::TICK()).unwrap();
}

#[test]
fn raising_precision_and_lowering_it_gives_the_decimal_back() {
    let d = grug::Dec::<u128, 6>::raw(grug::Int(123_456_789));
    let up = d.conver_precision::<18>().unwrap();
    assert_eq!(up.0, grug::Int(123_456_789_000_000_000_000));
    assert_eq!(up.conver_precision::<6>().unwrap(), d);
    let s = grug::Dec::<i128, 6>::raw(grug::Int(-42));
    assert_eq!(s.conver_precision::<18>().unwrap().conver_precision::<6>().unwrap(), s);
}

#[test]
fn integers_made_decimal_come_back_whole() {
    for x in [0i128, 7, -7, 1_000_000] {
        let d = grug::Int(x).checked_into_dec::<18>().unwrap();
        assert_eq!(d.into_int(), grug::Int(x));
        assert_eq!(d.into_int_floor(), grug::Int(x));
        assert_eq!(d.into_int_ceil(), grug::Int(x));
    }
}
