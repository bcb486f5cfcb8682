use grug::{
    Dec128, Decimal, Fraction, Int, Int128, Integer, MathError, MultiplyFraction, MultiplyRatio, Number, NumberConst, Sign,
    Udec128, Udec256, Uint128, Uint256, U256,
};

#[test]
fn number_assign_forms_update_in_place() {
    let mut a: Uint128 = Int(5);
    a.checked_add_assign(Int(7)).unwrap();
    assert_eq!(a, Int(12));
    a.checked_sub_assign(Int(2)).unwrap();
    assert_eq!(a, Int(10));
    a.checked_mul_assign(Int(3)).unwrap();
    assert_eq!(a, Int(30));
    a.checked_div_assign(Int(4)).unwrap();
    assert_eq!(a, Int(7));
    a.checked_rem_assign(Int(4)).unwrap();
    assert_eq!(a, Int(3));
    a.checked_pow_assign(4).unwrap();
    assert_eq!(a, Int(81));
    a.checked_sqrt_assign().unwrap();
    assert_eq!(a, Int(9));
}

#[test]
fn failed_assign_leaves_the_value() {
    let mut a = Uint128::MAX();
    assert!(matches!(a.checked_add_assign(Int(1)), Err(MathError::OverflowAdd { .. })));
    assert_eq!(a, Uint128::MAX());
    let mut b: Int128 = Int(-4);
    assert!(matches!(b.checked_sqrt_assign(), Err(MathError::NegativeSqrt { .. })));
    assert_eq!(b, Int(-4));
    assert!(b.checked_div_assign(Int(0)).is_err());
    assert_eq!(b, Int(-4));
    let mut m = Int128::MIN();
    assert!(m.checked_abs_assign().is_err());
    assert_eq!(m, Int128::MIN());
}

#[test]
fn integer_and_sign_assign_forms() {
    let mut a: Int128 = Int(-5);
    a.checked_abs_assign().unwrap();
    assert_eq!(a, Int(5));
    a.checked_shl_assign(2).unwrap();
    assert_eq!(a, Int(20));
    a.checked_shr_assign(1).unwrap();
    assert_eq!(a, Int(10));
    assert!(a.checked_shl_assign(128).is_err());
    assert_eq!(a, Int(10));
    let mut w = Uint128::MAX();
    w.wrapping_add_assign(Int(2));
    assert_eq!(w, Int(1));
    w.wrapping_sub_assign(Int(2));
    assert_eq!(w, Uint128::MAX());
    w.wrapping_mul_assign(Int(2));
    assert_eq!(w, Int(u128::MAX - 1));
    let mut p: Uint128 = Int(2);
    p.wrapping_pow_assign(130);
    assert_eq!(p, Int(0));
}

#[test]
fn decimal_assign_forms() {
    let mut d = Dec128::new_percent(-150);
    d.checked_floor_assign().unwrap();
    assert_eq!(d, Dec128::new(-2));
    let mut c = Dec128::new_percent(-150);
    c.checked_ceil_assign().unwrap();
    assert_eq!(c, Dec128::new(-1));
    let mut f = Udec128::new(4);
    f.checked_inv_assign().unwrap();
    assert_eq!(f, Udec128::new_percent(25));
    let mut z = Udec128::ZERO();
    assert!(z.checked_inv_assign().is_err());
    assert_eq!(z, Udec128::ZERO());
    let mut wide = Udec256::new_percent(250);
    wide.checked_floor_assign().unwrap();
    assert_eq!(wide, Udec256::new(2));
}

#[test]
fn ratio_and_fraction_assign_forms() {
    let mut a: Uint128 = Int(7);
    a.checked_multiply_ratio_assign(Int(3), Int(2)).unwrap();
    assert_eq!(a, Int(10));
    a.checked_multiply_ratio_ceil_assign(Int(1), Int(3)).unwrap();
    assert_eq!(a, Int(4));
    a.checked_multiply_ratio_floor_assign(Int(5), Int(3)).unwrap();
    assert_eq!(a, Int(6));
    assert!(a.checked_multiply_ratio_assign(Int(1), Int(0)).is_err());
    assert_eq!(a, Int(6));
    let half = Udec128::new_percent(50);
    let mut b: Uint128 = Int(7);
    b.checked_mul_dec_assign(half).unwrap();
    assert_eq!(b, Int(3));
    b.checked_mul_dec_ceil_assign(half).unwrap();
    assert_eq!(b, Int(2));
    b.checked_div_dec_assign(half).unwrap();
    assert_eq!(b, Int(4));
    b.checked_div_dec_floor_assign(Udec128::new(3)).unwrap();
    assert_eq!(b, Int(1));
    b.checked_div_dec_ceil_assign(Udec128::new(3)).unwrap();
    assert_eq!(b, Int(1));
    b.checked_mul_dec_floor_assign(half).unwrap();
    assert_eq!(b, Int(0));
    let mut big: Uint256 = Int(U256::from_u128(9));
    big.checked_mul_dec_assign(Udec256::new_percent(50)).unwrap();
    assert_eq!(big, Int(U256::from_u128(4)));
}
