use grug::{Int, Int512, Integer, IsZero, MathError, Number, NumberConst, Sign, Uint512, I512, U512};

fn u(x: u128) -> Uint512 {
    Int(U512::from_u128(x))
}

fn i(x: i128) -> Int512 {
    Int(I512::from_i128(x))
}

#[test]
fn uint512_arithmetic() {
    let a = u(u128::MAX);
    let two = u(2);
    let sq = a.checked_mul(a).unwrap();
    assert_eq!(sq.checked_div(a).unwrap(), a);
    assert_eq!(sq.checked_rem(a).unwrap(), u(0));
    assert_eq!(sq.checked_sqrt().unwrap(), a);
    assert_eq!(u(99).checked_sqrt().unwrap(), u(9));
    assert_eq!(two.checked_pow(10).unwrap(), u(1024));
    assert!(matches!(two.checked_pow(512), Err(MathError::OverflowPow { .. })));
    assert_eq!(two.checked_pow(511).unwrap().checked_ilog2().unwrap(), 511);
    assert_eq!(u(1000).checked_ilog10().unwrap(), 3);
    assert!(matches!(u(0).checked_ilog2(), Err(MathError::ZeroLog)));
    assert_eq!(Uint512::MAX().saturating_add(two), Uint512::MAX());
    assert_eq!(two.saturating_sub(a), Uint512::ZERO());
    assert_eq!(Uint512::MAX().saturating_mul(two), Uint512::MAX());
    assert_eq!(two.saturating_pow(600), Uint512::MAX());
    assert!(matches!(Uint512::MAX().checked_add(Uint512::ONE()), Err(MathError::OverflowAdd { .. })));
    assert!(matches!(u(1).checked_sub(two), Err(MathError::OverflowSub { .. })));
    assert!(matches!(a.checked_div(Uint512::ZERO()), Err(MathError::DivisionByZero { .. })));
    assert_eq!(Uint512::MAX().wrapping_add(Uint512::ONE()), Uint512::ZERO());
    assert_eq!(Uint512::ZERO().wrapping_sub(Uint512::ONE()), Uint512::MAX());
    assert_eq!(u(160).checked_shr(3).unwrap(), u(20));
    assert_eq!(u(5).checked_shl(2).unwrap(), u(20));
    assert!(u(5).checked_shl(512).is_err());
    assert!(Uint512::ZERO().is_zero());
    assert!(Uint512::TEN().is_positive());
    assert!(u(3).checked_neg().is_err());
}

#[test]
fn int512_arithmetic() {
    let m = i(-7);
    let t = i(2);
    assert_eq!(m.checked_div(t).unwrap(), i(-3));
    assert_eq!(m.checked_rem(t).unwrap(), i(-1));
    assert_eq!(m.checked_mul(t).unwrap(), i(-14));
    assert_eq!(m.checked_add(t).unwrap(), i(-5));
    assert_eq!(m.checked_sub(t).unwrap(), i(-9));
    assert_eq!(m.checked_pow(3).unwrap(), i(-343));
    assert_eq!(m.checked_abs().unwrap(), i(7));
    assert_eq!(m.checked_neg().unwrap(), i(7));
    assert!(m.is_negative());
    assert!(matches!(m.checked_sqrt(), Err(MathError::NegativeSqrt { .. })));
    assert_eq!(i(49).checked_sqrt().unwrap(), i(7));
    assert_eq!(Int512::MIN().saturating_sub(t), Int512::MIN());
    assert_eq!(Int512::MIN().saturating_mul(t), Int512::MIN());
    assert_eq!(Int512::MAX().saturating_add(t), Int512::MAX());
    assert_eq!(m.saturating_pow(601), Int512::MIN());
    assert!(Int512::MIN().checked_abs().is_err());
    assert!(Int512::MIN().checked_div(i(-1)).is_err());
    assert_eq!(Int512::MAX().wrapping_add(Int512::ONE()), Int512::MIN());
    assert_eq!(i(-160).checked_shr(3).unwrap(), i(-20));
    assert!(Int512::MIN() < Int512::MAX());
    assert!(i(-1) < i(0) && i(0) < i(1));
    assert!(u(3) > u(2) && Uint512::MAX() > u(u128::MAX));
}

#[test]
fn wide512_text() {
    let max = "13407807929942597099574024998205846127479365820592393377723561443721764030073546976801874298166903427690031858186486050853753882811946569946433649006084095";
    assert_eq!(Uint512::MAX().to_text(), max);
    assert_eq!(Uint512::from_text(max).unwrap(), Uint512::MAX());
    assert!(Uint512::from_text("-1").is_err());
    assert_eq!(i(-77).to_text(), "-77");
    assert_eq!(Int512::from_text("-77").unwrap(), i(-77));
    assert_eq!(Int512::from_text(&Int512::MIN().to_text()).unwrap(), Int512::MIN());
    assert!(Int512::from_text("7x").is_err());
}
