use grug::{Int, Int256, Integer, MathError, Number, NumberConst, Prefixer, PrevNumber, PrimaryKey, Sign, StorageMap, Uint256, I256, U256};

#[test]
fn primitive_operations_compute_their_results() {
    assert_eq!(Int(3u64).checked_pow(4).unwrap(), Int(81));
    assert_eq!(Int(3u128).checked_pow(5).unwrap(), Int(243));
    assert_eq!(Int(-3i64).checked_pow(3).unwrap(), Int(-27));
    assert_eq!(Int(-2i128).checked_pow(3).unwrap(), Int(-8));
    assert!(matches!(Int(2u64).checked_pow(64), Err(MathError::OverflowPow { .. })));
    assert_eq!(Int(3u64).saturating_mul(Int(4)), Int(12));
    assert_eq!(Int(u128::MAX).saturating_mul(Int(2)), Int(u128::MAX));
    assert_eq!(Int(-5i64).saturating_sub(Int(i64::MAX)), Int(i64::MIN));
    assert_eq!(Int(5i128).saturating_add(Int(i128::MAX)), Int(i128::MAX));
    assert_eq!(Int(-5i128).saturating_mul(Int(3)), Int(-15));
    assert_eq!(Int(1u64).checked_shl(3).unwrap(), Int(8));
    assert_eq!(Int(16u128).checked_shr(2).unwrap(), Int(4));
    assert_eq!(Int(-16i64).checked_shr(2).unwrap(), Int(-4));
    assert_eq!(Int(8u64).checked_ilog2().unwrap(), 3);
    assert_eq!(Int(1000u128).checked_ilog10().unwrap(), 3);
    assert_eq!(Int(1024i128).checked_ilog2().unwrap(), 10);
    assert_eq!(Int(3u64).wrapping_pow(41), Int(3u64.wrapping_pow(41)));
    assert_eq!(Int(7i64).checked_neg().unwrap(), Int(-7));
    assert_eq!(Int(0u64).checked_neg().unwrap(), Int(0));
}

#[test]
fn wide_operations_compute_their_results() {
    let a: Uint256 = Int(U256::from_u128(u128::MAX));
    let two: Uint256 = Int(U256::from_u128(2));
    let sum = a.checked_add(a).unwrap();
    assert_eq!(sum.checked_sub(a).unwrap(), a);
    let product = a.checked_mul(two).unwrap();
    assert_eq!(product, sum);
    assert_eq!(product.checked_div(two).unwrap(), a);
    assert_eq!(product.checked_rem(two).unwrap(), Int(U256::from_u128(0)));
    assert_eq!(two.checked_pow(10).unwrap(), Int(U256::from_u128(1024)));
    assert!(matches!(two.checked_pow(256), Err(MathError::OverflowPow { .. })));
    assert_eq!(Uint256::MAX().saturating_add(two), Uint256::MAX());
    assert_eq!(two.saturating_sub(a), Int(U256::from_u128(0)));
    assert_eq!(Uint256::MAX().saturating_mul(two), Uint256::MAX());
    assert_eq!(two.saturating_pow(300), Uint256::MAX());
    assert_eq!(Int(U256::from_u128(100)).checked_sqrt().unwrap(), Int(U256::from_u128(10)));
    let m: Int256 = Int(I256::from_i128(-7));
    let t: Int256 = Int(I256::from_i128(2));
    assert_eq!(m.checked_div(t).unwrap(), Int(I256::from_i128(-3)));
    assert_eq!(m.checked_rem(t).unwrap(), Int(I256::from_i128(-1)));
    assert_eq!(m.checked_mul(t).unwrap(), Int(I256::from_i128(-14)));
    assert_eq!(m.checked_add(t).unwrap(), Int(I256::from_i128(-5)));
    assert_eq!(m.checked_sub(t).unwrap(), Int(I256::from_i128(-9)));
    assert_eq!(m.checked_pow(3).unwrap(), Int(I256::from_i128(-343)));
    assert_eq!(Int256::MIN().saturating_sub(t), Int256::MIN());
    assert_eq!(Int256::MIN().saturating_mul(t), Int256::MIN());
    assert_eq!(Int256::MAX().saturating_add(t), Int256::MAX());
    assert_eq!(m.saturating_pow(301), Int256::MIN());
    assert!(m.is_negative());
    assert!(matches!(Int256::MIN().checked_div(Int(I256::from_i128(-1))), Err(_)));
    assert_eq!(Int256::MAX().checked_into_prev().is_err(), true);
}

#[test]
fn storage_keys_under_a_prefix_start_with_it() {
    let map: StorageMap<(&str, u8), u64> = StorageMap::new("m");
    let path = map.path(("ab", 7u8));
    let key = path.storage_key();
    let mut head = vec![0, 1, b'm'];
    head.extend(("ab").joined_prefix());
    assert!(key.starts_with(&head));
    assert_eq!(&key[head.len()..], &[7]);
    let _ = ("ab", 7u8).joined_key();
}

#[test]
fn wide_integer_operations() {
    let u = |x: u128| -> Uint256 { Int(U256::from_u128(x)) };
    let i = |x: i128| -> Int256 { Int(I256::from_i128(x)) };
    assert_eq!(u(1000).checked_ilog10().unwrap(), 3);
    assert_eq!(u(1024).checked_ilog2().unwrap(), 10);
    assert_eq!(Uint256::MAX().checked_ilog2().unwrap(), 255);
    assert!(matches!(u(0).checked_ilog10(), Err(MathError::ZeroLog)));
    assert_eq!(u(5).checked_shl(3).unwrap(), u(40));
    assert_eq!(u(160).checked_shr(5).unwrap(), u(5));
    assert!(matches!(u(1).checked_shl(256), Err(MathError::OverflowShl { .. })));
    assert!(matches!(u(1).checked_shr(256), Err(MathError::OverflowShr { .. })));
    assert_eq!(Uint256::MAX().wrapping_add(u(2)), u(1));
    assert_eq!(u(0).wrapping_sub(u(1)), Uint256::MAX());
    assert_eq!(Uint256::MAX().wrapping_mul(u(2)), Uint256::MAX().wrapping_sub(u(1)));
    assert_eq!(u(2).wrapping_pow(257), u(0));
    assert_eq!(i(-1000).checked_ilog10().is_err(), true);
    assert_eq!(i(1000).checked_ilog10().unwrap(), 3);
    assert_eq!(i(-160).checked_shr(5).unwrap(), i(-5));
    assert_eq!(i(-5).checked_shl(3).unwrap(), i(-40));
    assert_eq!(Int256::MAX().wrapping_add(i(1)), Int256::MIN());
    assert_eq!(Int256::MIN().wrapping_sub(i(1)), Int256::MAX());
    assert_eq!(i(-3).wrapping_mul(i(5)), i(-15));
    assert_eq!(i(-2).wrapping_pow(3), i(-8));
}
