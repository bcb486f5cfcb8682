use grug::{
    accumulated_supply, fee_settlement, fee_to_withhold, grow_be_int, grow_be_uint, grow_le_int, grow_le_uint,
    increased_amount, decreased_amount, nested_namespaces_with_key, split_first_key, Bytable, Int,
    Item, MathError, NumberConst, Path, Prefixer, PrimaryKey, StdError, StorageMap, Udec128, Uint128,
};
use std::str::FromStr;

#[test]
fn signed_keys_sort_like_numbers() {
    let values: [i64; 6] = [i64::MIN, -1000, -1, 0, 1, i64::MAX];
    for w in values.windows(2) {
        let a = w[0].joined_key();
        let b = w[1].joined_key();
        assert!(a < b, "{} < {}", w[0], w[1]);
    }
    assert_eq!((-1i8).joined_key(), vec![0x7f]);
    assert_eq!(0i8.joined_key(), vec![0x80]);
}

#[test]
fn integer_keys_read_back() {
    for x in [0u64, 1, 88888, u64::MAX] {
        assert_eq!(u64::from_slice(&x.joined_key()).unwrap(), x);
    }
    for x in [i128::MIN, -5, 0, 7, i128::MAX] {
        assert_eq!(i128::from_slice(&x.joined_key()).unwrap(), x);
    }
    match u32::from_slice(&[1, 2, 3]) {
        Err(StdError::Deserialize { what, reason }) => {
            assert_eq!(what, "key");
            assert_eq!(reason, "wrong number of bytes: expecting 4, got 3");
        },
        other => panic!("unexpected {other:?}"),
    }
}

#[test]
fn other_simple_keys() {
    assert_eq!(bool::from_slice(&true.joined_key()).unwrap(), true);
    assert_eq!(bool::from_slice(&[0]).unwrap(), false);
    match bool::from_slice(&[2, 3]) {
        Err(StdError::Deserialize { reason, .. }) => {
            assert_eq!(reason, "unknown bytes `[2, 3]` for boolean key, expecting 0 or 1");
        },
        other => panic!("unexpected {other:?}"),
    }
    assert!(<&str>::from_slice(&[0xff, 0xfe]).is_err());
    assert_eq!(String::from_slice(b"hello").unwrap(), "hello");
    assert_eq!(<Vec<u8>>::from_slice(&[1, 2]).unwrap(), vec![1, 2]);
    assert_eq!(<()>::from_slice(&[]).unwrap(), ());
    assert!(<()>::from_slice(&[1]).is_err());
    assert_eq!(Int(5u64).joined_key(), 5u64.joined_key());
    assert_eq!(Udec128::from_str("1").unwrap().joined_key(), 1_000_000_000_000_000_000u128.joined_key());
}

#[test]
fn optional_keys() {
    let some: Option<u8> = Some(9);
    let none: Option<u8> = None;
    assert_eq!(some.joined_key(), vec![0, 1, 1, 9]);
    assert_eq!(none.joined_key(), vec![0]);
    assert_eq!(<Option<u8>>::from_slice(&some.joined_key()).unwrap(), Some(9));
    assert_eq!(<Option<u8>>::from_slice(&[0, 1, 0]).unwrap(), None);
}

#[test]
fn prefixes_and_paths() {
    assert_eq!(("ab", 1u8).joined_prefix(), vec![0, 2, b'a', b'b', 0, 1, 1]);
    assert_eq!(("ab", 1u8).joined_key(), vec![0, 2, b'a', b'b', 1]);
    let map: StorageMap<(&str, u8), u64> = StorageMap::new("m");
    let prefix = map.prefix("ab");
    let appended = map.no_prefix().append("ab");
    let _ = (prefix, appended);
    let item: Item<u64> = Item::new("config");
    assert_eq!(item.path().storage_key(), b"config");
    let path: Path<u64, grug::Borsh> = Path::from_raw(b"raw");
    assert_eq!(path.storage_key(), b"raw");
    let raw = map.path_raw(b"xyz");
    assert_eq!(raw.storage_key(), &[0, 1, b'm', b'x', b'y', b'z']);
    let nested = nested_namespaces_with_key(Some(b"ns"), &[b"p".to_vec()], Some(b"k"));
    assert_eq!(nested, vec![0, 2, b'n', b's', 0, 1, b'p', b'k']);
}

#[test]
fn splitting_compound_keys() {
    let bytes: &[u8] = &[0, 5, 72, 101, 108, 108, 111, 0, 4, 0, 0, 0, 10, 87, 111, 114, 108, 100];
    let (first, rest) = split_first_key(2, bytes);
    assert_eq!(first, vec![0, 5, 72, 101, 108, 108, 111, 0, 0, 0, 10]);
    assert_eq!(rest, b"World");
    let (first, rest) = split_first_key(1, &[0, 4, 0, 0, 0, 10, 0, 0, 1, 9]);
    assert_eq!(first, vec![0, 0, 0, 10]);
    assert_eq!(rest, &[0, 0, 1, 9]);
}

#[test]
fn bytes_of_numbers() {
    assert_eq!(<u32 as Bytable>::to_be_bytes(0x0102_0304), vec![1, 2, 3, 4]);
    assert_eq!(<u32 as Bytable>::to_le_bytes(0x0102_0304), vec![4, 3, 2, 1]);
    assert_eq!(<i16 as Bytable>::to_be_bytes(-2), vec![0xff, 0xfe]);
    assert_eq!(<i16 as Bytable>::from_be_bytes(&[0xff, 0xfe]), -2);
    assert_eq!(<i16 as Bytable>::from_le_bytes(&[0xfe, 0xff]), -2);
    assert_eq!(<Int<u64> as Bytable>::from_be_bytes(&[0, 0, 0, 0, 0, 0, 1, 0]), Int(256));
    assert_eq!(<i64 as Bytable>::from_be_bytes_growing(&[0xff, 0xfe]), -2);
    assert_eq!(<i64 as Bytable>::from_le_bytes_growing(&[0xfe, 0xff]), -2);
    assert_eq!(<u64 as Bytable>::from_be_bytes_growing(&[0xff, 0xfe]), 0xfffe);
    assert_eq!(<u16 as Bytable>::BYTE_LEN(), 2);
    assert_eq!(grow_be_uint(&[1, 2], 4), vec![0, 0, 1, 2]);
    assert_eq!(grow_le_uint(&[1, 2], 4), vec![1, 2, 0, 0]);
    assert_eq!(grow_be_int(&[0x80, 2], 4), vec![0xff, 0xff, 0x80, 2]);
    assert_eq!(grow_le_int(&[2, 0x80], 4), vec![2, 0x80, 0xff, 0xff]);
    assert_eq!(grow_be_int(&[0x7f, 2], 3), vec![0, 0x7f, 2]);
}

#[test]
fn balances_change_by_the_amount() {
    assert_eq!(increased_amount(None, Int(5)).unwrap(), Some(Int(5)));
    assert_eq!(increased_amount(Some(Int(5)), Int(0)).unwrap(), Some(Int(5)));
    assert_eq!(increased_amount(None, Int(0)).unwrap(), None);
    assert!(matches!(increased_amount(Some(Int(u128::MAX)), Int(1)), Err(MathError::OverflowAdd { .. })));
    assert_eq!(decreased_amount(Some(Int(5)), Int(5)).unwrap(), None);
    assert_eq!(decreased_amount(Some(Int(5)), Int(2)).unwrap(), Some(Int(3)));
    assert!(matches!(decreased_amount(None, Int(1)), Err(MathError::OverflowSub { .. })));
    // A transfer keeps the sum of the two balances.
    let from = Some(Int(10u128));
    let to = Some(Int(3u128));
    let from_after = decreased_amount(from, Int(4)).unwrap();
    let to_after = increased_amount(to, Int(4)).unwrap();
    assert_eq!(from_after.unwrap().0 + to_after.unwrap().0, 13);
}

#[test]
fn fees_are_withheld_and_settled() {
    let rate = Udec128::from_str("0.25").unwrap();
    assert_eq!(fee_to_withhold(false, 10, rate).unwrap(), Int(3));
    assert_eq!(fee_to_withhold(true, 10, rate).unwrap(), Int(0));
    let (charge, refund) = fee_settlement(false, 6, rate, Int(3)).unwrap();
    assert_eq!((charge, refund), (Int(2), Int(1)));
    let (charge, refund) = fee_settlement(true, 6, rate, Int(3)).unwrap();
    assert_eq!((charge, refund), (Int(0), Int(3)));
    let huge = Udec128::MAX();
    assert!(matches!(fee_to_withhold(false, u64::MAX, huge), Err(MathError::OverflowConversion { .. })));
    let _: Uint128 = Int(0);
}

#[test]
fn initial_supplies_accumulate() {
    assert_eq!(accumulated_supply(None, Int(0)).unwrap(), Int(0));
    assert_eq!(accumulated_supply(None, Int(5)).unwrap(), Int(5));
    assert_eq!(accumulated_supply(Some(Int(5)), Int(7)).unwrap(), Int(12));
    assert!(matches!(accumulated_supply(Some(Uint128::MAX()), Int(1)), Err(MathError::OverflowAdd { .. })));
}
