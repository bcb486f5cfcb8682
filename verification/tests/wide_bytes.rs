use grug::{Bytable, FixedPoint, Int, Int256, Number, NumberConst, PrimaryKey, Uint256, I256, I512, U256, U512};

/// A few 32-byte patterns: zeros, ones, a ramp, and a mix with the top bit
/// set and clear.
fn samples() -> Vec<Vec<u8>> {
    let mut out = vec![vec![0u8; 32], vec![0xffu8; 32]];
    out.push((0..32u8).collect());
    out.push((0..32u8).map(|i| i.wrapping_mul(37).wrapping_add(11)).collect());
    out.push((0..32u8).map(|i| 0x80u8 ^ i.wrapping_mul(91)).collect());
    out
}

#[test]
fn integer_bytable_works_u256() {
    for bytes in samples() {
        let number = <Uint256 as Bytable>::from_le_bytes(&bytes);
        let recovered = <Uint256 as Bytable>::from_be_bytes(&number.to_be_bytes());
        assert_eq!(number, recovered);
        let recovered = <Uint256 as Bytable>::from_le_bytes(&number.to_le_bytes());
        assert_eq!(number, recovered);
        assert_eq!(number.to_le_bytes(), bytes);
    }
}

#[test]
fn integer_bytable_works_i256() {
    for bytes in samples() {
        let number = <Int256 as Bytable>::from_le_bytes(&bytes);
        let recovered = <Int256 as Bytable>::from_be_bytes(&number.to_be_bytes());
        assert_eq!(number, recovered);
        let recovered = <Int256 as Bytable>::from_le_bytes(&number.to_le_bytes());
        assert_eq!(number, recovered);
        assert_eq!(number.to_le_bytes(), bytes);
    }
}

#[test]
fn u256_bytes_are_the_digits_most_significant_first() {
    let one = U256::from_u128(1);
    let mut expected = vec![0u8; 32];
    expected[31] = 1;
    assert_eq!(<U256 as Bytable>::to_be_bytes(one), expected);
    let big = U256::from_u128(u128::MAX);
    let be = <U256 as Bytable>::to_be_bytes(big);
    assert_eq!(&be[..16], &[0u8; 16]);
    assert_eq!(&be[16..], &[0xffu8; 16]);
    assert_eq!(<I256 as Bytable>::to_be_bytes(I256::from_i128(-1)), vec![0xffu8; 32]);
    assert_eq!(<U256 as Bytable>::BYTE_LEN(), 32);
    assert_eq!(<U512 as Bytable>::BYTE_LEN(), 64);
}

#[test]
fn wide512_bytes_round_trip() {
    let mut bytes: Vec<u8> = (0..64u8).map(|i| i.wrapping_mul(53).wrapping_add(7)).collect();
    for _ in 0..2 {
        let u = <U512 as Bytable>::from_be_bytes(&bytes);
        assert_eq!(<U512 as Bytable>::to_be_bytes(u), bytes);
        assert_eq!(<U512 as Bytable>::from_le_bytes(&<U512 as Bytable>::to_le_bytes(u)), u);
        let s = <I512 as Bytable>::from_be_bytes(&bytes);
        assert_eq!(<I512 as Bytable>::to_be_bytes(s), bytes);
        assert_eq!(<I512 as Bytable>::from_le_bytes(&<I512 as Bytable>::to_le_bytes(s)), s);
        bytes[0] ^= 0x80;
    }
}

#[test]
fn grown_signed() {
    for v in [0i8, 1, -1, 127, -128, -37] {
        let expected = I256::from_i128(v as i128);
        assert_eq!(<I256 as Bytable>::from_be_bytes_growing(&v.to_be_bytes()), expected);
        assert_eq!(<I256 as Bytable>::from_le_bytes_growing(&v.to_le_bytes()), expected);
        let wide = I512::from_i256(expected);
        assert_eq!(<I512 as Bytable>::from_be_bytes_growing(&v.to_be_bytes()), wide);
        assert_eq!(<I512 as Bytable>::from_le_bytes_growing(&v.to_le_bytes()), wide);
    }
    for v in [0i64, -1, i64::MIN, i64::MAX, 123_456_789, -987_654_321] {
        let expected = I256::from_i128(v as i128);
        assert_eq!(<I256 as Bytable>::from_be_bytes_growing(&v.to_be_bytes()), expected);
        assert_eq!(<I256 as Bytable>::from_le_bytes_growing(&v.to_le_bytes()), expected);
        let wide = I512::from_i256(expected);
        assert_eq!(<I512 as Bytable>::from_be_bytes_growing(&v.to_be_bytes()), wide);
        assert_eq!(<I512 as Bytable>::from_le_bytes_growing(&v.to_le_bytes()), wide);
    }
}

#[test]
fn grown_unsigned() {
    for v in [0u32, 1, u32::MAX, 0x8000_0000, 424_242] {
        let expected = U256::from_u128(v as u128);
        assert_eq!(<U256 as Bytable>::from_be_bytes_growing(&v.to_be_bytes()), expected);
        assert_eq!(<U256 as Bytable>::from_le_bytes_growing(&v.to_le_bytes()), expected);
        let wide = U512::from_u256(expected);
        assert_eq!(<U512 as Bytable>::from_be_bytes_growing(&v.to_be_bytes()), wide);
        assert_eq!(<U512 as Bytable>::from_le_bytes_growing(&v.to_le_bytes()), wide);
    }
    for v in [0u64, u64::MAX, 0x8000_0000_0000_0000, 31_415_926_535] {
        let expected = U256::from_u128(v as u128);
        assert_eq!(<U256 as Bytable>::from_be_bytes_growing(&v.to_be_bytes()), expected);
        assert_eq!(<U256 as Bytable>::from_le_bytes_growing(&v.to_le_bytes()), expected);
        let wide = U512::from_u256(expected);
        assert_eq!(<U512 as Bytable>::from_be_bytes_growing(&v.to_be_bytes()), wide);
        assert_eq!(<U512 as Bytable>::from_le_bytes_growing(&v.to_le_bytes()), wide);
    }
}

#[test]
fn wide_integer_keys_round_trip_and_sort() {
    let values = [i128::MIN, -1_000_000, -1, 0, 1, 42, i128::MAX];
    let keys: Vec<Vec<u8>> = values
        .iter()
        .map(|v| {
            let k = Int(I256::from_i128(*v)).raw_keys();
            assert_eq!(k.len(), 1);
            k[0].clone()
        })
        .collect();
    for w in keys.windows(2) {
        assert!(w[0] < w[1]);
    }
    for (v, k) in values.iter().zip(keys.iter()) {
        assert_eq!(<Int256 as PrimaryKey>::from_slice(k).unwrap(), Int(I256::from_i128(*v)));
    }
    // Zero is the middle of the range: only the sign bit is set.
    let mut zero = vec![0u8; 32];
    zero[0] = 0x80;
    assert_eq!(keys[3], zero);

    let u = Int(U256::from_u128(7));
    let k = u.raw_keys();
    assert_eq!(<Uint256 as PrimaryKey>::from_slice(&k[0]).unwrap(), u);
    assert!(<Uint256 as PrimaryKey>::from_slice(&[1, 2, 3]).is_err());

    let big = U512::from_u256(U256::from_u128(9));
    let k = big.raw_keys();
    assert_eq!(k[0].len(), 64);
    assert_eq!(<U512 as PrimaryKey>::from_slice(&k[0]).unwrap(), big);
    let neg = I512::from_i256(I256::from_i128(-9));
    let pos = I512::from_i256(I256::from_i128(9));
    let kn = neg.raw_keys();
    let kp = pos.raw_keys();
    assert!(kn[0] < kp[0]);
    assert_eq!(<I512 as PrimaryKey>::from_slice(&kn[0]).unwrap(), neg);
    assert!(<I512 as PrimaryKey>::from_slice(&kn[0][1..]).is_err());
}

#[test]
fn decimal_keys_sort_by_value() {
    let decs = [
        grug::Dec128::MIN(),
        grug::Dec128::checked_from_ratio(Int(-69420), Int(12345)).unwrap(),
        grug::Dec128::new(-1),
        grug::Dec128::new_percent(-50),
        grug::Dec128::new(0),
        grug::Dec128::new_percent(50),
        grug::Dec128::new(1),
        grug::Dec128::checked_from_ratio(Int(69420), Int(12345)).unwrap(),
        grug::Dec128::MAX(),
    ];
    let keys: Vec<Vec<u8>> = decs.iter().map(|d| d.raw_keys()[0].clone()).collect();
    for w in keys.windows(2) {
        assert!(w[0] < w[1]);
    }
    let udecs = [grug::Udec128::ZERO(), grug::Udec128::new_percent(50), grug::Udec128::new(1), grug::Udec128::MAX()];
    let ukeys: Vec<Vec<u8>> = udecs.iter().map(|d| d.raw_keys()[0].clone()).collect();
    for w in ukeys.windows(2) {
        assert!(w[0] < w[1]);
    }
    let wide = [grug::Dec256::MIN(), grug::Dec256::new(-1), grug::Dec256::new(0), grug::Dec256::new_percent(150), grug::Dec256::MAX()];
    let wkeys: Vec<Vec<u8>> = wide.iter().map(|d| d.raw_keys()[0].clone()).collect();
    for w in wkeys.windows(2) {
        assert!(w[0] < w[1]);
    }
}

#[test]
fn integer_text_round_trips() {
    for v in [i128::MIN, -1_000_000, -1, 0, 7, i128::MAX] {
        let x: grug::Int128 = Int(v);
        assert_eq!(grug::Int128::from_text(&x.to_text()).unwrap(), x);
    }
    for v in [0u128, 9, 10, u128::MAX] {
        let x: grug::Uint128 = Int(v);
        assert_eq!(grug::Uint128::from_text(&x.to_text()).unwrap(), x);
    }
    let big = Int(I256::from_i128(i128::MIN)).checked_mul(Int(I256::from_i128(3))).unwrap();
    assert_eq!(Int256::from_text(&big.to_text()).unwrap(), big);
}
