use grug::{PrimaryKey, StorageMap};

struct Data;

#[test]
fn create_path() {
    let people: StorageMap<&[u8], Data> = StorageMap::new("people");
    let allowance: StorageMap<(&[u8], &[u8]), u64> = StorageMap::new("allow");
    let triple: StorageMap<(&[u8], u8, &str), u64> = StorageMap::new("triple");

    let path = people.path(b"john");
    let key = path.storage_key();

    // this should be prefixed(people) || john
    assert_eq!("people".len() + "john".len() + 2, key.len());
    assert_eq!(b"people".to_vec().as_slice(), &key[2..8]);
    assert_eq!(b"john".to_vec().as_slice(), &key[8..]);

    let path = allowance.path((b"john", b"maria"));
    let key = path.storage_key();

    // this should be prefixed(allow) || prefixed(john) || maria
    assert_eq!("allow".len() + "john".len() + "maria".len() + 2 * 2, key.len());
    assert_eq!(b"allow".to_vec().as_slice(), &key[2..7]);
    assert_eq!(b"john".to_vec().as_slice(), &key[9..13]);
    assert_eq!(b"maria".to_vec().as_slice(), &key[13..]);

    let path = triple.path((b"john", 8u8, "pedro"));
    let key = path.storage_key();

    // this should be prefixed(triple) || prefixed(john) || prefixed(8u8) || pedro
    assert_eq!("triple".len() + "john".len() + 1 + "pedro".len() + 2 * 3, key.len());
    assert_eq!(b"triple".to_vec().as_slice(), &key[2..8]);
    assert_eq!(b"john".to_vec().as_slice(), &key[10..14]);
    assert_eq!(8u8.to_be_bytes(), &key[16..17]);
    assert_eq!(b"pedro".to_vec().as_slice(), &key[17..]);
}

fn check_triple_tuple_key() {
    type TripleTuple<'a> = (&'a str, &'a str, &'a str);

    let (a, b, c) = ("larry", "jake", "pumpkin");
    let serialized = (a, b, c).joined_key();
    let deserialized = TripleTuple::from_slice(&serialized).unwrap();

    assert_eq!(deserialized, (a.to_string(), b.to_string(), c.to_string()));
}

fn check_nested_tuple_key() {
    // Two layers of nesting
    type NestedTuple<'a> = ((&'a str, &'a str), (&'a str, &'a str));

    let ((a, b), (c, d)) = (("larry", "engineer"), ("jake", "shepherd"));

    let serialized = ((a, b), (c, d)).joined_key();
    assert_eq!(serialized, [
        0, 5,                                   // len("larry")
        108, 97, 114, 114, 121,                 // "larry"
        0, 8,                                   // len("engineer")
        101, 110, 103, 105, 110, 101, 101, 114, // "engineer"
        0, 4,                                   // len("jake")
        106, 97, 107, 101,                      // "jake"
        115, 104, 101, 112, 104, 101, 114, 100, // "shepherd"
    ]);

    let deserialized = NestedTuple::from_slice(&serialized).unwrap();
    assert_eq!(
        deserialized,
        ((a.to_string(), b.to_string()), (c.to_string(), d.to_string()))
    );
}

fn check_multi_nested_tuple_key() {
    // Three layers of nesting
    type NestedTuple<'a> = ((u64, (&'a str, &'a str)), &'a str);

    let ((a, (b, c)), d) = ((88888u64, ("larry", "engineer")), "jake");

    let serialized = ((a, (b, c)), d).joined_key();
    assert_eq!(serialized, [
        0, 8,                                   // len(u64)
        0, 0, 0, 0, 0, 1, 91, 56,               // 88888 = 1 * 256^2 + 91 * 256^1 + 56 * 256^0
        0, 5,                                   // len("larry")
        108, 97, 114, 114, 121,                 // "larry"
        0, 8,                                   // len("engineer")
        101, 110, 103, 105, 110, 101, 101, 114, // "engineer"
        106, 97, 107, 101,                      // "jake"
    ]);

    let deserialized = NestedTuple::from_slice(&serialized).unwrap();
    assert_eq!(
        deserialized,
        ((a, (b.to_string(), c.to_string())), d.to_string())
    );
}

#[test]
fn key_triple_tuple_key() {
    check_triple_tuple_key();
}

#[test]
fn key_nested_tuple_key() {
    check_nested_tuple_key();
}

#[test]
fn key_multi_nested_tuple_key() {
    check_multi_nested_tuple_key();
}

#[test]
fn primary_key_triple_tuple_key() {
    check_triple_tuple_key();
}

#[test]
fn primary_key_nested_tuple_key() {
    check_nested_tuple_key();
}

#[test]
fn primary_key_multi_nested_tuple_key() {
    check_multi_nested_tuple_key();
}

#[test]
fn code_status_keys() {
    let orphaned = grug::CodeStatus::Orphaned { since: grug::Duration::from_nanos(258) };
    let joined = orphaned.joined_key();
    let mut expected = vec![0u8, 1, 0];
    expected.extend_from_slice(&258u128.to_be_bytes());
    assert_eq!(joined, expected);
    assert_eq!(<grug::CodeStatus as PrimaryKey>::from_slice(&joined).unwrap(), orphaned);

    let in_use = grug::CodeStatus::InUse { usage: 7 };
    let joined = in_use.joined_key();
    assert_eq!(joined, vec![0u8, 1, 1, 0, 0, 0, 7]);
    assert_eq!(<grug::CodeStatus as PrimaryKey>::from_slice(&joined).unwrap(), in_use);

    match <grug::CodeStatus as PrimaryKey>::from_slice(&[0, 1, 2, 9]) {
        Err(grug::StdError::Deserialize { reason, .. }) => assert_eq!(reason, "unknown tag: [0, 1, 2]"),
        other => panic!("unexpected {other:?}"),
    }
    assert!(<grug::CodeStatus as PrimaryKey>::from_slice(&[0, 1, 1, 0, 0, 7]).is_err());

    let d = grug::Duration::from_nanos(1_000_000_007);
    let raw = d.raw_keys();
    assert_eq!(raw[0], 1_000_000_007u128.to_be_bytes().to_vec());
    assert_eq!(<grug::Duration as PrimaryKey>::from_slice(&raw[0]).unwrap(), d);
    assert!(<grug::Duration as PrimaryKey>::from_slice(&[1, 2, 3]).is_err());
    assert_eq!(d.into_nanos(), 1_000_000_007);
}

#[test]
fn quadruple_key() {
    let key: (&[u8], String, u64, bool) = (b"ab", "cd".to_string(), 258, true);
    let joined = key.joined_key();
    let mut expected = vec![0u8, 2, b'a', b'b', 0, 2, b'c', b'd', 0, 8];
    expected.extend_from_slice(&258u64.to_be_bytes());
    expected.push(1);
    assert_eq!(joined, expected);
    let back = <(&[u8], String, u64, bool) as PrimaryKey>::from_slice(&joined).unwrap();
    assert_eq!(back, (b"ab".to_vec(), "cd".to_string(), 258, true));
    assert_eq!(<(&[u8], String, u64, bool) as PrimaryKey>::KEY_ELEMS(), 4);
}

#[test]
fn reference_keys_like_their_target() {
    let n: u64 = 77;
    let r = &n;
    assert_eq!(r.raw_keys(), n.raw_keys());
    assert_eq!(<&u64 as PrimaryKey>::from_slice(&n.raw_keys()[0]).unwrap(), 77);
    assert_eq!(<&u64 as PrimaryKey>::KEY_ELEMS(), 1);
    let pair = (b"x".as_slice(), &n);
    assert_eq!(pair.joined_key(), (b"x".as_slice(), 77u64).joined_key());
}
