use vstd::prelude::*;
use crate::dec::Dec;
use crate::encoding::{all_fit, fits_len, join_prefixed, joined, len_prefixed, length_bytes, split_spec};
use crate::primary_key::{be_bytes, be_value, byte_range, lemma_be_roundtrip, lemma_be_value_bound, lemma_byte_range, PrimaryKey};

verus! {

/// `a` sorts before `b` when their bytes are compared one by one, a proper
/// prefix first.
pub open spec fn lex_lt(a: Seq<u8>, b: Seq<u8>) -> bool
    decreases a.len(),
{
    if a.len() == 0 {
        b.len() > 0
    } else if b.len() == 0 {
        false
    } else if a[0] != b[0] {
        a[0] < b[0]
    } else {
        lex_lt(a.drop_first(), b.drop_first())
    }
}

pub(crate) proof fn lemma_be_value_front(s: Seq<u8>)
    requires
        s.len() >= 1,
    ensures
        be_value(s) == s[0] * byte_range((s.len() - 1) as nat) + be_value(s.drop_first()),
    decreases s.len(),
{
    if s.len() == 1 {
        assert(s.drop_last().len() == 0);
        assert(s.drop_first().len() == 0);
        assert(be_value(s.drop_last()) == 0);
        assert(be_value(s.drop_first()) == 0);
        assert(byte_range(0) == 1);
        assert(s.last() == s[0]);
    } else {
        let t = s.drop_last();
        lemma_be_value_front(t);
        assert(t[0] == s[0]);
        assert(be_value(s.drop_first()) == be_value(s.drop_first().drop_last()) * 256 + s.drop_first().last());
        assert(t.drop_first() =~= s.drop_first().drop_last());
        assert(s.drop_first().last() == s.last());
        let n1 = (s.len() - 2) as nat;
        assert(byte_range((s.len() - 1) as nat) == 256 * byte_range(n1));
        assert((t[0] * byte_range(n1) + be_value(t.drop_first())) * 256 + s.last()
            == t[0] * (256 * byte_range(n1)) + (be_value(t.drop_first()) * 256 + s.last())) by (nonlinear_arith);
    }
}

/// For byte strings of one length, comparing them byte by byte orders them
/// as the numbers they spell.
proof fn lemma_lex_is_value_order(s: Seq<u8>, t: Seq<u8>)
    requires
        s.len() == t.len(),
    ensures
        lex_lt(s, t) <==> be_value(s) < be_value(t),
    decreases s.len(),
{
    if s.len() > 0 {
        let n1 = (s.len() - 1) as nat;
        lemma_be_value_front(s);
        lemma_be_value_front(t);
        lemma_be_value_bound(s.drop_first());
        lemma_be_value_bound(t.drop_first());
        lemma_lex_is_value_order(s.drop_first(), t.drop_first());
        let r = byte_range(n1);
        let vs = be_value(s.drop_first());
        let vt = be_value(t.drop_first());
        if s[0] < t[0] {
            assert(s[0] * r + vs < t[0] * r + vt) by (nonlinear_arith)
                requires s[0] + 1 <= t[0], 0 <= vs < r, 0 <= vt;
        } else if s[0] > t[0] {
            assert(s[0] * r + vs > t[0] * r + vt) by (nonlinear_arith)
                requires t[0] + 1 <= s[0], 0 <= vt < r, 0 <= vs;
        }
    }
}

/// Signed and unsigned integer keys sort as their numbers do: the raw key of
/// a smaller number comes first byte by byte.
pub proof fn law_integer_key_order(x: int, y: int, n: nat)
    requires
        0 <= x < byte_range(n),
        0 <= y < byte_range(n),
    ensures
        lex_lt(be_bytes(x, n), be_bytes(y, n)) <==> x < y,
{
    lemma_be_roundtrip(x, n);
    lemma_be_roundtrip(y, n);
    lemma_lex_is_value_order(be_bytes(x, n), be_bytes(y, n));
}

/// The length in front of a key part is written as two big-endian bytes:
/// read back as an unsigned number, the two bytes give the length.
pub proof fn law_length_prefix_big_endian(b: Seq<u8>)
    requires
        fits_len(b),
    ensures
        length_bytes(b).len() == 2,
        be_value(length_bytes(b)) == b.len(),
{
    let l = length_bytes(b);
    let hi = (b.len() / 256) as u8;
    let lo = (b.len() % 256) as u8;
    assert(l.drop_last() =~= seq![hi]);
    assert(seq![hi].drop_last() =~= Seq::<u8>::empty());
    assert(be_value(Seq::<u8>::empty()) == 0);
    assert(seq![hi].last() == hi);
    assert(be_value(seq![hi]) == be_value(seq![hi].drop_last()) * 256 + seq![hi].last());
    assert(be_value(seq![hi]) == hi as int);
    assert(be_value(l) == hi as int * 256 + lo as int);
    assert(b.len() == (b.len() / 256) * 256 + b.len() % 256);
}

/// Reading back the raw key of an `u8` gives the number.
pub proof fn law_u8_key_roundtrip(x: u8)
    ensures
        x.spec_raw_keys().len() == 1,
        u8::spec_decodes(x.spec_raw_keys()[0]),
        u8::spec_decoded(x.spec_raw_keys()[0], x),
{
    lemma_byte_range(1);
    lemma_be_roundtrip(x as int, 1);
}

/// Reading back the raw key of an `u16` gives the number.
pub proof fn law_u16_key_roundtrip(x: u16)
    ensures
        x.spec_raw_keys().len() == 1,
        u16::spec_decodes(x.spec_raw_keys()[0]),
        u16::spec_decoded(x.spec_raw_keys()[0], x),
{
    lemma_byte_range(2);
    lemma_be_roundtrip(x as int, 2);
}

/// Reading back the raw key of an `u32` gives the number.
pub proof fn law_u32_key_roundtrip(x: u32)
    ensures
        x.spec_raw_keys().len() == 1,
        u32::spec_decodes(x.spec_raw_keys()[0]),
        u32::spec_decoded(x.spec_raw_keys()[0], x),
{
    lemma_byte_range(4);
    lemma_be_roundtrip(x as int, 4);
}

/// Reading back the raw key of an `u64` gives the number.
pub proof fn law_u64_key_roundtrip(x: u64)
    ensures
        x.spec_raw_keys().len() == 1,
        u64::spec_decodes(x.spec_raw_keys()[0]),
        u64::spec_decoded(x.spec_raw_keys()[0], x),
{
    lemma_byte_range(8);
    lemma_be_roundtrip(x as int, 8);
}

/// Reading back the raw key of an `u128` gives the number.
pub proof fn law_u128_key_roundtrip(x: u128)
    ensures
        x.spec_raw_keys().len() == 1,
        u128::spec_decodes(x.spec_raw_keys()[0]),
        u128::spec_decoded(x.spec_raw_keys()[0], x),
{
    lemma_byte_range(16);
    lemma_be_roundtrip(x as int, 16);
}

/// `u8` keys are 1 bytes long and sort as the numbers do: the raw key of
/// the smaller number comes first byte by byte, so a map keyed by `u8`
/// is walked in numeric order.
pub proof fn law_u8_key_order(x: u8, y: u8)
    ensures
        x.spec_raw_keys().len() == 1,
        x.spec_raw_keys()[0].len() == 1,
        lex_lt(x.spec_raw_keys()[0], y.spec_raw_keys()[0]) <==> x < y,
{
    lemma_byte_range(1);
    lemma_be_roundtrip(x as int, 1);
    law_integer_key_order(x as int, y as int, 1);
}

/// `u16` keys are 2 bytes long and sort as the numbers do: the raw key of
/// the smaller number comes first byte by byte, so a map keyed by `u16`
/// is walked in numeric order.
pub proof fn law_u16_key_order(x: u16, y: u16)
    ensures
        x.spec_raw_keys().len() == 1,
        x.spec_raw_keys()[0].len() == 2,
        lex_lt(x.spec_raw_keys()[0], y.spec_raw_keys()[0]) <==> x < y,
{
    lemma_byte_range(2);
    lemma_be_roundtrip(x as int, 2);
    law_integer_key_order(x as int, y as int, 2);
}

/// `u32` keys are 4 bytes long and sort as the numbers do: the raw key of
/// the smaller number comes first byte by byte, so a map keyed by `u32`
/// is walked in numeric order.
pub proof fn law_u32_key_order(x: u32, y: u32)
    ensures
        x.spec_raw_keys().len() == 1,
        x.spec_raw_keys()[0].len() == 4,
        lex_lt(x.spec_raw_keys()[0], y.spec_raw_keys()[0]) <==> x < y,
{
    lemma_byte_range(4);
    lemma_be_roundtrip(x as int, 4);
    law_integer_key_order(x as int, y as int, 4);
}

/// `u64` keys are 8 bytes long and sort as the numbers do: the raw key of
/// the smaller number comes first byte by byte, so a map keyed by `u64`
/// is walked in numeric order.
pub proof fn law_u64_key_order(x: u64, y: u64)
    ensures
        x.spec_raw_keys().len() == 1,
        x.spec_raw_keys()[0].len() == 8,
        lex_lt(x.spec_raw_keys()[0], y.spec_raw_keys()[0]) <==> x < y,
{
    lemma_byte_range(8);
    lemma_be_roundtrip(x as int, 8);
    law_integer_key_order(x as int, y as int, 8);
}

/// `u128` keys are 16 bytes long and sort as the numbers do: the raw key of
/// the smaller number comes first byte by byte, so a map keyed by `u128`
/// is walked in numeric order.
pub proof fn law_u128_key_order(x: u128, y: u128)
    ensures
        x.spec_raw_keys().len() == 1,
        x.spec_raw_keys()[0].len() == 16,
        lex_lt(x.spec_raw_keys()[0], y.spec_raw_keys()[0]) <==> x < y,
{
    lemma_byte_range(16);
    lemma_be_roundtrip(x as int, 16);
    law_integer_key_order(x as int, y as int, 16);
}

/// Reading back the raw key of an `i8` gives the number.
pub proof fn law_i8_key_roundtrip(x: i8)
    ensures
        x.spec_raw_keys().len() == 1,
        i8::spec_decodes(x.spec_raw_keys()[0]),
        i8::spec_decoded(x.spec_raw_keys()[0], x),
{
    lemma_byte_range(1);
    lemma_be_roundtrip(x + 0x80int, 1);
}

/// `i8` keys sort as the numbers do: the raw key of the smaller number
/// comes first byte by byte.
pub proof fn law_i8_key_order(x: i8, y: i8)
    ensures
        lex_lt(x.spec_raw_keys()[0], y.spec_raw_keys()[0]) <==> x < y,
{
    lemma_byte_range(1);
    law_integer_key_order(x + 0x80int, y + 0x80int, 1);
}

/// Reading back the raw key of an `i16` gives the number.
pub proof fn law_i16_key_roundtrip(x: i16)
    ensures
        x.spec_raw_keys().len() == 1,
        i16::spec_decodes(x.spec_raw_keys()[0]),
        i16::spec_decoded(x.spec_raw_keys()[0], x),
{
    lemma_byte_range(2);
    lemma_be_roundtrip(x + 0x8000int, 2);
}

/// `i16` keys sort as the numbers do: the raw key of the smaller number
/// comes first byte by byte.
pub proof fn law_i16_key_order(x: i16, y: i16)
    ensures
        lex_lt(x.spec_raw_keys()[0], y.spec_raw_keys()[0]) <==> x < y,
{
    lemma_byte_range(2);
    law_integer_key_order(x + 0x8000int, y + 0x8000int, 2);
}

/// Reading back the raw key of an `i32` gives the number.
pub proof fn law_i32_key_roundtrip(x: i32)
    ensures
        x.spec_raw_keys().len() == 1,
        i32::spec_decodes(x.spec_raw_keys()[0]),
        i32::spec_decoded(x.spec_raw_keys()[0], x),
{
    lemma_byte_range(4);
    lemma_be_roundtrip(x + 0x80000000int, 4);
}

/// `i32` keys sort as the numbers do: the raw key of the smaller number
/// comes first byte by byte.
pub proof fn law_i32_key_order(x: i32, y: i32)
    ensures
        lex_lt(x.spec_raw_keys()[0], y.spec_raw_keys()[0]) <==> x < y,
{
    lemma_byte_range(4);
    law_integer_key_order(x + 0x80000000int, y + 0x80000000int, 4);
}

/// Reading back the raw key of an `i64` gives the number.
pub proof fn law_i64_key_roundtrip(x: i64)
    ensures
        x.spec_raw_keys().len() == 1,
        i64::spec_decodes(x.spec_raw_keys()[0]),
        i64::spec_decoded(x.spec_raw_keys()[0], x),
{
    lemma_byte_range(8);
    lemma_be_roundtrip(x + 0x8000000000000000int, 8);
}

/// `i64` keys sort as the numbers do: the raw key of the smaller number
/// comes first byte by byte.
pub proof fn law_i64_key_order(x: i64, y: i64)
    ensures
        lex_lt(x.spec_raw_keys()[0], y.spec_raw_keys()[0]) <==> x < y,
{
    lemma_byte_range(8);
    law_integer_key_order(x + 0x8000000000000000int, y + 0x8000000000000000int, 8);
}

/// Reading back the raw key of an `i128` gives the number.
pub proof fn law_i128_key_roundtrip(x: i128)
    ensures
        x.spec_raw_keys().len() == 1,
        i128::spec_decodes(x.spec_raw_keys()[0]),
        i128::spec_decoded(x.spec_raw_keys()[0], x),
{
    lemma_byte_range(16);
    lemma_be_roundtrip(x + 0x80000000000000000000000000000000int, 16);
}

/// `i128` keys sort as the numbers do: the raw key of the smaller number
/// comes first byte by byte.
pub proof fn law_i128_key_order(x: i128, y: i128)
    ensures
        lex_lt(x.spec_raw_keys()[0], y.spec_raw_keys()[0]) <==> x < y,
{
    lemma_byte_range(16);
    law_integer_key_order(x + 0x80000000000000000000000000000000int, y + 0x80000000000000000000000000000000int, 16);
}

/// Unsigned 128-bit decimal keys sort as the decimals do: the raw key of the
/// smaller decimal comes first byte by byte.
pub proof fn law_udec128_key_order<const S: u32>(x: Dec<u128, S>, y: Dec<u128, S>)
    ensures
        lex_lt(x.spec_raw_keys()[0], y.spec_raw_keys()[0]) <==> x.0.0 < y.0.0,
{
    lemma_byte_range(16);
    law_integer_key_order(x.0.0 as int, y.0.0 as int, 16);
}

/// Signed 128-bit decimal keys sort as the decimals do: the raw key of the
/// smaller decimal comes first byte by byte.
pub proof fn law_dec128_key_order<const S: u32>(x: Dec<i128, S>, y: Dec<i128, S>)
    ensures
        lex_lt(x.spec_raw_keys()[0], y.spec_raw_keys()[0]) <==> x.0.0 < y.0.0,
{
    law_i128_key_order(x.0.0, y.0.0);
}

proof fn lemma_join_prefixed_concat(x: Seq<Seq<u8>>, y: Seq<Seq<u8>>)
    ensures
        join_prefixed(x + y) == join_prefixed(x) + join_prefixed(y),
    decreases y.len(),
{
    if y.len() == 0 {
        assert(x + y =~= x);
        assert(join_prefixed(x) + Seq::<u8>::empty() =~= join_prefixed(x));
    } else {
        lemma_join_prefixed_concat(x, y.drop_last());
        assert((x + y).drop_last() =~= x + y.drop_last());
        assert(join_prefixed(x + y) =~= join_prefixed(x) + join_prefixed(y));
    }
}

proof fn lemma_join_prefixed_front(a: Seq<Seq<u8>>)
    requires
        a.len() >= 1,
    ensures
        join_prefixed(a) == len_prefixed(a[0]) + join_prefixed(a.drop_first()),
{
    lemma_join_prefixed_concat(seq![a[0]], a.drop_first());
    assert(seq![a[0]] + a.drop_first() =~= a);
    let one = seq![a[0]];
    assert(one.drop_last() =~= Seq::<Seq<u8>>::empty());
    assert(join_prefixed(one.drop_last()) == Seq::<u8>::empty());
    assert(one.last() == a[0]);
    assert(join_prefixed(one) =~= len_prefixed(a[0]));
}

proof fn lemma_length_bytes_read(b: Seq<u8>)
    requires
        fits_len(b),
    ensures
        length_bytes(b)[0] * 256 + length_bytes(b)[1] == b.len(),
{
    let l = b.len();
    assert(((l / 256) as u8) == l / 256 && ((l % 256) as u8) == l % 256);
}

proof fn lemma_split_prefixed(a: Seq<Seq<u8>>, rest: Seq<u8>)
    requires
        a.len() >= 1,
        all_fit(a),
    ensures
        split_spec(a.len(), join_prefixed(a) + rest) == Some((joined(a), rest)),
    decreases a.len(),
{
    let a0 = a[0];
    let tail = a.drop_first();
    lemma_join_prefixed_front(a);
    assert(fits_len(a0));
    lemma_length_bytes_read(a0);
    let v = join_prefixed(a) + rest;
    let inner = join_prefixed(tail) + rest;
    assert(v =~= length_bytes(a0) + (a0 + inner));
    let l = a0.len() as int;
    assert(v[0] * 256 + v[1] == l);
    assert(v.subrange(2, 2 + l) =~= a0);
    assert(v.subrange(2 + l, v.len() as int) =~= inner);
    assert(v.subrange(0, 2) =~= length_bytes(a0));
    if a.len() == 1 {
        assert(tail =~= Seq::<Seq<u8>>::empty());
        assert(inner =~= rest);
        assert(split_spec(0, inner) == Some((Seq::<u8>::empty(), inner)));
        assert(a0 + Seq::<u8>::empty() =~= a0);
        assert(a.drop_last() =~= Seq::<Seq<u8>>::empty());
        assert(joined(a) =~= a0);
    } else {
        assert(all_fit(tail)) by {
            assert forall|i: int| 0 <= i < tail.len() implies fits_len(#[trigger] tail[i]) by {
                assert(tail[i] == a[i + 1]);
            }
        }
        lemma_split_prefixed(tail, rest);
        lemma_join_prefixed_front(a.drop_last());
        assert(a.drop_last().drop_first() =~= tail.drop_last());
        assert(a.drop_last()[0] == a0);
        assert(joined(a) =~= len_prefixed(a0) + joined(tail));
        assert(length_bytes(a0) + a0 + joined(tail) =~= len_prefixed(a0) + joined(tail));
    }
}

/// Splitting the joined key of a compound key after the elements of its
/// first part gives back the joined key of that part and the joined key of
/// the rest: this is what lets compound keys, nested ones too, be read back.
pub proof fn law_split_joined(a: Seq<Seq<u8>>, b: Seq<Seq<u8>>)
    requires
        a.len() >= 1,
        b.len() >= 1,
        all_fit(a),
    ensures
        split_spec(a.len(), joined(a + b)) == Some((joined(a), joined(b))),
{
    assert((a + b).drop_last() =~= a + b.drop_last());
    assert((a + b).last() == b.last());
    lemma_join_prefixed_concat(a, b.drop_last());
    assert(joined(a + b) =~= join_prefixed(a) + joined(b));
    lemma_split_prefixed(a, joined(b));
}

/// Every storage key of a compound key starts with the key of the prefix
/// made of its first elements: iterating under a prefix meets exactly the
/// entries whose keys begin with it.
pub proof fn law_prefix_covers_path(namespace: Seq<u8>, a: Seq<Seq<u8>>, b: Seq<Seq<u8>>)
    requires
        b.len() >= 1,
    ensures
        (len_prefixed(namespace) + join_prefixed(a)).is_prefix_of(len_prefixed(namespace) + joined(a + b)),
{
    assert((a + b).drop_last() =~= a + b.drop_last());
    assert((a + b).last() == b.last());
    lemma_join_prefixed_concat(a, b.drop_last());
    let head = len_prefixed(namespace) + join_prefixed(a);
    let whole = len_prefixed(namespace) + joined(a + b);
    assert(whole =~= head + (join_prefixed(b.drop_last()) + b.last()));
    assert(whole.subrange(0, head.len() as int) =~= head);
}

} // verus!
