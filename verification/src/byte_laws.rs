use vstd::prelude::*;
use crate::bytes::{extension_byte, fill, grown_be, twos, Bytable};
use crate::key_laws::lemma_be_value_front;
use crate::primary_key::{be_bytes, be_value, byte_range, lemma_be_roundtrip, lemma_be_value_bound, lemma_byte_range};

verus! {

pub(crate) proof fn lemma_be_value_concat(a: Seq<u8>, b: Seq<u8>)
    ensures
        be_value(a + b) == be_value(a) * byte_range(b.len()) + be_value(b),
    decreases b.len(),
{
    if b.len() == 0 {
        assert(a + b =~= a);
    } else {
        lemma_be_value_concat(a, b.drop_last());
        assert((a + b).drop_last() =~= a + b.drop_last());
        assert((a + b).last() == b.last());
        let r = byte_range(b.drop_last().len());
        assert((be_value(a) * r + be_value(b.drop_last())) * 256 + b.last()
            == be_value(a) * (256 * r) + (be_value(b.drop_last()) * 256 + b.last())) by (nonlinear_arith);
    }
}

proof fn lemma_fill_value(b: u8, k: nat)
    requires
        b == 0 || b == 0xff,
    ensures
        be_value(fill(b, k)) == if b == 0 { 0 } else { byte_range(k) - 1 },
    decreases k,
{
    if k > 0 {
        lemma_fill_value(b, (k - 1) as nat);
        assert(fill(b, k).drop_last() =~= fill(b, (k - 1) as nat));
    }
}

pub(crate) proof fn lemma_byte_range_add(k: nat, m: nat)
    ensures
        byte_range(k + m) == byte_range(k) * byte_range(m),
    decreases k,
{
    if k > 0 {
        lemma_byte_range_add((k - 1) as nat, m);
        assert((k + m - 1) as nat == ((k - 1) as nat + m) as nat);
        assert(256 * (byte_range((k - 1) as nat) * byte_range(m)) == (256 * byte_range((k - 1) as nat)) * byte_range(m))
            by (nonlinear_arith);
    }
}

/// The most significant byte of a number's bytes has its top bit set
/// exactly when the number is in the upper half of the range.
proof fn lemma_top_byte(v: int, m: nat)
    requires
        m >= 1,
        0 <= v < byte_range(m),
    ensures
        be_bytes(v, m)[0] >= 0x80 <==> v >= 0x80 * byte_range((m - 1) as nat),
{
    lemma_be_roundtrip(v, m);
    let s = be_bytes(v, m);
    lemma_be_value_front(s);
    lemma_be_value_bound(s.drop_first());
    let r = byte_range((m - 1) as nat);
    let rest = be_value(s.drop_first());
    if s[0] >= 0x80 {
        assert(s[0] * r + rest >= 0x80 * r) by (nonlinear_arith)
            requires s[0] >= 0x80, rest >= 0, r >= 0;
    } else {
        assert(s[0] * r + rest < 0x80 * r) by (nonlinear_arith)
            requires 0 <= s[0] <= 0x7f, rest < r, r >= 1;
    }
}

/// Writing a number's bits as bytes and reading them back gives the bits,
/// most significant byte first or, reversed, least significant first.
pub proof fn law_bytes_roundtrip(bits: int, n: nat)
    requires
        0 <= bits < byte_range(n),
    ensures
        be_value(be_bytes(bits, n)) == bits,
        be_value(be_bytes(bits, n).reverse().reverse()) == bits,
{
    lemma_be_roundtrip(bits, n);
    assert(be_bytes(bits, n).reverse().reverse() =~= be_bytes(bits, n));
}

/// Widening the bytes of an unsigned number with zeros in front keeps its
/// value.
pub proof fn law_zero_extension(x: int, m: nat, n: nat)
    requires
        1 <= m <= n,
        0 <= x < byte_range(m),
    ensures
        be_value(grown_be(be_bytes(x, m), n, false)) == x,
{
    lemma_be_roundtrip(x, m);
    let s = be_bytes(x, m);
    lemma_be_value_concat(fill(0, (n - m) as nat), s);
    lemma_fill_value(0, (n - m) as nat);
}

/// Widening the bytes of a signed number with copies of its sign keeps its
/// value: the wider bytes hold the two's complement bits of the same number.
pub proof fn law_sign_extension(x: int, m: nat, n: nat)
    requires
        1 <= m <= n,
        -(0x80 * byte_range((m - 1) as nat)) <= x < 0x80 * byte_range((m - 1) as nat),
    ensures
        be_value(grown_be(be_bytes(twos(x, m), m), n, true)) == twos(x, n),
{
    let half = 0x80 * byte_range((m - 1) as nat);
    assert(byte_range(m) == 2 * half);
    let t = twos(x, m);
    lemma_be_roundtrip(t, m);
    lemma_top_byte(t, m);
    let s = be_bytes(t, m);
    let k = (n - m) as nat;
    let e = extension_byte(s[0], true);
    lemma_be_value_concat(fill(e, k), s);
    lemma_fill_value(e, k);
    lemma_byte_range_add(k, m);
    assert((k + m) as nat == n);
    if x < 0 {
        assert(e == 0xff);
        assert((byte_range(k) - 1) * byte_range(m) + t == byte_range(k) * byte_range(m) + x) by (nonlinear_arith)
            requires t == x + byte_range(m);
    } else {
        assert(e == 0);
    }
}

/// `bits` is how `n` bytes hold the number `x`: the one value in
/// `[0, 256^n)` that differs from `x` by a multiple of `256^n`.
pub open spec fn holds_bits(bits: int, x: int, n: nat) -> bool {
    0 <= bits < byte_range(n) && (bits - x) % byte_range(n) == 0
}

/// A signed number is written to its bytes in two's complement: the bytes
/// `to_be_bytes` gives, read as an unsigned big-endian number, are the
/// number modulo `256^n` (so `-1` is all `0xff`), and `from_be_bytes` gives
/// the number whose bits its input spells.
pub proof fn law_signed_bytes_twos_complement(a: i8, b: i16, c: i32, d: i64, e: i128)
    ensures
        i8::spec_byte_len() == 1 && holds_bits(a.spec_bits(), a as int, 1),
        holds_bits(be_value(be_bytes(a.spec_bits(), i8::spec_byte_len())), a as int, 1),
        i16::spec_byte_len() == 2 && holds_bits(b.spec_bits(), b as int, 2),
        holds_bits(be_value(be_bytes(b.spec_bits(), i16::spec_byte_len())), b as int, 2),
        i32::spec_byte_len() == 4 && holds_bits(c.spec_bits(), c as int, 4),
        holds_bits(be_value(be_bytes(c.spec_bits(), i32::spec_byte_len())), c as int, 4),
        i64::spec_byte_len() == 8 && holds_bits(d.spec_bits(), d as int, 8),
        holds_bits(be_value(be_bytes(d.spec_bits(), i64::spec_byte_len())), d as int, 8),
        i128::spec_byte_len() == 16 && holds_bits(e.spec_bits(), e as int, 16),
        holds_bits(be_value(be_bytes(e.spec_bits(), i128::spec_byte_len())), e as int, 16),
{
    lemma_byte_range(1);
    lemma_byte_range(2);
    lemma_byte_range(4);
    lemma_byte_range(8);
    lemma_byte_range(16);
    lemma_be_roundtrip(a.spec_bits(), 1);
    lemma_be_roundtrip(b.spec_bits(), 2);
    lemma_be_roundtrip(c.spec_bits(), 4);
    lemma_be_roundtrip(d.spec_bits(), 8);
    lemma_be_roundtrip(e.spec_bits(), 16);
}

/// An unsigned number is written to its bytes as itself: the bytes
/// `to_be_bytes` gives, read as an unsigned big-endian number, are the
/// number.
pub proof fn law_unsigned_bytes_plain(a: u8, b: u16, c: u32, d: u64, e: u128)
    ensures
        u8::spec_byte_len() == 1 && u16::spec_byte_len() == 2 && u32::spec_byte_len() == 4,
        u64::spec_byte_len() == 8 && u128::spec_byte_len() == 16,
        be_value(be_bytes(a.spec_bits(), u8::spec_byte_len())) == a,
        be_value(be_bytes(b.spec_bits(), u16::spec_byte_len())) == b,
        be_value(be_bytes(c.spec_bits(), u32::spec_byte_len())) == c,
        be_value(be_bytes(d.spec_bits(), u64::spec_byte_len())) == d,
        be_value(be_bytes(e.spec_bits(), u128::spec_byte_len())) == e,
{
    lemma_byte_range(1);
    lemma_byte_range(2);
    lemma_byte_range(4);
    lemma_byte_range(8);
    lemma_byte_range(16);
    lemma_be_roundtrip(a as int, 1);
    lemma_be_roundtrip(b as int, 2);
    lemma_be_roundtrip(c as int, 4);
    lemma_be_roundtrip(d as int, 8);
    lemma_be_roundtrip(e as int, 16);
}

} // verus!
