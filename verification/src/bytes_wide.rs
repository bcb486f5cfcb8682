use vstd::prelude::*;
use crate::byte_laws::{holds_bits, lemma_be_value_concat, lemma_byte_range_add};
use crate::bytes::{grow_be_int, grow_be_uint, grow_le_int, grow_le_uint, reversed, Bytable};
use crate::primary_key::{be_bytes, be_bytes_of, be_value, byte_range, lemma_be_bytes_of_value, lemma_be_roundtrip, lemma_byte_range};
use crate::wide::{digits_value, lemma_u256_range, I256, U256};
use crate::wide512::{b256, I512, U512};

verus! {

/// `2^256` bytes-wise: the range of 32 bytes.
pub(crate) proof fn lemma_byte_range_32()
    ensures
        byte_range(32) == b256(),
{
    lemma_byte_range(16);
    lemma_byte_range_add(16, 16);
}

/// The 32 big-endian bytes of four 64-bit digits, most significant digit
/// first.
pub(crate) fn digits_be_bytes(d0: u64, d1: u64, d2: u64, d3: u64) -> (r: Vec<u8>)
    ensures
        r@ == be_bytes(digits_value(d0, d1, d2, d3), 32),
{
    let mut r = be_bytes_of(d3 as u128, 8);
    let mut b2 = be_bytes_of(d2 as u128, 8);
    let mut b1 = be_bytes_of(d1 as u128, 8);
    let mut b0 = be_bytes_of(d0 as u128, 8);
    let ghost s3 = r@;
    let ghost s2 = b2@;
    let ghost s1 = b1@;
    let ghost s0 = b0@;
    r.append(&mut b2);
    r.append(&mut b1);
    r.append(&mut b0);
    proof {
        let big = 0x1_0000_0000_0000_0000int;
        lemma_byte_range(8);
        lemma_be_roundtrip(d3 as int, 8);
        lemma_be_roundtrip(d2 as int, 8);
        lemma_be_roundtrip(d1 as int, 8);
        lemma_be_roundtrip(d0 as int, 8);
        lemma_be_value_concat(s3, s2);
        lemma_be_value_concat(s3 + s2, s1);
        lemma_be_value_concat(s3 + s2 + s1, s0);
        assert(r@ == s3 + s2 + s1 + s0);
        assert(be_value(r@) == ((d3 * big + d2) * big + d1) * big + d0);
        assert(((d3 * big + d2) * big + d1) * big + d0 == digits_value(d0, d1, d2, d3)) by (nonlinear_arith)
            requires
                big == 0x1_0000_0000_0000_0000int,
        ;
        lemma_be_bytes_of_value(r@);
    }
    r
}

/// `bnum::types::U256::from_be_slice`: the number whose big-endian bytes
/// are `data`; with exactly 32 bytes it always succeeds.
#[verifier::external_body]
pub(crate) fn u256_from_be_slice(data: &[u8]) -> (r: U256)
    requires
        data@.len() == 32,
    ensures
        r.value() == be_value(data@),
{
    let d = *bnum::types::U256::from_be_slice(data).unwrap().digits();
    U256 { d0: d[0], d1: d[1], d2: d[2], d3: d[3] }
}

/// `bnum::types::U256::from_le_slice`: the number whose little-endian bytes
/// are `data`; with exactly 32 bytes it always succeeds.
#[verifier::external_body]
pub(crate) fn u256_from_le_slice(data: &[u8]) -> (r: U256)
    requires
        data@.len() == 32,
    ensures
        r.value() == be_value(data@.reverse()),
{
    let d = *bnum::types::U256::from_le_slice(data).unwrap().digits();
    U256 { d0: d[0], d1: d[1], d2: d[2], d3: d[3] }
}

/// `bnum::types::I256::from_be_slice`: the number whose two's complement
/// big-endian bytes are `data`; with exactly 32 bytes it always succeeds
/// and the bits are the bytes.
#[verifier::external_body]
pub(crate) fn i256_from_be_slice(data: &[u8]) -> (r: I256)
    requires
        data@.len() == 32,
    ensures
        digits_value(r.d0, r.d1, r.d2, r.d3) == be_value(data@),
{
    let d = *bnum::types::I256::from_be_slice(data).unwrap().to_bits().digits();
    I256 { d0: d[0], d1: d[1], d2: d[2], d3: d[3] }
}

/// `bnum::types::I256::from_le_slice`: the number whose two's complement
/// little-endian bytes are `data`; with exactly 32 bytes it always succeeds
/// and the bits are the bytes.
#[verifier::external_body]
pub(crate) fn i256_from_le_slice(data: &[u8]) -> (r: I256)
    requires
        data@.len() == 32,
    ensures
        digits_value(r.d0, r.d1, r.d2, r.d3) == be_value(data@.reverse()),
{
    let d = *bnum::types::I256::from_le_slice(data).unwrap().to_bits().digits();
    I256 { d0: d[0], d1: d[1], d2: d[2], d3: d[3] }
}

/// `bnum::types::U512::from_be_slice`: the number whose big-endian bytes
/// are `data`; with exactly 64 bytes it always succeeds.
#[verifier::external_body]
pub(crate) fn u512_from_be_slice(data: &[u8]) -> (r: U512)
    requires
        data@.len() == 64,
    ensures
        r.value() == be_value(data@),
{
    U512::from_digits(*bnum::types::U512::from_be_slice(data).unwrap().digits())
}

/// `bnum::types::U512::from_le_slice`: the number whose little-endian bytes
/// are `data`; with exactly 64 bytes it always succeeds.
#[verifier::external_body]
pub(crate) fn u512_from_le_slice(data: &[u8]) -> (r: U512)
    requires
        data@.len() == 64,
    ensures
        r.value() == be_value(data@.reverse()),
{
    U512::from_digits(*bnum::types::U512::from_le_slice(data).unwrap().digits())
}

/// `bnum::types::I512::from_be_slice`: the number whose two's complement
/// big-endian bytes are `data`; with exactly 64 bytes it always succeeds
/// and the bits are the bytes.
#[verifier::external_body]
pub(crate) fn i512_from_be_slice(data: &[u8]) -> (r: I512)
    requires
        data@.len() == 64,
    ensures
        r.lo.value() + r.hi.value() * b256() == be_value(data@),
{
    I512::from_digits(*bnum::types::I512::from_be_slice(data).unwrap().to_bits().digits())
}

/// `bnum::types::I512::from_le_slice`: the number whose two's complement
/// little-endian bytes are `data`; with exactly 64 bytes it always succeeds
/// and the bits are the bytes.
#[verifier::external_body]
pub(crate) fn i512_from_le_slice(data: &[u8]) -> (r: I512)
    requires
        data@.len() == 64,
    ensures
        r.lo.value() + r.hi.value() * b256() == be_value(data@.reverse()),
{
    I512::from_digits(*bnum::types::I512::from_le_slice(data).unwrap().to_bits().digits())
}

/// The 64 big-endian bytes of a number held as two 256-bit halves.
pub(crate) fn halves_be_bytes(lo: U256, hi: U256) -> (r: Vec<u8>)
    ensures
        r@ == be_bytes(lo.value() + hi.value() * b256(), 64),
{
    let mut r = digits_be_bytes(hi.d0, hi.d1, hi.d2, hi.d3);
    let mut l = digits_be_bytes(lo.d0, lo.d1, lo.d2, lo.d3);
    proof {
        lemma_byte_range_32();
        lemma_u256_range(lo);
        lemma_u256_range(hi);
        lemma_be_roundtrip(hi.value(), 32);
        lemma_be_roundtrip(lo.value(), 32);
        lemma_be_value_concat(r@, l@);
    }
    r.append(&mut l);
    proof {
        lemma_be_bytes_of_value(r@);
    }
    r
}

impl Bytable for U256 {
    open spec fn spec_byte_len() -> nat {
        32
    }

    open spec fn spec_bits(self) -> int {
        self.value()
    }

    open spec fn spec_signed() -> bool {
        false
    }

    fn BYTE_LEN() -> (r: usize) {
        32
    }

    fn from_be_bytes(data: &[u8]) -> (r: Self) {
        u256_from_be_slice(data)
    }

    fn from_le_bytes(data: &[u8]) -> (r: Self) {
        u256_from_le_slice(data)
    }

    fn to_be_bytes(self) -> (r: Vec<u8>) {
        digits_be_bytes(self.d0, self.d1, self.d2, self.d3)
    }

    fn to_le_bytes(self) -> (r: Vec<u8>) {
        let be = digits_be_bytes(self.d0, self.d1, self.d2, self.d3);
        reversed(be.as_slice())
    }

    fn grow_be_bytes(data: &[u8]) -> (r: Vec<u8>) {
        grow_be_uint(data, 32)
    }

    fn grow_le_bytes(data: &[u8]) -> (r: Vec<u8>) {
        grow_le_uint(data, 32)
    }
}

impl Bytable for I256 {
    open spec fn spec_byte_len() -> nat {
        32
    }

    /// The two's complement bits, read as an unsigned number.
    open spec fn spec_bits(self) -> int {
        digits_value(self.d0, self.d1, self.d2, self.d3)
    }

    open spec fn spec_signed() -> bool {
        true
    }

    fn BYTE_LEN() -> (r: usize) {
        32
    }

    fn from_be_bytes(data: &[u8]) -> (r: Self) {
        i256_from_be_slice(data)
    }

    fn from_le_bytes(data: &[u8]) -> (r: Self) {
        i256_from_le_slice(data)
    }

    fn to_be_bytes(self) -> (r: Vec<u8>) {
        digits_be_bytes(self.d0, self.d1, self.d2, self.d3)
    }

    fn to_le_bytes(self) -> (r: Vec<u8>) {
        let be = digits_be_bytes(self.d0, self.d1, self.d2, self.d3);
        reversed(be.as_slice())
    }

    fn grow_be_bytes(data: &[u8]) -> (r: Vec<u8>) {
        grow_be_int(data, 32)
    }

    fn grow_le_bytes(data: &[u8]) -> (r: Vec<u8>) {
        grow_le_int(data, 32)
    }
}

impl Bytable for U512 {
    open spec fn spec_byte_len() -> nat {
        64
    }

    open spec fn spec_bits(self) -> int {
        self.value()
    }

    open spec fn spec_signed() -> bool {
        false
    }

    fn BYTE_LEN() -> (r: usize) {
        64
    }

    fn from_be_bytes(data: &[u8]) -> (r: Self) {
        u512_from_be_slice(data)
    }

    fn from_le_bytes(data: &[u8]) -> (r: Self) {
        u512_from_le_slice(data)
    }

    fn to_be_bytes(self) -> (r: Vec<u8>) {
        halves_be_bytes(self.lo, self.hi)
    }

    fn to_le_bytes(self) -> (r: Vec<u8>) {
        let be = halves_be_bytes(self.lo, self.hi);
        reversed(be.as_slice())
    }

    fn grow_be_bytes(data: &[u8]) -> (r: Vec<u8>) {
        grow_be_uint(data, 64)
    }

    fn grow_le_bytes(data: &[u8]) -> (r: Vec<u8>) {
        grow_le_uint(data, 64)
    }
}

impl Bytable for I512 {
    open spec fn spec_byte_len() -> nat {
        64
    }

    /// The two's complement bits, read as an unsigned number.
    open spec fn spec_bits(self) -> int {
        self.lo.value() + self.hi.value() * b256()
    }

    open spec fn spec_signed() -> bool {
        true
    }

    fn BYTE_LEN() -> (r: usize) {
        64
    }

    fn from_be_bytes(data: &[u8]) -> (r: Self) {
        i512_from_be_slice(data)
    }

    fn from_le_bytes(data: &[u8]) -> (r: Self) {
        i512_from_le_slice(data)
    }

    fn to_be_bytes(self) -> (r: Vec<u8>) {
        halves_be_bytes(self.lo, self.hi)
    }

    fn to_le_bytes(self) -> (r: Vec<u8>) {
        let be = halves_be_bytes(self.lo, self.hi);
        reversed(be.as_slice())
    }

    fn grow_be_bytes(data: &[u8]) -> (r: Vec<u8>) {
        grow_be_int(data, 64)
    }

    fn grow_le_bytes(data: &[u8]) -> (r: Vec<u8>) {
        grow_le_int(data, 64)
    }
}

/// The wide numbers are written to their bytes as the narrow ones are: an
/// unsigned number as itself, a signed one in two's complement, so the bytes
/// `to_be_bytes` gives, read as an unsigned big-endian number, are the
/// number modulo `256^n`.
pub proof fn law_wide_bytes_twos_complement(a: U256, b: I256, c: U512, d: I512)
    ensures
        U256::spec_byte_len() == 32 && a.spec_bits() == a.value(),
        holds_bits(be_value(be_bytes(a.spec_bits(), U256::spec_byte_len())), a.value(), 32),
        I256::spec_byte_len() == 32 && holds_bits(b.spec_bits(), b.value(), 32),
        holds_bits(be_value(be_bytes(b.spec_bits(), I256::spec_byte_len())), b.value(), 32),
        U512::spec_byte_len() == 64 && c.spec_bits() == c.value(),
        holds_bits(be_value(be_bytes(c.spec_bits(), U512::spec_byte_len())), c.value(), 64),
        I512::spec_byte_len() == 64 && holds_bits(d.spec_bits(), d.value(), 64),
        holds_bits(be_value(be_bytes(d.spec_bits(), I512::spec_byte_len())), d.value(), 64),
{
    lemma_byte_range_32();
    lemma_byte_range_add(32, 32);
    lemma_u256_range(a);
    lemma_u256_range(U256 { d0: b.d0, d1: b.d1, d2: b.d2, d3: b.d3 });
    lemma_u256_range(c.lo);
    lemma_u256_range(c.hi);
    lemma_u256_range(d.lo);
    lemma_u256_range(d.hi);
    let m = b256();
    assert(0 <= c.lo.value() + c.hi.value() * m < m * m) by (nonlinear_arith)
        requires 0 <= c.lo.value() < m, 0 <= c.hi.value() < m;
    assert(0 <= d.lo.value() + d.hi.value() * m < m * m) by (nonlinear_arith)
        requires 0 <= d.lo.value() < m, 0 <= d.hi.value() < m;
    assert((m * m) % (m * m) == 0) by (nonlinear_arith)
        requires m > 0;
    assert(0int % (m * m) == 0) by (nonlinear_arith)
        requires m > 0;
    lemma_be_roundtrip(a.value(), 32);
    lemma_be_roundtrip(b.spec_bits(), 32);
    lemma_be_roundtrip(c.value(), 64);
    lemma_be_roundtrip(d.spec_bits(), 64);
}

} // verus!
