use vstd::prelude::*;
use crate::dec::Dec;
use crate::bytes_wide::{digits_be_bytes, halves_be_bytes, i256_from_be_slice, i512_from_be_slice, u256_from_be_slice, u512_from_be_slice};
use crate::encoding::views;
use crate::byte_laws::lemma_byte_range_add;
use crate::bytes_wide::lemma_byte_range_32;
use crate::key_laws::{law_integer_key_order, lex_lt};
use crate::primary_key::{be_bytes, be_value, byte_range, key_error, lemma_be_roundtrip, wrong_length, wrong_length_text, PrimaryKey, StdError, StdResult};
use crate::wide::{digits_value, lemma_i256_range, lemma_u256_range, I256, U256};
use crate::wide512::{b256, I512, U512};

verus! {

/// `2^255`: the offset that maps the signed 256-bit range onto the
/// unsigned one, order kept.
pub open spec fn offset_256() -> int {
    0x8000_0000_0000_0000_0000_0000_0000_0000_0000_0000_0000_0000_0000_0000_0000_0000int
}

/// `2^511`: the offset that maps the signed 512-bit range onto the
/// unsigned one, order kept.
pub open spec fn offset_512() -> int {
    b256() * b256() / 2
}

/// The top digit with its sign bit flipped.
fn flip_sign_bit(d: u64) -> (r: u64)
    ensures
        r == if d >= 0x8000_0000_0000_0000 { d - 0x8000_0000_0000_0000 } else { d + 0x8000_0000_0000_0000 },
{
    let r = d ^ 0x8000_0000_0000_0000u64;
    assert(r == if d >= 0x8000_0000_0000_0000u64 { (d - 0x8000_0000_0000_0000u64) as u64 } else { (d + 0x8000_0000_0000_0000u64) as u64 }) by (bit_vector)
        requires
            r == d ^ 0x8000_0000_0000_0000u64,
    ;
    r
}

/// The signed 256-bit number whose bits, read unsigned, are `value` less the
/// offset; `bits` holds `value`'s digits.
fn i256_offset(bits: I256) -> (r: I256)
    ensures
        r.value() == digits_value(bits.d0, bits.d1, bits.d2, bits.d3) - offset_256(),
        digits_value(r.d0, r.d1, r.d2, r.d3) == bits.value() + offset_256(),
{
    I256 { d0: bits.d0, d1: bits.d1, d2: bits.d2, d3: flip_sign_bit(bits.d3) }
}

impl PrimaryKey for U256 {
    type Prefix = ();
    type Suffix = ();
    type Output = U256;

    open spec fn spec_raw_keys(&self) -> Seq<Seq<u8>> {
        seq![be_bytes(self.value(), 32)]
    }

    open spec fn spec_key_elems() -> nat {
        1
    }

    open spec fn spec_decodable(bytes: Seq<u8>) -> bool {
        true
    }

    open spec fn spec_decodes(bytes: Seq<u8>) -> bool {
        bytes.len() == 32
    }

    open spec fn spec_decoded(bytes: Seq<u8>, out: U256) -> bool {
        out.value() == be_value(bytes)
    }

    fn KEY_ELEMS() -> (r: u8) {
        1
    }

    fn raw_keys(&self) -> (r: Vec<Vec<u8>>) {
        let r = vec![digits_be_bytes(self.d0, self.d1, self.d2, self.d3)];
        proof {
            assert(views(r@) =~= self.spec_raw_keys());
        }
        r
    }

    fn from_slice(bytes: &[u8]) -> (r: StdResult<U256>)
        ensures
            r matches Err(e) ==> key_error(e, wrong_length_text(32, bytes@.len() as int)),
    {
        if bytes.len() != 32 {
            return Err(StdError::deserialize("key", wrong_length(32, bytes.len())));
        }
        Ok(u256_from_be_slice(bytes))
    }
}

impl PrimaryKey for I256 {
    type Prefix = ();
    type Suffix = ();
    type Output = I256;

    /// The bits with the sign bit flipped, so that the bytes order as the
    /// numbers do.
    open spec fn spec_raw_keys(&self) -> Seq<Seq<u8>> {
        seq![be_bytes(self.value() + offset_256(), 32)]
    }

    open spec fn spec_key_elems() -> nat {
        1
    }

    open spec fn spec_decodable(bytes: Seq<u8>) -> bool {
        true
    }

    open spec fn spec_decodes(bytes: Seq<u8>) -> bool {
        bytes.len() == 32
    }

    open spec fn spec_decoded(bytes: Seq<u8>, out: I256) -> bool {
        out.value() == be_value(bytes) - offset_256()
    }

    fn KEY_ELEMS() -> (r: u8) {
        1
    }

    fn raw_keys(&self) -> (r: Vec<Vec<u8>>) {
        let k = i256_offset(*self);
        let r = vec![digits_be_bytes(k.d0, k.d1, k.d2, k.d3)];
        proof {
            assert(views(r@) =~= self.spec_raw_keys());
        }
        r
    }

    fn from_slice(bytes: &[u8]) -> (r: StdResult<I256>)
        ensures
            r matches Err(e) ==> key_error(e, wrong_length_text(32, bytes@.len() as int)),
    {
        if bytes.len() != 32 {
            return Err(StdError::deserialize("key", wrong_length(32, bytes.len())));
        }
        Ok(i256_offset(i256_from_be_slice(bytes)))
    }
}

/// The signed 512-bit number whose bits, read unsigned, are `value` less the
/// offset; `bits` holds `value`'s digits.
fn i512_offset(bits: I512) -> (r: I512)
    ensures
        r.value() == bits.lo.value() + bits.hi.value() * b256() - offset_512(),
        r.lo.value() + r.hi.value() * b256() == bits.value() + offset_512(),
{
    let hi = bits.hi;
    I512 { lo: bits.lo, hi: U256 { d0: hi.d0, d1: hi.d1, d2: hi.d2, d3: flip_sign_bit(hi.d3) } }
}

impl PrimaryKey for U512 {
    type Prefix = ();
    type Suffix = ();
    type Output = U512;

    open spec fn spec_raw_keys(&self) -> Seq<Seq<u8>> {
        seq![be_bytes(self.value(), 64)]
    }

    open spec fn spec_key_elems() -> nat {
        1
    }

    open spec fn spec_decodable(bytes: Seq<u8>) -> bool {
        true
    }

    open spec fn spec_decodes(bytes: Seq<u8>) -> bool {
        bytes.len() == 64
    }

    open spec fn spec_decoded(bytes: Seq<u8>, out: U512) -> bool {
        out.value() == be_value(bytes)
    }

    fn KEY_ELEMS() -> (r: u8) {
        1
    }

    fn raw_keys(&self) -> (r: Vec<Vec<u8>>) {
        let r = vec![halves_be_bytes(self.lo, self.hi)];
        proof {
            assert(views(r@) =~= self.spec_raw_keys());
        }
        r
    }

    fn from_slice(bytes: &[u8]) -> (r: StdResult<U512>)
        ensures
            r matches Err(e) ==> key_error(e, wrong_length_text(64, bytes@.len() as int)),
    {
        if bytes.len() != 64 {
            return Err(StdError::deserialize("key", wrong_length(64, bytes.len())));
        }
        Ok(u512_from_be_slice(bytes))
    }
}

impl PrimaryKey for I512 {
    type Prefix = ();
    type Suffix = ();
    type Output = I512;

    /// The bits with the sign bit flipped, so that the bytes order as the
    /// numbers do.
    open spec fn spec_raw_keys(&self) -> Seq<Seq<u8>> {
        seq![be_bytes(self.value() + offset_512(), 64)]
    }

    open spec fn spec_key_elems() -> nat {
        1
    }

    open spec fn spec_decodable(bytes: Seq<u8>) -> bool {
        true
    }

    open spec fn spec_decodes(bytes: Seq<u8>) -> bool {
        bytes.len() == 64
    }

    open spec fn spec_decoded(bytes: Seq<u8>, out: I512) -> bool {
        out.value() == be_value(bytes) - offset_512()
    }

    fn KEY_ELEMS() -> (r: u8) {
        1
    }

    fn raw_keys(&self) -> (r: Vec<Vec<u8>>) {
        let k = i512_offset(*self);
        let r = vec![halves_be_bytes(k.lo, k.hi)];
        proof {
            assert(views(r@) =~= self.spec_raw_keys());
        }
        r
    }

    fn from_slice(bytes: &[u8]) -> (r: StdResult<I512>)
        ensures
            r matches Err(e) ==> key_error(e, wrong_length_text(64, bytes@.len() as int)),
    {
        if bytes.len() != 64 {
            return Err(StdError::deserialize("key", wrong_length(64, bytes.len())));
        }
        Ok(i512_offset(i512_from_be_slice(bytes)))
    }
}

/// A 512-bit value, as its halves read it, lies in the range of 64 bytes.
proof fn lemma_halves_range(lo: U256, hi: U256)
    ensures
        byte_range(64) == b256() * b256(),
        0 <= lo.value() + hi.value() * b256() < b256() * b256(),
{
    lemma_byte_range_32();
    lemma_byte_range_add(32, 32);
    lemma_u256_range(lo);
    lemma_u256_range(hi);
    let l = lo.value();
    let h = hi.value();
    assert(0 <= l + h * b256() < b256() * b256()) by (nonlinear_arith)
        requires
            0 <= l < b256(),
            0 <= h < b256(),
    ;
}

/// Reading back the raw key of a `U256` gives the number.
pub proof fn law_u256_key_roundtrip(x: U256)
    ensures
        x.spec_raw_keys().len() == 1,
        U256::spec_decodes(x.spec_raw_keys()[0]),
        U256::spec_decoded(x.spec_raw_keys()[0], x),
{
    lemma_byte_range_32();
    lemma_u256_range(x);
    lemma_be_roundtrip(x.value(), 32);
}

/// `U256` keys are 32 bytes long and sort as the numbers do.
pub proof fn law_u256_key_order(x: U256, y: U256)
    ensures
        x.spec_raw_keys()[0].len() == 32,
        lex_lt(x.spec_raw_keys()[0], y.spec_raw_keys()[0]) <==> x.value() < y.value(),
{
    lemma_byte_range_32();
    lemma_u256_range(x);
    lemma_u256_range(y);
    lemma_be_roundtrip(x.value(), 32);
    law_integer_key_order(x.value(), y.value(), 32);
}

/// Reading back the raw key of an `I256` gives the number.
pub proof fn law_i256_key_roundtrip(x: I256)
    ensures
        x.spec_raw_keys().len() == 1,
        I256::spec_decodes(x.spec_raw_keys()[0]),
        I256::spec_decoded(x.spec_raw_keys()[0], x),
{
    lemma_byte_range_32();
    lemma_i256_range(x);
    lemma_be_roundtrip(x.value() + offset_256(), 32);
}

/// `I256` keys sort as the numbers do: the raw key of the smaller number
/// comes first byte by byte.
pub proof fn law_i256_key_order(x: I256, y: I256)
    ensures
        lex_lt(x.spec_raw_keys()[0], y.spec_raw_keys()[0]) <==> x.value() < y.value(),
{
    lemma_byte_range_32();
    lemma_i256_range(x);
    lemma_i256_range(y);
    law_integer_key_order(x.value() + offset_256(), y.value() + offset_256(), 32);
}

/// Reading back the raw key of a `U512` gives the number.
pub proof fn law_u512_key_roundtrip(x: U512)
    ensures
        x.spec_raw_keys().len() == 1,
        U512::spec_decodes(x.spec_raw_keys()[0]),
        U512::spec_decoded(x.spec_raw_keys()[0], x),
{
    lemma_halves_range(x.lo, x.hi);
    lemma_be_roundtrip(x.value(), 64);
}

/// `U512` keys are 64 bytes long and sort as the numbers do.
pub proof fn law_u512_key_order(x: U512, y: U512)
    ensures
        x.spec_raw_keys()[0].len() == 64,
        lex_lt(x.spec_raw_keys()[0], y.spec_raw_keys()[0]) <==> x.value() < y.value(),
{
    lemma_halves_range(x.lo, x.hi);
    lemma_halves_range(y.lo, y.hi);
    lemma_be_roundtrip(x.value(), 64);
    law_integer_key_order(x.value(), y.value(), 64);
}

/// Reading back the raw key of an `I512` gives the number.
pub proof fn law_i512_key_roundtrip(x: I512)
    ensures
        x.spec_raw_keys().len() == 1,
        I512::spec_decodes(x.spec_raw_keys()[0]),
        I512::spec_decoded(x.spec_raw_keys()[0], x),
{
    lemma_halves_range(x.lo, x.hi);
    lemma_be_roundtrip(x.value() + offset_512(), 64);
}

/// `I512` keys sort as the numbers do: the raw key of the smaller number
/// comes first byte by byte.
pub proof fn law_i512_key_order(x: I512, y: I512)
    ensures
        lex_lt(x.spec_raw_keys()[0], y.spec_raw_keys()[0]) <==> x.value() < y.value(),
{
    lemma_halves_range(x.lo, x.hi);
    lemma_halves_range(y.lo, y.hi);
    law_integer_key_order(x.value() + offset_512(), y.value() + offset_512(), 64);
}

/// Unsigned 256-bit decimal keys sort as the decimals do: the raw key of the
/// smaller decimal comes first byte by byte.
pub proof fn law_udec256_key_order<const S: u32>(x: Dec<U256, S>, y: Dec<U256, S>)
    ensures
        lex_lt(x.spec_raw_keys()[0], y.spec_raw_keys()[0]) <==> x.0.0.value() < y.0.0.value(),
{
    lemma_byte_range_32();
    lemma_u256_range(x.0.0);
    lemma_u256_range(y.0.0);
    law_integer_key_order(x.0.0.value(), y.0.0.value(), 32);
}

/// Signed 256-bit decimal keys sort as the decimals do: the raw key of the
/// smaller decimal comes first byte by byte.
pub proof fn law_dec256_key_order<const S: u32>(x: Dec<I256, S>, y: Dec<I256, S>)
    ensures
        lex_lt(x.spec_raw_keys()[0], y.spec_raw_keys()[0]) <==> x.0.0.value() < y.0.0.value(),
{
    law_i256_key_order(x.0.0, y.0.0);
}

} // verus!
