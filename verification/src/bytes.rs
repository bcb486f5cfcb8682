use vstd::prelude::*;
use crate::int_types::Int;
use crate::primary_key::{be_bytes, be_bytes_of, be_value, be_value_of, byte_range, lemma_be_value_bound, lemma_byte_range};

verus! {

/// The bits of `x` read as an unsigned number of `n` bytes: two's
/// complement for negative numbers.
pub open spec fn twos(x: int, n: nat) -> int {
    if x < 0 { x + byte_range(n) } else { x }
}

/// `n` copies of the byte `b`.
pub open spec fn fill(b: u8, n: nat) -> Seq<u8> {
    Seq::new(n, |i: int| b)
}

/// The byte that widens a number whose most significant byte is `top`:
/// all ones below a set sign bit when `signed`, zeros otherwise.
pub open spec fn extension_byte(top: u8, signed: bool) -> u8 {
    if signed && top >= 0x80 { 0xff } else { 0 }
}

/// `input` widened to `n` bytes, most significant first: the new bytes go
/// in front.
pub open spec fn grown_be(input: Seq<u8>, n: nat, signed: bool) -> Seq<u8> {
    fill(extension_byte(input[0], signed), (n - input.len()) as nat) + input
}

/// `input` widened to `n` bytes, least significant first: the new bytes go
/// at the end.
pub open spec fn grown_le(input: Seq<u8>, n: nat, signed: bool) -> Seq<u8> {
    input + fill(extension_byte(input[input.len() - 1], signed), (n - input.len()) as nat)
}

/// `input` widened to `output_size` bytes, most significant first, with
/// zeros in front.
pub fn grow_be_uint(input: &[u8], output_size: usize) -> (r: Vec<u8>)
    requires
        input@.len() <= output_size,
    ensures
        r@ == fill(0, (output_size - input@.len()) as nat) + input@,
{
    let mut out: Vec<u8> = Vec::new();
    let k = output_size - input.len();
    let mut i: usize = 0;
    while i < k
        invariant
            i <= k,
            out@ == fill(0, i as nat),
        decreases k - i,
    {
        out.push(0);
        i = i + 1;
        proof {
            assert(out@ =~= fill(0, i as nat));
        }
    }
    crate::encoding::extend_bytes(&mut out, input);
    out
}

/// `input` widened to `output_size` bytes, least significant first, with
/// zeros at the end.
pub fn grow_le_uint(input: &[u8], output_size: usize) -> (r: Vec<u8>)
    requires
        input@.len() <= output_size,
    ensures
        r@ == input@ + fill(0, (output_size - input@.len()) as nat),
{
    let mut out = vstd::slice::slice_to_vec(input);
    let k = output_size - input.len();
    let mut i: usize = 0;
    while i < k
        invariant
            i <= k,
            out@ == input@ + fill(0, i as nat),
        decreases k - i,
    {
        out.push(0);
        i = i + 1;
        proof {
            assert(out@ =~= input@ + fill(0, i as nat));
        }
    }
    out
}

/// `input`, the bytes of a signed number, widened to `output_size` bytes,
/// most significant first: the sign fills the new bytes in front.
pub fn grow_be_int(input: &[u8], output_size: usize) -> (r: Vec<u8>)
    requires
        1 <= input@.len() <= output_size,
    ensures
        r@ == grown_be(input@, output_size as nat, true),
{
    let b: u8 = if input[0] >= 0x80 { 0xff } else { 0 };
    let mut out: Vec<u8> = Vec::new();
    let k = output_size - input.len();
    let mut i: usize = 0;
    while i < k
        invariant
            i <= k,
            out@ == fill(b, i as nat),
        decreases k - i,
    {
        out.push(b);
        i = i + 1;
        proof {
            assert(out@ =~= fill(b, i as nat));
        }
    }
    crate::encoding::extend_bytes(&mut out, input);
    out
}

/// `input`, the bytes of a signed number, widened to `output_size` bytes,
/// least significant first: the sign fills the new bytes at the end.
pub fn grow_le_int(input: &[u8], output_size: usize) -> (r: Vec<u8>)
    requires
        1 <= input@.len() <= output_size,
    ensures
        r@ == grown_le(input@, output_size as nat, true),
{
    let b: u8 = if input[input.len() - 1] >= 0x80 { 0xff } else { 0 };
    let mut out = vstd::slice::slice_to_vec(input);
    let k = output_size - input.len();
    let mut i: usize = 0;
    while i < k
        invariant
            i <= k,
            out@ == input@ + fill(b, i as nat),
        decreases k - i,
    {
        out.push(b);
        i = i + 1;
        proof {
            assert(out@ =~= input@ + fill(b, i as nat));
        }
    }
    out
}

/// `b` in reverse order.
pub fn reversed(b: &[u8]) -> (r: Vec<u8>)
    ensures
        r@ == b@.reverse(),
{
    let mut out: Vec<u8> = Vec::new();
    let mut i: usize = b.len();
    while i > 0
        invariant
            i <= b@.len(),
            out@.len() == b@.len() - i,
            forall|j: int| 0 <= j < out@.len() ==> out@[j] == b@[b@.len() - 1 - j],
        decreases i,
    {
        i = i - 1;
        out.push(b[i]);
    }
    proof {
        assert(out@ =~= b@.reverse());
    }
    out
}

/// Describes a number that can be turned into and read from its raw bytes.
pub trait Bytable: Sized {
    /// The number of bytes.
    spec fn spec_byte_len() -> nat;

    /// The number's bits, read as an unsigned number.
    spec fn spec_bits(self) -> int;

    /// Whether the bytes hold a sign.
    spec fn spec_signed() -> bool;

    #[allow(non_snake_case)]
    fn BYTE_LEN() -> (r: usize)
        ensures
            r == Self::spec_byte_len(),
    ;

    fn from_be_bytes(data: &[u8]) -> (r: Self)
        requires
            data@.len() == Self::spec_byte_len(),
        ensures
            r.spec_bits() == be_value(data@),
    ;

    fn from_le_bytes(data: &[u8]) -> (r: Self)
        requires
            data@.len() == Self::spec_byte_len(),
        ensures
            r.spec_bits() == be_value(data@.reverse()),
    ;

    fn to_be_bytes(self) -> (r: Vec<u8>)
        ensures
            r@ == be_bytes(self.spec_bits(), Self::spec_byte_len()),
    ;

    fn to_le_bytes(self) -> (r: Vec<u8>)
        ensures
            r@ == be_bytes(self.spec_bits(), Self::spec_byte_len()).reverse(),
    ;

    /// The bytes of a narrower number, most significant first, widened to
    /// this number's size.
    fn grow_be_bytes(data: &[u8]) -> (r: Vec<u8>)
        requires
            1 <= data@.len() <= Self::spec_byte_len(),
        ensures
            r@ == grown_be(data@, Self::spec_byte_len(), Self::spec_signed()),
    ;

    /// The bytes of a narrower number, least significant first, widened to
    /// this number's size.
    fn grow_le_bytes(data: &[u8]) -> (r: Vec<u8>)
        requires
            1 <= data@.len() <= Self::spec_byte_len(),
        ensures
            r@ == grown_le(data@, Self::spec_byte_len(), Self::spec_signed()),
    ;

    fn from_be_bytes_growing(data: &[u8]) -> (r: Self)
        requires
            1 <= data@.len() <= Self::spec_byte_len(),
        ensures
            r.spec_bits() == be_value(grown_be(data@, Self::spec_byte_len(), Self::spec_signed())),
    {
        let grown = Self::grow_be_bytes(data);
        Self::from_be_bytes(grown.as_slice())
    }

    fn from_le_bytes_growing(data: &[u8]) -> (r: Self)
        requires
            1 <= data@.len() <= Self::spec_byte_len(),
        ensures
            r.spec_bits() == be_value(grown_le(data@, Self::spec_byte_len(), Self::spec_signed()).reverse()),
    {
        let grown = Self::grow_le_bytes(data);
        Self::from_le_bytes(grown.as_slice())
    }
}

impl Bytable for u8 {
    open spec fn spec_byte_len() -> nat {
        1
    }

    open spec fn spec_bits(self) -> int {
        self as int
    }

    open spec fn spec_signed() -> bool {
        false
    }

    fn BYTE_LEN() -> (r: usize) {
        1
    }

    fn from_be_bytes(data: &[u8]) -> (r: Self) {
        proof {
            lemma_be_value_bound(data@);
            lemma_byte_range(1);
        }
        let u = be_value_of(data);
        u as u8
    }

    fn from_le_bytes(data: &[u8]) -> (r: Self) {
        let be = reversed(data);
        <Self as Bytable>::from_be_bytes(be.as_slice())
    }

    fn to_be_bytes(self) -> (r: Vec<u8>) {
        proof {
            lemma_byte_range(1);
        }
        let u: u128 = self as u128;
        be_bytes_of(u, 1)
    }

    fn to_le_bytes(self) -> (r: Vec<u8>) {
        let be = <Self as Bytable>::to_be_bytes(self);
        reversed(be.as_slice())
    }

    fn grow_be_bytes(data: &[u8]) -> (r: Vec<u8>) {
        grow_be_uint(data, 1)
    }

    fn grow_le_bytes(data: &[u8]) -> (r: Vec<u8>) {
        grow_le_uint(data, 1)
    }
}

impl Bytable for u16 {
    open spec fn spec_byte_len() -> nat {
        2
    }

    open spec fn spec_bits(self) -> int {
        self as int
    }

    open spec fn spec_signed() -> bool {
        false
    }

    fn BYTE_LEN() -> (r: usize) {
        2
    }

    fn from_be_bytes(data: &[u8]) -> (r: Self) {
        proof {
            lemma_be_value_bound(data@);
            lemma_byte_range(2);
        }
        let u = be_value_of(data);
        u as u16
    }

    fn from_le_bytes(data: &[u8]) -> (r: Self) {
        let be = reversed(data);
        <Self as Bytable>::from_be_bytes(be.as_slice())
    }

    fn to_be_bytes(self) -> (r: Vec<u8>) {
        proof {
            lemma_byte_range(2);
        }
        let u: u128 = self as u128;
        be_bytes_of(u, 2)
    }

    fn to_le_bytes(self) -> (r: Vec<u8>) {
        let be = <Self as Bytable>::to_be_bytes(self);
        reversed(be.as_slice())
    }

    fn grow_be_bytes(data: &[u8]) -> (r: Vec<u8>) {
        grow_be_uint(data, 2)
    }

    fn grow_le_bytes(data: &[u8]) -> (r: Vec<u8>) {
        grow_le_uint(data, 2)
    }
}

impl Bytable for u32 {
    open spec fn spec_byte_len() -> nat {
        4
    }

    open spec fn spec_bits(self) -> int {
        self as int
    }

    open spec fn spec_signed() -> bool {
        false
    }

    fn BYTE_LEN() -> (r: usize) {
        4
    }

    fn from_be_bytes(data: &[u8]) -> (r: Self) {
        proof {
            lemma_be_value_bound(data@);
            lemma_byte_range(4);
        }
        let u = be_value_of(data);
        u as u32
    }

    fn from_le_bytes(data: &[u8]) -> (r: Self) {
        let be = reversed(data);
        <Self as Bytable>::from_be_bytes(be.as_slice())
    }

    fn to_be_bytes(self) -> (r: Vec<u8>) {
        proof {
            lemma_byte_range(4);
        }
        let u: u128 = self as u128;
        be_bytes_of(u, 4)
    }

    fn to_le_bytes(self) -> (r: Vec<u8>) {
        let be = <Self as Bytable>::to_be_bytes(self);
        reversed(be.as_slice())
    }

    fn grow_be_bytes(data: &[u8]) -> (r: Vec<u8>) {
        grow_be_uint(data, 4)
    }

    fn grow_le_bytes(data: &[u8]) -> (r: Vec<u8>) {
        grow_le_uint(data, 4)
    }
}

impl Bytable for u64 {
    open spec fn spec_byte_len() -> nat {
        8
    }

    open spec fn spec_bits(self) -> int {
        self as int
    }

    open spec fn spec_signed() -> bool {
        false
    }

    fn BYTE_LEN() -> (r: usize) {
        8
    }

    fn from_be_bytes(data: &[u8]) -> (r: Self) {
        proof {
            lemma_be_value_bound(data@);
            lemma_byte_range(8);
        }
        let u = be_value_of(data);
        u as u64
    }

    fn from_le_bytes(data: &[u8]) -> (r: Self) {
        let be = reversed(data);
        <Self as Bytable>::from_be_bytes(be.as_slice())
    }

    fn to_be_bytes(self) -> (r: Vec<u8>) {
        proof {
            lemma_byte_range(8);
        }
        let u: u128 = self as u128;
        be_bytes_of(u, 8)
    }

    fn to_le_bytes(self) -> (r: Vec<u8>) {
        let be = <Self as Bytable>::to_be_bytes(self);
        reversed(be.as_slice())
    }

    fn grow_be_bytes(data: &[u8]) -> (r: Vec<u8>) {
        grow_be_uint(data, 8)
    }

    fn grow_le_bytes(data: &[u8]) -> (r: Vec<u8>) {
        grow_le_uint(data, 8)
    }
}

impl Bytable for u128 {
    open spec fn spec_byte_len() -> nat {
        16
    }

    open spec fn spec_bits(self) -> int {
        self as int
    }

    open spec fn spec_signed() -> bool {
        false
    }

    fn BYTE_LEN() -> (r: usize) {
        16
    }

    fn from_be_bytes(data: &[u8]) -> (r: Self) {
        proof {
            lemma_be_value_bound(data@);
            lemma_byte_range(16);
        }
        let u = be_value_of(data);
        u as u128
    }

    fn from_le_bytes(data: &[u8]) -> (r: Self) {
        let be = reversed(data);
        <Self as Bytable>::from_be_bytes(be.as_slice())
    }

    fn to_be_bytes(self) -> (r: Vec<u8>) {
        proof {
            lemma_byte_range(16);
        }
        let u: u128 = self as u128;
        be_bytes_of(u, 16)
    }

    fn to_le_bytes(self) -> (r: Vec<u8>) {
        let be = <Self as Bytable>::to_be_bytes(self);
        reversed(be.as_slice())
    }

    fn grow_be_bytes(data: &[u8]) -> (r: Vec<u8>) {
        grow_be_uint(data, 16)
    }

    fn grow_le_bytes(data: &[u8]) -> (r: Vec<u8>) {
        grow_le_uint(data, 16)
    }
}

impl Bytable for i8 {
    open spec fn spec_byte_len() -> nat {
        1
    }

    open spec fn spec_bits(self) -> int {
        twos(self as int, 1)
    }

    open spec fn spec_signed() -> bool {
        true
    }

    fn BYTE_LEN() -> (r: usize) {
        1
    }

    fn from_be_bytes(data: &[u8]) -> (r: Self) {
        proof {
            lemma_be_value_bound(data@);
            lemma_byte_range(1);
        }
        let u = be_value_of(data);
        if u >= 0x80u128 {
            (-((0xffu128 - u) as i128) - 1) as i8
        } else {
            u as i8
        }
    }

    fn from_le_bytes(data: &[u8]) -> (r: Self) {
        let be = reversed(data);
        <Self as Bytable>::from_be_bytes(be.as_slice())
    }

    fn to_be_bytes(self) -> (r: Vec<u8>) {
        proof {
            lemma_byte_range(1);
        }
        let u: u128 = if self >= 0 {
            self as u128
        } else {
            0xffu128 - ((-(self as i128 + 1)) as u128)
        };
        be_bytes_of(u, 1)
    }

    fn to_le_bytes(self) -> (r: Vec<u8>) {
        let be = <Self as Bytable>::to_be_bytes(self);
        reversed(be.as_slice())
    }

    fn grow_be_bytes(data: &[u8]) -> (r: Vec<u8>) {
        grow_be_int(data, 1)
    }

    fn grow_le_bytes(data: &[u8]) -> (r: Vec<u8>) {
        grow_le_int(data, 1)
    }
}

impl Bytable for i16 {
    open spec fn spec_byte_len() -> nat {
        2
    }

    open spec fn spec_bits(self) -> int {
        twos(self as int, 2)
    }

    open spec fn spec_signed() -> bool {
        true
    }

    fn BYTE_LEN() -> (r: usize) {
        2
    }

    fn from_be_bytes(data: &[u8]) -> (r: Self) {
        proof {
            lemma_be_value_bound(data@);
            lemma_byte_range(2);
        }
        let u = be_value_of(data);
        if u >= 0x8000u128 {
            (-((0xffffu128 - u) as i128) - 1) as i16
        } else {
            u as i16
        }
    }

    fn from_le_bytes(data: &[u8]) -> (r: Self) {
        let be = reversed(data);
        <Self as Bytable>::from_be_bytes(be.as_slice())
    }

    fn to_be_bytes(self) -> (r: Vec<u8>) {
        proof {
            lemma_byte_range(2);
        }
        let u: u128 = if self >= 0 {
            self as u128
        } else {
            0xffffu128 - ((-(self as i128 + 1)) as u128)
        };
        be_bytes_of(u, 2)
    }

    fn to_le_bytes(self) -> (r: Vec<u8>) {
        let be = <Self as Bytable>::to_be_bytes(self);
        reversed(be.as_slice())
    }

    fn grow_be_bytes(data: &[u8]) -> (r: Vec<u8>) {
        grow_be_int(data, 2)
    }

    fn grow_le_bytes(data: &[u8]) -> (r: Vec<u8>) {
        grow_le_int(data, 2)
    }
}

impl Bytable for i32 {
    open spec fn spec_byte_len() -> nat {
        4
    }

    open spec fn spec_bits(self) -> int {
        twos(self as int, 4)
    }

    open spec fn spec_signed() -> bool {
        true
    }

    fn BYTE_LEN() -> (r: usize) {
        4
    }

    fn from_be_bytes(data: &[u8]) -> (r: Self) {
        proof {
            lemma_be_value_bound(data@);
            lemma_byte_range(4);
        }
        let u = be_value_of(data);
        if u >= 0x80000000u128 {
            (-((0xffffffffu128 - u) as i128) - 1) as i32
        } else {
            u as i32
        }
    }

    fn from_le_bytes(data: &[u8]) -> (r: Self) {
        let be = reversed(data);
        <Self as Bytable>::from_be_bytes(be.as_slice())
    }

    fn to_be_bytes(self) -> (r: Vec<u8>) {
        proof {
            lemma_byte_range(4);
        }
        let u: u128 = if self >= 0 {
            self as u128
        } else {
            0xffffffffu128 - ((-(self as i128 + 1)) as u128)
        };
        be_bytes_of(u, 4)
    }

    fn to_le_bytes(self) -> (r: Vec<u8>) {
        let be = <Self as Bytable>::to_be_bytes(self);
        reversed(be.as_slice())
    }

    fn grow_be_bytes(data: &[u8]) -> (r: Vec<u8>) {
        grow_be_int(data, 4)
    }

    fn grow_le_bytes(data: &[u8]) -> (r: Vec<u8>) {
        grow_le_int(data, 4)
    }
}

impl Bytable for i64 {
    open spec fn spec_byte_len() -> nat {
        8
    }

    open spec fn spec_bits(self) -> int {
        twos(self as int, 8)
    }

    open spec fn spec_signed() -> bool {
        true
    }

    fn BYTE_LEN() -> (r: usize) {
        8
    }

    fn from_be_bytes(data: &[u8]) -> (r: Self) {
        proof {
            lemma_be_value_bound(data@);
            lemma_byte_range(8);
        }
        let u = be_value_of(data);
        if u >= 0x8000000000000000u128 {
            (-((0xffffffffffffffffu128 - u) as i128) - 1) as i64
        } else {
            u as i64
        }
    }

    fn from_le_bytes(data: &[u8]) -> (r: Self) {
        let be = reversed(data);
        <Self as Bytable>::from_be_bytes(be.as_slice())
    }

    fn to_be_bytes(self) -> (r: Vec<u8>) {
        proof {
            lemma_byte_range(8);
        }
        let u: u128 = if self >= 0 {
            self as u128
        } else {
            0xffffffffffffffffu128 - ((-(self as i128 + 1)) as u128)
        };
        be_bytes_of(u, 8)
    }

    fn to_le_bytes(self) -> (r: Vec<u8>) {
        let be = <Self as Bytable>::to_be_bytes(self);
        reversed(be.as_slice())
    }

    fn grow_be_bytes(data: &[u8]) -> (r: Vec<u8>) {
        grow_be_int(data, 8)
    }

    fn grow_le_bytes(data: &[u8]) -> (r: Vec<u8>) {
        grow_le_int(data, 8)
    }
}

impl Bytable for i128 {
    open spec fn spec_byte_len() -> nat {
        16
    }

    open spec fn spec_bits(self) -> int {
        twos(self as int, 16)
    }

    open spec fn spec_signed() -> bool {
        true
    }

    fn BYTE_LEN() -> (r: usize) {
        16
    }

    fn from_be_bytes(data: &[u8]) -> (r: Self) {
        proof {
            lemma_be_value_bound(data@);
            lemma_byte_range(16);
        }
        let u = be_value_of(data);
        if u >= 0x80000000000000000000000000000000u128 {
            (-((0xffffffffffffffffffffffffffffffffu128 - u) as i128) - 1) as i128
        } else {
            u as i128
        }
    }

    fn from_le_bytes(data: &[u8]) -> (r: Self) {
        let be = reversed(data);
        <Self as Bytable>::from_be_bytes(be.as_slice())
    }

    fn to_be_bytes(self) -> (r: Vec<u8>) {
        proof {
            lemma_byte_range(16);
        }
        let u: u128 = if self >= 0 {
            self as u128
        } else {
            0xffffffffffffffffffffffffffffffffu128 - ((-(self as i128 + 1)) as u128)
        };
        be_bytes_of(u, 16)
    }

    fn to_le_bytes(self) -> (r: Vec<u8>) {
        let be = <Self as Bytable>::to_be_bytes(self);
        reversed(be.as_slice())
    }

    fn grow_be_bytes(data: &[u8]) -> (r: Vec<u8>) {
        grow_be_int(data, 16)
    }

    fn grow_le_bytes(data: &[u8]) -> (r: Vec<u8>) {
        grow_le_int(data, 16)
    }
}

impl<U: Bytable> Bytable for Int<U> {
    open spec fn spec_byte_len() -> nat {
        U::spec_byte_len()
    }

    open spec fn spec_bits(self) -> int {
        self.0.spec_bits()
    }

    open spec fn spec_signed() -> bool {
        U::spec_signed()
    }

    fn BYTE_LEN() -> (r: usize) {
        U::BYTE_LEN()
    }

    fn from_be_bytes(data: &[u8]) -> (r: Self) {
        Int(U::from_be_bytes(data))
    }

    fn from_le_bytes(data: &[u8]) -> (r: Self) {
        Int(U::from_le_bytes(data))
    }

    fn to_be_bytes(self) -> (r: Vec<u8>) {
        self.0.to_be_bytes()
    }

    fn to_le_bytes(self) -> (r: Vec<u8>) {
        self.0.to_le_bytes()
    }

    fn grow_be_bytes(data: &[u8]) -> (r: Vec<u8>) {
        U::grow_be_bytes(data)
    }

    fn grow_le_bytes(data: &[u8]) -> (r: Vec<u8>) {
        U::grow_le_bytes(data)
    }
}

} // verus!
