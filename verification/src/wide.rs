use vstd::prelude::*;
use crate::arith::{clamp, ilog, pow, tdiv, trem};
use crate::display::int_text_of;

verus! {

/// The value of four 64-bit digits, least significant first.
pub open spec fn digits_value(d0: u64, d1: u64, d2: u64, d3: u64) -> int {
    d0 as int + d1 as int * 0x1_0000_0000_0000_0000int + d2 as int * 0x1_0000_0000_0000_0000_0000_0000_0000_0000int + d3 as int * 0x1_0000_0000_0000_0000_0000_0000_0000_0000_0000_0000_0000_0000int
}

/// A 256-bit unsigned integer, held as four 64-bit digits, least significant
/// first (the layout of `bnum::types::U256`).
#[derive(Clone, Copy, Debug, PartialEq, Eq, Structural, Hash)]
pub struct U256 {
    pub d0: u64,
    pub d1: u64,
    pub d2: u64,
    pub d3: u64,
}

/// A 256-bit signed integer, held as the four 64-bit digits of its two's
/// complement bits, least significant first (the layout of
/// `bnum::types::I256`).
#[derive(Clone, Copy, Debug, PartialEq, Eq, Structural, Hash)]
pub struct I256 {
    pub d0: u64,
    pub d1: u64,
    pub d2: u64,
    pub d3: u64,
}

impl U256 {
    pub open spec fn value(self) -> int {
        digits_value(self.d0, self.d1, self.d2, self.d3)
    }
}

impl I256 {
    pub open spec fn value(self) -> int {
        if self.d3 >= 0x8000_0000_0000_0000 {
            digits_value(self.d0, self.d1, self.d2, self.d3) - 0x1_0000_0000_0000_0000_0000_0000_0000_0000_0000_0000_0000_0000_0000_0000_0000_0000int
        } else {
            digits_value(self.d0, self.d1, self.d2, self.d3)
        }
    }
}

pub open spec fn u256_min() -> int {
    0
}

pub open spec fn u256_max() -> int {
    0x1_0000_0000_0000_0000_0000_0000_0000_0000_0000_0000_0000_0000_0000_0000_0000_0000int - 1
}

pub open spec fn i256_min() -> int {
    -0x8000_0000_0000_0000_0000_0000_0000_0000_0000_0000_0000_0000_0000_0000_0000_0000int
}

pub open spec fn i256_max() -> int {
    0x8000_0000_0000_0000_0000_0000_0000_0000_0000_0000_0000_0000_0000_0000_0000_0000int - 1
}

pub open spec fn fits_u256(v: int) -> bool {
    u256_min() <= v && v <= u256_max()
}

pub open spec fn fits_i256(v: int) -> bool {
    i256_min() <= v && v <= i256_max()
}

/// Truncating division of 256-bit signed values is defined: the divisor is
/// not zero and the quotient is not the one past the maximum.
pub open spec fn i256_div_defined(a: int, b: int) -> bool {
    b != 0 && !(a == i256_min() && b == -1)
}

pub proof fn lemma_u256_range(a: U256)
    ensures
        fits_u256(a.value()),
{
}

pub proof fn lemma_i256_range(a: I256)
    ensures
        fits_i256(a.value()),
        (a.value() < 0) == (a.d3 >= 0x8000_0000_0000_0000),
{
}

impl U256 {
    /// The number with the value of `x`.
    pub fn from_u128(x: u128) -> (r: Self)
        ensures
            r.value() == x,
    {
        let lo = (x % 0x1_0000_0000_0000_0000) as u64;
        let hi = (x / 0x1_0000_0000_0000_0000) as u64;
        U256 { d0: lo, d1: hi, d2: 0, d3: 0 }
    }

    /// The value as a `u128`, when it fits.
    pub fn checked_into_u128(self) -> (r: Option<u128>)
        ensures
            r is Some <==> self.value() <= u128::MAX,
            r matches Some(v) ==> v == self.value(),
    {
        if self.d2 == 0 && self.d3 == 0 {
            Some(self.d0 as u128 + self.d1 as u128 * 0x1_0000_0000_0000_0000)
        } else {
            None
        }
    }

    pub fn zero() -> (r: Self)
        ensures
            r.value() == 0,
    {
        U256 { d0: 0, d1: 0, d2: 0, d3: 0 }
    }

    pub fn one() -> (r: Self)
        ensures
            r.value() == 1,
    {
        U256 { d0: 1, d1: 0, d2: 0, d3: 0 }
    }

    pub fn max() -> (r: Self)
        ensures
            r.value() == u256_max(),
    {
        U256 { d0: u64::MAX, d1: u64::MAX, d2: u64::MAX, d3: u64::MAX }
    }

    pub fn is_zero(&self) -> (r: bool)
        ensures
            r == (self.value() == 0),
    {
        self.d0 == 0 && self.d1 == 0 && self.d2 == 0 && self.d3 == 0
    }
}

impl I256 {
    /// The number with the value of `x`.
    pub fn from_i128(x: i128) -> (r: Self)
        ensures
            r.value() == x,
    {
        if x >= 0 {
            let u = x as u128;
            let lo = (u % 0x1_0000_0000_0000_0000) as u64;
            let hi = (u / 0x1_0000_0000_0000_0000) as u64;
            I256 { d0: lo, d1: hi, d2: 0, d3: 0 }
        } else {
            // the low 128 bits of the two's complement form: x + 2^128
            let shifted: i128 = x - i128::MIN;
            let u: u128 = shifted as u128 + 0x8000_0000_0000_0000_0000_0000_0000_0000;
            let lo = (u % 0x1_0000_0000_0000_0000) as u64;
            let hi = (u / 0x1_0000_0000_0000_0000) as u64;
            I256 { d0: lo, d1: hi, d2: u64::MAX, d3: u64::MAX }
        }
    }

    /// The value as an `i128`, when it fits.
    pub fn checked_into_i128(self) -> (r: Option<i128>)
        ensures
            r is Some <==> i128::MIN <= self.value() && self.value() <= i128::MAX,
            r matches Some(v) ==> v == self.value(),
    {
                if self.d2 == 0 && self.d3 == 0 && self.d1 < 0x8000_0000_0000_0000 {
            Some((self.d0 as u128 + self.d1 as u128 * 0x1_0000_0000_0000_0000) as i128)
        } else if self.d2 == u64::MAX && self.d3 == u64::MAX && self.d1 >= 0x8000_0000_0000_0000 {
            let u: u128 = self.d0 as u128 + self.d1 as u128 * 0x1_0000_0000_0000_0000;
            let t: i128 = (u - 0x8000_0000_0000_0000_0000_0000_0000_0000) as i128;
            Some(t + i128::MIN)
        } else {
            None
        }
    }

    pub fn zero() -> (r: Self)
        ensures
            r.value() == 0,
    {
        I256 { d0: 0, d1: 0, d2: 0, d3: 0 }
    }

    pub fn one() -> (r: Self)
        ensures
            r.value() == 1,
    {
        I256 { d0: 1, d1: 0, d2: 0, d3: 0 }
    }

    pub fn min() -> (r: Self)
        ensures
            r.value() == i256_min(),
    {
        I256 { d0: 0, d1: 0, d2: 0, d3: 0x8000_0000_0000_0000 }
    }

    pub fn max() -> (r: Self)
        ensures
            r.value() == i256_max(),
    {
        I256 { d0: u64::MAX, d1: u64::MAX, d2: u64::MAX, d3: 0x7fff_ffff_ffff_ffff }
    }

    pub fn is_zero(&self) -> (r: bool)
        ensures
            r == (self.value() == 0),
    {
        self.d0 == 0 && self.d1 == 0 && self.d2 == 0 && self.d3 == 0
    }

    pub fn is_negative(&self) -> (r: bool)
        ensures
            r == (self.value() < 0),
    {
        self.d3 >= 0x8000_0000_0000_0000
    }
}

/// `bnum::types::U256::checked_add`: the sum when the type can hold it.
#[verifier::external_body]
pub(crate) fn u256_checked_add(a: U256, b: U256) -> (r: Option<U256>)
    ensures
        r is Some <==> fits_u256(a.value() + b.value()),
        r matches Some(c) ==> c.value() == a.value() + b.value(),
{
    match bnum::types::U256::from_digits([a.d0, a.d1, a.d2, a.d3]).checked_add(bnum::types::U256::from_digits([b.d0, b.d1, b.d2, b.d3])) {
        Some(c) => Some({
            let d = *c.digits();
            U256 { d0: d[0], d1: d[1], d2: d[2], d3: d[3] }
        }),
        None => None,
    }
}
/// `bnum::types::U256::checked_sub`: the difference when the type can hold it.
#[verifier::external_body]
pub(crate) fn u256_checked_sub(a: U256, b: U256) -> (r: Option<U256>)
    ensures
        r is Some <==> fits_u256(a.value() - b.value()),
        r matches Some(c) ==> c.value() == a.value() - b.value(),
{
    match bnum::types::U256::from_digits([a.d0, a.d1, a.d2, a.d3]).checked_sub(bnum::types::U256::from_digits([b.d0, b.d1, b.d2, b.d3])) {
        Some(c) => Some({
            let d = *c.digits();
            U256 { d0: d[0], d1: d[1], d2: d[2], d3: d[3] }
        }),
        None => None,
    }
}
/// `bnum::types::U256::checked_mul`: the product when the type can hold it.
#[verifier::external_body]
pub(crate) fn u256_checked_mul(a: U256, b: U256) -> (r: Option<U256>)
    ensures
        r is Some <==> fits_u256(a.value() * b.value()),
        r matches Some(c) ==> c.value() == a.value() * b.value(),
{
    match bnum::types::U256::from_digits([a.d0, a.d1, a.d2, a.d3]).checked_mul(bnum::types::U256::from_digits([b.d0, b.d1, b.d2, b.d3])) {
        Some(c) => Some({
            let d = *c.digits();
            U256 { d0: d[0], d1: d[1], d2: d[2], d3: d[3] }
        }),
        None => None,
    }
}
/// `bnum::types::U256::checked_div`: the quotient, rounded towards zero, unless the divisor is zero or the quotient overflows.
#[verifier::external_body]
pub(crate) fn u256_checked_div(a: U256, b: U256) -> (r: Option<U256>)
    ensures
        r is Some <==> b.value() != 0,
        r matches Some(c) ==> c.value() == a.value() / b.value(),
{
    match bnum::types::U256::from_digits([a.d0, a.d1, a.d2, a.d3]).checked_div(bnum::types::U256::from_digits([b.d0, b.d1, b.d2, b.d3])) {
        Some(c) => Some({
            let d = *c.digits();
            U256 { d0: d[0], d1: d[1], d2: d[2], d3: d[3] }
        }),
        None => None,
    }
}
/// `bnum::types::U256::checked_rem`: the remainder, with the sign of the dividend, unless the divisor is zero or the matching quotient overflows.
#[verifier::external_body]
pub(crate) fn u256_checked_rem(a: U256, b: U256) -> (r: Option<U256>)
    ensures
        r is Some <==> b.value() != 0,
        r matches Some(c) ==> c.value() == a.value() % b.value(),
{
    match bnum::types::U256::from_digits([a.d0, a.d1, a.d2, a.d3]).checked_rem(bnum::types::U256::from_digits([b.d0, b.d1, b.d2, b.d3])) {
        Some(c) => Some({
            let d = *c.digits();
            U256 { d0: d[0], d1: d[1], d2: d[2], d3: d[3] }
        }),
        None => None,
    }
}
/// `bnum::types::U256::checked_pow`: the power when the type can hold it.
#[verifier::external_body]
pub(crate) fn u256_checked_pow(a: U256, exp: u32) -> (r: Option<U256>)
    ensures
        r is Some <==> fits_u256(pow(a.value(), exp as nat)),
        r matches Some(c) ==> c.value() == pow(a.value(), exp as nat),
{
    match bnum::types::U256::from_digits([a.d0, a.d1, a.d2, a.d3]).checked_pow(exp) {
        Some(c) => Some({
            let d = *c.digits();
            U256 { d0: d[0], d1: d[1], d2: d[2], d3: d[3] }
        }),
        None => None,
    }
}
/// `bnum::types::U256::saturating_add`: the sum, clamped to the range of the type.
#[verifier::external_body]
pub(crate) fn u256_saturating_add(a: U256, b: U256) -> (r: U256)
    ensures
        r.value() == clamp(a.value() + b.value(), u256_min(), u256_max()),
{
    let c = bnum::types::U256::from_digits([a.d0, a.d1, a.d2, a.d3]).saturating_add(bnum::types::U256::from_digits([b.d0, b.d1, b.d2, b.d3]));
    {
            let d = *c.digits();
            U256 { d0: d[0], d1: d[1], d2: d[2], d3: d[3] }
        }
}
/// `bnum::types::U256::saturating_sub`: the difference, clamped to the range of the type.
#[verifier::external_body]
pub(crate) fn u256_saturating_sub(a: U256, b: U256) -> (r: U256)
    ensures
        r.value() == clamp(a.value() - b.value(), u256_min(), u256_max()),
{
    let c = bnum::types::U256::from_digits([a.d0, a.d1, a.d2, a.d3]).saturating_sub(bnum::types::U256::from_digits([b.d0, b.d1, b.d2, b.d3]));
    {
            let d = *c.digits();
            U256 { d0: d[0], d1: d[1], d2: d[2], d3: d[3] }
        }
}
/// `bnum::types::U256::saturating_mul`: the product, clamped to the range of the type.
#[verifier::external_body]
pub(crate) fn u256_saturating_mul(a: U256, b: U256) -> (r: U256)
    ensures
        r.value() == clamp(a.value() * b.value(), u256_min(), u256_max()),
{
    let c = bnum::types::U256::from_digits([a.d0, a.d1, a.d2, a.d3]).saturating_mul(bnum::types::U256::from_digits([b.d0, b.d1, b.d2, b.d3]));
    {
            let d = *c.digits();
            U256 { d0: d[0], d1: d[1], d2: d[2], d3: d[3] }
        }
}
/// `bnum::types::U256::saturating_pow`: the power, clamped to the range of the type.
#[verifier::external_body]
pub(crate) fn u256_saturating_pow(a: U256, exp: u32) -> (r: U256)
    ensures
        r.value() == clamp(pow(a.value(), exp as nat), u256_min(), u256_max()),
{
    let c = bnum::types::U256::from_digits([a.d0, a.d1, a.d2, a.d3]).saturating_pow(exp);
    {
            let d = *c.digits();
            U256 { d0: d[0], d1: d[1], d2: d[2], d3: d[3] }
        }
}
/// `bnum::types::U256::checked_ilog2`: `None` unless the number is positive, else the
/// exponent of the largest power of two not above it.
#[verifier::external_body]
pub(crate) fn u256_checked_ilog2(a: U256) -> (r: Option<u32>)
    ensures
        r == (if a.value() > 0 { Some(ilog(2, a.value()) as u32) } else { None }),
{
    bnum::types::U256::from_digits([a.d0, a.d1, a.d2, a.d3]).checked_ilog2()
}

/// The decimal text of the number, through the `Display` impl of
/// `bnum::types::U256`, which writes the digits of `to_str_radix(10)`: no
/// sign and no leading zeros.
#[verifier::external_body]
pub(crate) fn u256_text(a: U256) -> (r: String)
    ensures
        r@ == int_text_of(a.value()),
{
    bnum::types::U256::from_digits([a.d0, a.d1, a.d2, a.d3]).to_string()
}

/// `bnum::types::I256::checked_add`: the sum when the type can hold it.
#[verifier::external_body]
pub(crate) fn i256_checked_add(a: I256, b: I256) -> (r: Option<I256>)
    ensures
        r is Some <==> fits_i256(a.value() + b.value()),
        r matches Some(c) ==> c.value() == a.value() + b.value(),
{
    match bnum::types::I256::from_bits(bnum::types::U256::from_digits([a.d0, a.d1, a.d2, a.d3])).checked_add(bnum::types::I256::from_bits(bnum::types::U256::from_digits([b.d0, b.d1, b.d2, b.d3]))) {
        Some(c) => Some({
            let d = *c.to_bits().digits();
            I256 { d0: d[0], d1: d[1], d2: d[2], d3: d[3] }
        }),
        None => None,
    }
}
/// `bnum::types::I256::checked_sub`: the difference when the type can hold it.
#[verifier::external_body]
pub(crate) fn i256_checked_sub(a: I256, b: I256) -> (r: Option<I256>)
    ensures
        r is Some <==> fits_i256(a.value() - b.value()),
        r matches Some(c) ==> c.value() == a.value() - b.value(),
{
    match bnum::types::I256::from_bits(bnum::types::U256::from_digits([a.d0, a.d1, a.d2, a.d3])).checked_sub(bnum::types::I256::from_bits(bnum::types::U256::from_digits([b.d0, b.d1, b.d2, b.d3]))) {
        Some(c) => Some({
            let d = *c.to_bits().digits();
            I256 { d0: d[0], d1: d[1], d2: d[2], d3: d[3] }
        }),
        None => None,
    }
}
/// `bnum::types::I256::checked_mul`: the product when the type can hold it.
#[verifier::external_body]
pub(crate) fn i256_checked_mul(a: I256, b: I256) -> (r: Option<I256>)
    ensures
        r is Some <==> fits_i256(a.value() * b.value()),
        r matches Some(c) ==> c.value() == a.value() * b.value(),
{
    match bnum::types::I256::from_bits(bnum::types::U256::from_digits([a.d0, a.d1, a.d2, a.d3])).checked_mul(bnum::types::I256::from_bits(bnum::types::U256::from_digits([b.d0, b.d1, b.d2, b.d3]))) {
        Some(c) => Some({
            let d = *c.to_bits().digits();
            I256 { d0: d[0], d1: d[1], d2: d[2], d3: d[3] }
        }),
        None => None,
    }
}
/// `bnum::types::I256::checked_div`: the quotient, rounded towards zero, unless the divisor is zero or the quotient overflows.
#[verifier::external_body]
pub(crate) fn i256_checked_div(a: I256, b: I256) -> (r: Option<I256>)
    ensures
        r is Some <==> i256_div_defined(a.value(), b.value()),
        r matches Some(c) ==> c.value() == tdiv(a.value(), b.value()),
{
    match bnum::types::I256::from_bits(bnum::types::U256::from_digits([a.d0, a.d1, a.d2, a.d3])).checked_div(bnum::types::I256::from_bits(bnum::types::U256::from_digits([b.d0, b.d1, b.d2, b.d3]))) {
        Some(c) => Some({
            let d = *c.to_bits().digits();
            I256 { d0: d[0], d1: d[1], d2: d[2], d3: d[3] }
        }),
        None => None,
    }
}
/// `bnum::types::I256::checked_rem`: the remainder, with the sign of the dividend, unless the divisor is zero or the matching quotient overflows.
#[verifier::external_body]
pub(crate) fn i256_checked_rem(a: I256, b: I256) -> (r: Option<I256>)
    ensures
        r is Some <==> i256_div_defined(a.value(), b.value()),
        r matches Some(c) ==> c.value() == trem(a.value(), b.value()),
{
    match bnum::types::I256::from_bits(bnum::types::U256::from_digits([a.d0, a.d1, a.d2, a.d3])).checked_rem(bnum::types::I256::from_bits(bnum::types::U256::from_digits([b.d0, b.d1, b.d2, b.d3]))) {
        Some(c) => Some({
            let d = *c.to_bits().digits();
            I256 { d0: d[0], d1: d[1], d2: d[2], d3: d[3] }
        }),
        None => None,
    }
}
/// `bnum::types::I256::checked_pow`: the power when the type can hold it.
#[verifier::external_body]
pub(crate) fn i256_checked_pow(a: I256, exp: u32) -> (r: Option<I256>)
    ensures
        r is Some <==> fits_i256(pow(a.value(), exp as nat)),
        r matches Some(c) ==> c.value() == pow(a.value(), exp as nat),
{
    match bnum::types::I256::from_bits(bnum::types::U256::from_digits([a.d0, a.d1, a.d2, a.d3])).checked_pow(exp) {
        Some(c) => Some({
            let d = *c.to_bits().digits();
            I256 { d0: d[0], d1: d[1], d2: d[2], d3: d[3] }
        }),
        None => None,
    }
}
/// `bnum::types::I256::saturating_add`: the sum, clamped to the range of the type.
#[verifier::external_body]
pub(crate) fn i256_saturating_add(a: I256, b: I256) -> (r: I256)
    ensures
        r.value() == clamp(a.value() + b.value(), i256_min(), i256_max()),
{
    let c = bnum::types::I256::from_bits(bnum::types::U256::from_digits([a.d0, a.d1, a.d2, a.d3])).saturating_add(bnum::types::I256::from_bits(bnum::types::U256::from_digits([b.d0, b.d1, b.d2, b.d3])));
    {
            let d = *c.to_bits().digits();
            I256 { d0: d[0], d1: d[1], d2: d[2], d3: d[3] }
        }
}
/// `bnum::types::I256::saturating_sub`: the difference, clamped to the range of the type.
#[verifier::external_body]
pub(crate) fn i256_saturating_sub(a: I256, b: I256) -> (r: I256)
    ensures
        r.value() == clamp(a.value() - b.value(), i256_min(), i256_max()),
{
    let c = bnum::types::I256::from_bits(bnum::types::U256::from_digits([a.d0, a.d1, a.d2, a.d3])).saturating_sub(bnum::types::I256::from_bits(bnum::types::U256::from_digits([b.d0, b.d1, b.d2, b.d3])));
    {
            let d = *c.to_bits().digits();
            I256 { d0: d[0], d1: d[1], d2: d[2], d3: d[3] }
        }
}
/// `bnum::types::I256::saturating_mul`: the product, clamped to the range of the type.
#[verifier::external_body]
pub(crate) fn i256_saturating_mul(a: I256, b: I256) -> (r: I256)
    ensures
        r.value() == clamp(a.value() * b.value(), i256_min(), i256_max()),
{
    let c = bnum::types::I256::from_bits(bnum::types::U256::from_digits([a.d0, a.d1, a.d2, a.d3])).saturating_mul(bnum::types::I256::from_bits(bnum::types::U256::from_digits([b.d0, b.d1, b.d2, b.d3])));
    {
            let d = *c.to_bits().digits();
            I256 { d0: d[0], d1: d[1], d2: d[2], d3: d[3] }
        }
}
/// `bnum::types::I256::saturating_pow`: the power, clamped to the range of the type.
#[verifier::external_body]
pub(crate) fn i256_saturating_pow(a: I256, exp: u32) -> (r: I256)
    ensures
        r.value() == clamp(pow(a.value(), exp as nat), i256_min(), i256_max()),
{
    let c = bnum::types::I256::from_bits(bnum::types::U256::from_digits([a.d0, a.d1, a.d2, a.d3])).saturating_pow(exp);
    {
            let d = *c.to_bits().digits();
            I256 { d0: d[0], d1: d[1], d2: d[2], d3: d[3] }
        }
}
/// `bnum::types::I256::checked_ilog2`: `None` unless the number is positive, else the
/// exponent of the largest power of two not above it.
#[verifier::external_body]
pub(crate) fn i256_checked_ilog2(a: I256) -> (r: Option<u32>)
    ensures
        r == (if a.value() > 0 { Some(ilog(2, a.value()) as u32) } else { None }),
{
    bnum::types::I256::from_bits(bnum::types::U256::from_digits([a.d0, a.d1, a.d2, a.d3])).checked_ilog2()
}

/// The decimal text of the number, through the `Display` impl of
/// `bnum::types::I256`, which writes a `-` for a negative number and then
/// the decimal digits of its magnitude, without leading zeros.
#[verifier::external_body]
pub(crate) fn i256_text(a: I256) -> (r: String)
    ensures
        r@ == int_text_of(a.value()),
{
    bnum::types::I256::from_bits(bnum::types::U256::from_digits([a.d0, a.d1, a.d2, a.d3])).to_string()
}

impl U256 {
    /// Whether the value is below that of `other`.
    pub fn lt(&self, other: &Self) -> (r: bool)
        ensures
            r == (self.value() < other.value()),
    {
        if self.d3 != other.d3 {
            self.d3 < other.d3
        } else if self.d2 != other.d2 {
            self.d2 < other.d2
        } else if self.d1 != other.d1 {
            self.d1 < other.d1
        } else {
            self.d0 < other.d0
        }
    }
}

impl I256 {
    /// Whether the value is below that of `other`.
    pub fn lt(&self, other: &Self) -> (r: bool)
        ensures
            r == (self.value() < other.value()),
    {
        let a_neg = self.is_negative();
        let b_neg = other.is_negative();
        if a_neg != b_neg {
            a_neg
        } else if self.d3 != other.d3 {
            self.d3 < other.d3
        } else if self.d2 != other.d2 {
            self.d2 < other.d2
        } else if self.d1 != other.d1 {
            self.d1 < other.d1
        } else {
            self.d0 < other.d0
        }
    }

    /// Whether the value is above zero.
    pub fn is_positive(&self) -> (r: bool)
        ensures
            r == (self.value() > 0),
    {
        !self.is_negative() && !self.is_zero()
    }
}

/// Four digits are determined by their value.
pub proof fn lemma_digits_injective(a0: u64, a1: u64, a2: u64, a3: u64, b0: u64, b1: u64, b2: u64, b3: u64)
    requires
        digits_value(a0, a1, a2, a3) == digits_value(b0, b1, b2, b3),
    ensures
        a0 == b0 && a1 == b1 && a2 == b2 && a3 == b3,
{
    assert(a3 == b3);
    assert(a2 == b2);
    assert(a1 == b1);
}

/// Equal values have equal digits.
pub proof fn lemma_u256_injective(a: U256, b: U256)
    requires
        a.value() == b.value(),
    ensures
        a == b,
{
    lemma_digits_injective(a.d0, a.d1, a.d2, a.d3, b.d0, b.d1, b.d2, b.d3);
}

/// Equal values have equal digits.
pub proof fn lemma_i256_injective(a: I256, b: I256)
    requires
        a.value() == b.value(),
    ensures
        a == b,
{
    lemma_i256_range(a);
    lemma_i256_range(b);
    assert(digits_value(a.d0, a.d1, a.d2, a.d3) == digits_value(b.d0, b.d1, b.d2, b.d3));
    lemma_digits_injective(a.d0, a.d1, a.d2, a.d3, b.d0, b.d1, b.d2, b.d3);
}

} // verus!
