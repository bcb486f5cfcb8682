use vstd::prelude::*;
use crate::arith::{floor_div, ilog, lemma_ilog_bounds, lemma_log10_below, lemma_log_below, lemma_pow2_256, pow, wrap};
use crate::error::{MathError, MathResult};
use crate::int_types::Int;
use crate::integer::Integer;
use crate::wide::{i256_checked_ilog2, lemma_i256_range, lemma_u256_range, u256_checked_ilog2, I256, U256};

verus! {

/// `bnum::types::U256::checked_ilog10`: `None` unless the number is positive, else the
/// exponent of the largest power of ten not above it.
#[verifier::external_body]
pub(crate) fn u256_checked_ilog10(a: U256) -> (r: Option<u32>)
    ensures
        r == (if a.value() > 0 { Some(ilog(10, a.value()) as u32) } else { None }),
{
    bnum::types::U256::from_digits([a.d0, a.d1, a.d2, a.d3]).checked_ilog10()
}

/// `bnum::types::U256::checked_shl`: `None` when the shift is not less than the bit
/// width, else the bits shifted left, those beyond the width dropped.
#[verifier::external_body]
pub(crate) fn u256_checked_shl(a: U256, rhs: u32) -> (r: Option<U256>)
    ensures
        r is Some <==> rhs < 256,
        r matches Some(c) ==> c.value() == wrap(a.value() * pow(2, rhs as nat), 0x1_0000_0000_0000_0000_0000_0000_0000_0000_0000_0000_0000_0000_0000_0000_0000_0000int, false),
{
    match bnum::types::U256::from_digits([a.d0, a.d1, a.d2, a.d3]).checked_shl(rhs) {
        Some(c) => Some({
            let d = *c.digits();
            U256 { d0: d[0], d1: d[1], d2: d[2], d3: d[3] }
        }),
        None => None,
    }
}

/// `bnum::types::U256::checked_shr`: `None` when the shift is not less than the bit
/// width, else the number divided by two to the shift, rounded down.
#[verifier::external_body]
pub(crate) fn u256_checked_shr(a: U256, rhs: u32) -> (r: Option<U256>)
    ensures
        r is Some <==> rhs < 256,
        r matches Some(c) ==> c.value() == a.value() / pow(2, rhs as nat),
{
    match bnum::types::U256::from_digits([a.d0, a.d1, a.d2, a.d3]).checked_shr(rhs) {
        Some(c) => Some({
            let d = *c.digits();
            U256 { d0: d[0], d1: d[1], d2: d[2], d3: d[3] }
        }),
        None => None,
    }
}

/// `bnum::types::U256::wrapping_add`: the exact result reduced to the bit width.
#[verifier::external_body]
pub(crate) fn u256_wrapping_add(a: U256, b: U256) -> (r: U256)
    ensures
        r.value() == wrap(a.value() + b.value(), 0x1_0000_0000_0000_0000_0000_0000_0000_0000_0000_0000_0000_0000_0000_0000_0000_0000int, false),
{
    let c = bnum::types::U256::from_digits([a.d0, a.d1, a.d2, a.d3]).wrapping_add(bnum::types::U256::from_digits([b.d0, b.d1, b.d2, b.d3]));
    let d = *c.digits();
    U256 { d0: d[0], d1: d[1], d2: d[2], d3: d[3] }
}

/// `bnum::types::U256::wrapping_sub`: the exact result reduced to the bit width.
#[verifier::external_body]
pub(crate) fn u256_wrapping_sub(a: U256, b: U256) -> (r: U256)
    ensures
        r.value() == wrap(a.value() - b.value(), 0x1_0000_0000_0000_0000_0000_0000_0000_0000_0000_0000_0000_0000_0000_0000_0000_0000int, false),
{
    let c = bnum::types::U256::from_digits([a.d0, a.d1, a.d2, a.d3]).wrapping_sub(bnum::types::U256::from_digits([b.d0, b.d1, b.d2, b.d3]));
    let d = *c.digits();
    U256 { d0: d[0], d1: d[1], d2: d[2], d3: d[3] }
}

/// `bnum::types::U256::wrapping_mul`: the exact result reduced to the bit width.
#[verifier::external_body]
pub(crate) fn u256_wrapping_mul(a: U256, b: U256) -> (r: U256)
    ensures
        r.value() == wrap(a.value() * b.value(), 0x1_0000_0000_0000_0000_0000_0000_0000_0000_0000_0000_0000_0000_0000_0000_0000_0000int, false),
{
    let c = bnum::types::U256::from_digits([a.d0, a.d1, a.d2, a.d3]).wrapping_mul(bnum::types::U256::from_digits([b.d0, b.d1, b.d2, b.d3]));
    let d = *c.digits();
    U256 { d0: d[0], d1: d[1], d2: d[2], d3: d[3] }
}

/// `bnum::types::U256::wrapping_pow`: the power reduced to the bit width.
#[verifier::external_body]
pub(crate) fn u256_wrapping_pow(a: U256, exp: u32) -> (r: U256)
    ensures
        r.value() == wrap(pow(a.value(), exp as nat), 0x1_0000_0000_0000_0000_0000_0000_0000_0000_0000_0000_0000_0000_0000_0000_0000_0000int, false),
{
    let c = bnum::types::U256::from_digits([a.d0, a.d1, a.d2, a.d3]).wrapping_pow(exp);
    let d = *c.digits();
    U256 { d0: d[0], d1: d[1], d2: d[2], d3: d[3] }
}

/// `bnum::types::I256::checked_ilog10`: `None` unless the number is positive, else the
/// exponent of the largest power of ten not above it.
#[verifier::external_body]
pub(crate) fn i256_checked_ilog10(a: I256) -> (r: Option<u32>)
    ensures
        r == (if a.value() > 0 { Some(ilog(10, a.value()) as u32) } else { None }),
{
    bnum::types::I256::from_bits(bnum::types::U256::from_digits([a.d0, a.d1, a.d2, a.d3])).checked_ilog10()
}

/// `bnum::types::I256::checked_shl`: `None` when the shift is not less than the bit
/// width, else the bits shifted left, those beyond the width dropped.
#[verifier::external_body]
pub(crate) fn i256_checked_shl(a: I256, rhs: u32) -> (r: Option<I256>)
    ensures
        r is Some <==> rhs < 256,
        r matches Some(c) ==> c.value() == wrap(a.value() * pow(2, rhs as nat), 0x1_0000_0000_0000_0000_0000_0000_0000_0000_0000_0000_0000_0000_0000_0000_0000_0000int, true),
{
    match bnum::types::I256::from_bits(bnum::types::U256::from_digits([a.d0, a.d1, a.d2, a.d3])).checked_shl(rhs) {
        Some(c) => Some({
            let d = *c.to_bits().digits();
            I256 { d0: d[0], d1: d[1], d2: d[2], d3: d[3] }
        }),
        None => None,
    }
}

/// `bnum::types::I256::checked_shr`: `None` when the shift is not less than the bit
/// width, else the number divided by two to the shift, rounded down.
#[verifier::external_body]
pub(crate) fn i256_checked_shr(a: I256, rhs: u32) -> (r: Option<I256>)
    ensures
        r is Some <==> rhs < 256,
        r matches Some(c) ==> c.value() == floor_div(a.value(), pow(2, rhs as nat)),
{
    match bnum::types::I256::from_bits(bnum::types::U256::from_digits([a.d0, a.d1, a.d2, a.d3])).checked_shr(rhs) {
        Some(c) => Some({
            let d = *c.to_bits().digits();
            I256 { d0: d[0], d1: d[1], d2: d[2], d3: d[3] }
        }),
        None => None,
    }
}

/// `bnum::types::I256::wrapping_add`: the exact result reduced to the bit width.
#[verifier::external_body]
pub(crate) fn i256_wrapping_add(a: I256, b: I256) -> (r: I256)
    ensures
        r.value() == wrap(a.value() + b.value(), 0x1_0000_0000_0000_0000_0000_0000_0000_0000_0000_0000_0000_0000_0000_0000_0000_0000int, true),
{
    let c = bnum::types::I256::from_bits(bnum::types::U256::from_digits([a.d0, a.d1, a.d2, a.d3])).wrapping_add(bnum::types::I256::from_bits(bnum::types::U256::from_digits([b.d0, b.d1, b.d2, b.d3])));
    let d = *c.to_bits().digits();
    I256 { d0: d[0], d1: d[1], d2: d[2], d3: d[3] }
}

/// `bnum::types::I256::wrapping_sub`: the exact result reduced to the bit width.
#[verifier::external_body]
pub(crate) fn i256_wrapping_sub(a: I256, b: I256) -> (r: I256)
    ensures
        r.value() == wrap(a.value() - b.value(), 0x1_0000_0000_0000_0000_0000_0000_0000_0000_0000_0000_0000_0000_0000_0000_0000_0000int, true),
{
    let c = bnum::types::I256::from_bits(bnum::types::U256::from_digits([a.d0, a.d1, a.d2, a.d3])).wrapping_sub(bnum::types::I256::from_bits(bnum::types::U256::from_digits([b.d0, b.d1, b.d2, b.d3])));
    let d = *c.to_bits().digits();
    I256 { d0: d[0], d1: d[1], d2: d[2], d3: d[3] }
}

/// `bnum::types::I256::wrapping_mul`: the exact result reduced to the bit width.
#[verifier::external_body]
pub(crate) fn i256_wrapping_mul(a: I256, b: I256) -> (r: I256)
    ensures
        r.value() == wrap(a.value() * b.value(), 0x1_0000_0000_0000_0000_0000_0000_0000_0000_0000_0000_0000_0000_0000_0000_0000_0000int, true),
{
    let c = bnum::types::I256::from_bits(bnum::types::U256::from_digits([a.d0, a.d1, a.d2, a.d3])).wrapping_mul(bnum::types::I256::from_bits(bnum::types::U256::from_digits([b.d0, b.d1, b.d2, b.d3])));
    let d = *c.to_bits().digits();
    I256 { d0: d[0], d1: d[1], d2: d[2], d3: d[3] }
}

/// `bnum::types::I256::wrapping_pow`: the power reduced to the bit width.
#[verifier::external_body]
pub(crate) fn i256_wrapping_pow(a: I256, exp: u32) -> (r: I256)
    ensures
        r.value() == wrap(pow(a.value(), exp as nat), 0x1_0000_0000_0000_0000_0000_0000_0000_0000_0000_0000_0000_0000_0000_0000_0000_0000int, true),
{
    let c = bnum::types::I256::from_bits(bnum::types::U256::from_digits([a.d0, a.d1, a.d2, a.d3])).wrapping_pow(exp);
    let d = *c.to_bits().digits();
    I256 { d0: d[0], d1: d[1], d2: d[2], d3: d[3] }
}

impl Integer for Int<U256> {
    fn checked_ilog2(self) -> (r: MathResult<u32>)
        ensures
            r is Ok <==> self.0.value() > 0,
            r matches Ok(k) ==> pow(2, k as nat) <= self.0.value() && self.0.value() < pow(2, (k + 1) as nat),
            r matches Err(e) ==> e is ZeroLog,
    {
        match u256_checked_ilog2(self.0) {
            Some(k) => {
                proof {
                    lemma_u256_range(self.0);
                    lemma_ilog_bounds(2, self.0.value());
                    lemma_pow2_256();
                    lemma_log_below(ilog(2, self.0.value()), self.0.value(), 256);
                }
                Ok(k)
            },
            None => Err(MathError::zero_log()),
        }
    }

    fn checked_ilog10(self) -> (r: MathResult<u32>)
        ensures
            r is Ok <==> self.0.value() > 0,
            r matches Ok(k) ==> pow(10, k as nat) <= self.0.value() && self.0.value() < pow(10, (k + 1) as nat),
            r matches Err(e) ==> e is ZeroLog,
    {
        match u256_checked_ilog10(self.0) {
            Some(k) => {
                proof {
                    lemma_u256_range(self.0);
                    lemma_ilog_bounds(10, self.0.value());
                    lemma_pow2_256();
                    lemma_log10_below(ilog(10, self.0.value()), self.0.value(), 256);
                }
                Ok(k)
            },
            None => Err(MathError::zero_log()),
        }
    }

    fn checked_shl(self, other: u32) -> (r: MathResult<Self>)
        ensures
            r is Ok <==> other < 256,
            r matches Ok(v) ==> v.0.value() == wrap(self.0.value() * pow(2, other as nat), 0x1_0000_0000_0000_0000_0000_0000_0000_0000_0000_0000_0000_0000_0000_0000_0000_0000int, false),
            r matches Err(e) ==> e is OverflowShl,
    {
        match u256_checked_shl(self.0, other) {
            Some(v) => Ok(Int(v)),
            None => Err(MathError::overflow_shl(self.0, other)),
        }
    }

    fn checked_shr(self, other: u32) -> (r: MathResult<Self>)
        ensures
            r is Ok <==> other < 256,
            r matches Ok(v) ==> v.0.value() == self.0.value() / pow(2, other as nat),
            r matches Err(e) ==> e is OverflowShr,
    {
        match u256_checked_shr(self.0, other) {
            Some(v) => Ok(Int(v)),
            None => Err(MathError::overflow_shr(self.0, other)),
        }
    }

    fn wrapping_add(self, other: Self) -> (r: Self)
        ensures
            r.0.value() == wrap(self.0.value() + other.0.value(), 0x1_0000_0000_0000_0000_0000_0000_0000_0000_0000_0000_0000_0000_0000_0000_0000_0000int, false),
    {
        Int(u256_wrapping_add(self.0, other.0))
    }

    fn wrapping_sub(self, other: Self) -> (r: Self)
        ensures
            r.0.value() == wrap(self.0.value() - other.0.value(), 0x1_0000_0000_0000_0000_0000_0000_0000_0000_0000_0000_0000_0000_0000_0000_0000_0000int, false),
    {
        Int(u256_wrapping_sub(self.0, other.0))
    }

    fn wrapping_mul(self, other: Self) -> (r: Self)
        ensures
            r.0.value() == wrap(self.0.value() * other.0.value(), 0x1_0000_0000_0000_0000_0000_0000_0000_0000_0000_0000_0000_0000_0000_0000_0000_0000int, false),
    {
        Int(u256_wrapping_mul(self.0, other.0))
    }

    fn wrapping_pow(self, exp: u32) -> (r: Self)
        ensures
            r.0.value() == wrap(pow(self.0.value(), exp as nat), 0x1_0000_0000_0000_0000_0000_0000_0000_0000_0000_0000_0000_0000_0000_0000_0000_0000int, false),
    {
        Int(u256_wrapping_pow(self.0, exp))
    }
}

impl Integer for Int<I256> {
    fn checked_ilog2(self) -> (r: MathResult<u32>)
        ensures
            r is Ok <==> self.0.value() > 0,
            r matches Ok(k) ==> pow(2, k as nat) <= self.0.value() && self.0.value() < pow(2, (k + 1) as nat),
            r matches Err(e) ==> e is ZeroLog,
    {
        match i256_checked_ilog2(self.0) {
            Some(k) => {
                proof {
                    lemma_i256_range(self.0);
                    lemma_ilog_bounds(2, self.0.value());
                    lemma_pow2_256();
                    lemma_log_below(ilog(2, self.0.value()), self.0.value(), 256);
                }
                Ok(k)
            },
            None => Err(MathError::zero_log()),
        }
    }

    fn checked_ilog10(self) -> (r: MathResult<u32>)
        ensures
            r is Ok <==> self.0.value() > 0,
            r matches Ok(k) ==> pow(10, k as nat) <= self.0.value() && self.0.value() < pow(10, (k + 1) as nat),
            r matches Err(e) ==> e is ZeroLog,
    {
        match i256_checked_ilog10(self.0) {
            Some(k) => {
                proof {
                    lemma_i256_range(self.0);
                    lemma_ilog_bounds(10, self.0.value());
                    lemma_pow2_256();
                    lemma_log10_below(ilog(10, self.0.value()), self.0.value(), 256);
                }
                Ok(k)
            },
            None => Err(MathError::zero_log()),
        }
    }

    fn checked_shl(self, other: u32) -> (r: MathResult<Self>)
        ensures
            r is Ok <==> other < 256,
            r matches Ok(v) ==> v.0.value() == wrap(self.0.value() * pow(2, other as nat), 0x1_0000_0000_0000_0000_0000_0000_0000_0000_0000_0000_0000_0000_0000_0000_0000_0000int, true),
            r matches Err(e) ==> e is OverflowShl,
    {
        match i256_checked_shl(self.0, other) {
            Some(v) => Ok(Int(v)),
            None => Err(MathError::overflow_shl(self.0, other)),
        }
    }

    fn checked_shr(self, other: u32) -> (r: MathResult<Self>)
        ensures
            r is Ok <==> other < 256,
            r matches Ok(v) ==> v.0.value() == floor_div(self.0.value(), pow(2, other as nat)),
            r matches Err(e) ==> e is OverflowShr,
    {
        match i256_checked_shr(self.0, other) {
            Some(v) => Ok(Int(v)),
            None => Err(MathError::overflow_shr(self.0, other)),
        }
    }

    fn wrapping_add(self, other: Self) -> (r: Self)
        ensures
            r.0.value() == wrap(self.0.value() + other.0.value(), 0x1_0000_0000_0000_0000_0000_0000_0000_0000_0000_0000_0000_0000_0000_0000_0000_0000int, true),
    {
        Int(i256_wrapping_add(self.0, other.0))
    }

    fn wrapping_sub(self, other: Self) -> (r: Self)
        ensures
            r.0.value() == wrap(self.0.value() - other.0.value(), 0x1_0000_0000_0000_0000_0000_0000_0000_0000_0000_0000_0000_0000_0000_0000_0000_0000int, true),
    {
        Int(i256_wrapping_sub(self.0, other.0))
    }

    fn wrapping_mul(self, other: Self) -> (r: Self)
        ensures
            r.0.value() == wrap(self.0.value() * other.0.value(), 0x1_0000_0000_0000_0000_0000_0000_0000_0000_0000_0000_0000_0000_0000_0000_0000_0000int, true),
    {
        Int(i256_wrapping_mul(self.0, other.0))
    }

    fn wrapping_pow(self, exp: u32) -> (r: Self)
        ensures
            r.0.value() == wrap(pow(self.0.value(), exp as nat), 0x1_0000_0000_0000_0000_0000_0000_0000_0000_0000_0000_0000_0000_0000_0000_0000_0000int, true),
    {
        Int(i256_wrapping_pow(self.0, exp))
    }
}

} // verus!
