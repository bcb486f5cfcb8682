use vstd::prelude::*;
use crate::arith::{clamp, floor_div, ilog, pow, wrap};
use crate::wide512::{b256, fits_i512, fits_u512, i512_max, i512_min, u512_max, u512_min, I512, U512};

verus! {

/// `bnum::types::U512::checked_pow`: the power when the type can hold it.
#[verifier::external_body]
pub(crate) fn u512_checked_pow(a: U512, exp: u32) -> (r: Option<U512>)
    ensures
        r is Some <==> fits_u512(pow(a.value(), exp as nat)),
        r matches Some(c) ==> c.value() == pow(a.value(), exp as nat),
{
    match bnum::types::U512::from_digits(a.digits()).checked_pow(exp) {
        Some(c) => Some(U512::from_digits(*c.digits())),
        None => None,
    }
}

/// `bnum::types::U512::saturating_add`: the sum, clamped to the range of the type.
#[verifier::external_body]
pub(crate) fn u512_saturating_add(a: U512, b: U512) -> (r: U512)
    ensures
        r.value() == clamp(a.value() + b.value(), u512_min(), u512_max()),
{
    let c = bnum::types::U512::from_digits(a.digits()).saturating_add(bnum::types::U512::from_digits(b.digits()));
    U512::from_digits(*c.digits())
}

/// `bnum::types::U512::saturating_sub`: the difference, clamped to the range of the type.
#[verifier::external_body]
pub(crate) fn u512_saturating_sub(a: U512, b: U512) -> (r: U512)
    ensures
        r.value() == clamp(a.value() - b.value(), u512_min(), u512_max()),
{
    let c = bnum::types::U512::from_digits(a.digits()).saturating_sub(bnum::types::U512::from_digits(b.digits()));
    U512::from_digits(*c.digits())
}

/// `bnum::types::U512::saturating_mul`: the product, clamped to the range of the type.
#[verifier::external_body]
pub(crate) fn u512_saturating_mul(a: U512, b: U512) -> (r: U512)
    ensures
        r.value() == clamp(a.value() * b.value(), u512_min(), u512_max()),
{
    let c = bnum::types::U512::from_digits(a.digits()).saturating_mul(bnum::types::U512::from_digits(b.digits()));
    U512::from_digits(*c.digits())
}

/// `bnum::types::U512::saturating_pow`: the power, clamped to the range of the type.
#[verifier::external_body]
pub(crate) fn u512_saturating_pow(a: U512, exp: u32) -> (r: U512)
    ensures
        r.value() == clamp(pow(a.value(), exp as nat), u512_min(), u512_max()),
{
    let c = bnum::types::U512::from_digits(a.digits()).saturating_pow(exp);
    U512::from_digits(*c.digits())
}

/// `bnum::types::U512::checked_ilog2`: `None` unless the number is positive, else the
/// exponent of the largest power of two not above it.
#[verifier::external_body]
pub(crate) fn u512_checked_ilog2(a: U512) -> (r: Option<u32>)
    ensures
        r == (if a.value() > 0 { Some(ilog(2, a.value()) as u32) } else { None }),
{
    bnum::types::U512::from_digits(a.digits()).checked_ilog2()
}

/// `bnum::types::U512::checked_ilog10`: `None` unless the number is positive, else the
/// exponent of the largest power of ten not above it.
#[verifier::external_body]
pub(crate) fn u512_checked_ilog10(a: U512) -> (r: Option<u32>)
    ensures
        r == (if a.value() > 0 { Some(ilog(10, a.value()) as u32) } else { None }),
{
    bnum::types::U512::from_digits(a.digits()).checked_ilog10()
}

/// `bnum::types::U512::checked_shl`: `None` when the shift is not less than the bit
/// width, else the bits shifted left, those beyond the width dropped.
#[verifier::external_body]
pub(crate) fn u512_checked_shl(a: U512, rhs: u32) -> (r: Option<U512>)
    ensures
        r is Some <==> rhs < 512,
        r matches Some(c) ==> c.value() == wrap(a.value() * pow(2, rhs as nat), b256() * b256(), false),
{
    match bnum::types::U512::from_digits(a.digits()).checked_shl(rhs) {
        Some(c) => Some(U512::from_digits(*c.digits())),
        None => None,
    }
}

/// `bnum::types::U512::checked_shr`: `None` when the shift is not less than the bit
/// width, else the number divided by two to the shift, rounded down.
#[verifier::external_body]
pub(crate) fn u512_checked_shr(a: U512, rhs: u32) -> (r: Option<U512>)
    ensures
        r is Some <==> rhs < 512,
        r matches Some(c) ==> c.value() == a.value() / pow(2, rhs as nat),
{
    match bnum::types::U512::from_digits(a.digits()).checked_shr(rhs) {
        Some(c) => Some(U512::from_digits(*c.digits())),
        None => None,
    }
}

/// `bnum::types::U512::wrapping_add`: the exact result reduced to the bit width.
#[verifier::external_body]
pub(crate) fn u512_wrapping_add(a: U512, b: U512) -> (r: U512)
    ensures
        r.value() == wrap(a.value() + b.value(), b256() * b256(), false),
{
    let c = bnum::types::U512::from_digits(a.digits()).wrapping_add(bnum::types::U512::from_digits(b.digits()));
    U512::from_digits(*c.digits())
}

/// `bnum::types::U512::wrapping_sub`: the exact result reduced to the bit width.
#[verifier::external_body]
pub(crate) fn u512_wrapping_sub(a: U512, b: U512) -> (r: U512)
    ensures
        r.value() == wrap(a.value() - b.value(), b256() * b256(), false),
{
    let c = bnum::types::U512::from_digits(a.digits()).wrapping_sub(bnum::types::U512::from_digits(b.digits()));
    U512::from_digits(*c.digits())
}

/// `bnum::types::U512::wrapping_mul`: the exact result reduced to the bit width.
#[verifier::external_body]
pub(crate) fn u512_wrapping_mul(a: U512, b: U512) -> (r: U512)
    ensures
        r.value() == wrap(a.value() * b.value(), b256() * b256(), false),
{
    let c = bnum::types::U512::from_digits(a.digits()).wrapping_mul(bnum::types::U512::from_digits(b.digits()));
    U512::from_digits(*c.digits())
}

/// `bnum::types::U512::wrapping_pow`: the power reduced to the bit width.
#[verifier::external_body]
pub(crate) fn u512_wrapping_pow(a: U512, exp: u32) -> (r: U512)
    ensures
        r.value() == wrap(pow(a.value(), exp as nat), b256() * b256(), false),
{
    let c = bnum::types::U512::from_digits(a.digits()).wrapping_pow(exp);
    U512::from_digits(*c.digits())
}

/// `bnum::types::I512::checked_pow`: the power when the type can hold it.
#[verifier::external_body]
pub(crate) fn i512_checked_pow(a: I512, exp: u32) -> (r: Option<I512>)
    ensures
        r is Some <==> fits_i512(pow(a.value(), exp as nat)),
        r matches Some(c) ==> c.value() == pow(a.value(), exp as nat),
{
    match bnum::types::I512::from_bits(bnum::types::U512::from_digits(a.digits())).checked_pow(exp) {
        Some(c) => Some(I512::from_digits(*c.to_bits().digits())),
        None => None,
    }
}

/// `bnum::types::I512::saturating_add`: the sum, clamped to the range of the type.
#[verifier::external_body]
pub(crate) fn i512_saturating_add(a: I512, b: I512) -> (r: I512)
    ensures
        r.value() == clamp(a.value() + b.value(), i512_min(), i512_max()),
{
    let c = bnum::types::I512::from_bits(bnum::types::U512::from_digits(a.digits())).saturating_add(bnum::types::I512::from_bits(bnum::types::U512::from_digits(b.digits())));
    I512::from_digits(*c.to_bits().digits())
}

/// `bnum::types::I512::saturating_sub`: the difference, clamped to the range of the type.
#[verifier::external_body]
pub(crate) fn i512_saturating_sub(a: I512, b: I512) -> (r: I512)
    ensures
        r.value() == clamp(a.value() - b.value(), i512_min(), i512_max()),
{
    let c = bnum::types::I512::from_bits(bnum::types::U512::from_digits(a.digits())).saturating_sub(bnum::types::I512::from_bits(bnum::types::U512::from_digits(b.digits())));
    I512::from_digits(*c.to_bits().digits())
}

/// `bnum::types::I512::saturating_mul`: the product, clamped to the range of the type.
#[verifier::external_body]
pub(crate) fn i512_saturating_mul(a: I512, b: I512) -> (r: I512)
    ensures
        r.value() == clamp(a.value() * b.value(), i512_min(), i512_max()),
{
    let c = bnum::types::I512::from_bits(bnum::types::U512::from_digits(a.digits())).saturating_mul(bnum::types::I512::from_bits(bnum::types::U512::from_digits(b.digits())));
    I512::from_digits(*c.to_bits().digits())
}

/// `bnum::types::I512::saturating_pow`: the power, clamped to the range of the type.
#[verifier::external_body]
pub(crate) fn i512_saturating_pow(a: I512, exp: u32) -> (r: I512)
    ensures
        r.value() == clamp(pow(a.value(), exp as nat), i512_min(), i512_max()),
{
    let c = bnum::types::I512::from_bits(bnum::types::U512::from_digits(a.digits())).saturating_pow(exp);
    I512::from_digits(*c.to_bits().digits())
}

/// `bnum::types::I512::checked_ilog2`: `None` unless the number is positive, else the
/// exponent of the largest power of two not above it.
#[verifier::external_body]
pub(crate) fn i512_checked_ilog2(a: I512) -> (r: Option<u32>)
    ensures
        r == (if a.value() > 0 { Some(ilog(2, a.value()) as u32) } else { None }),
{
    bnum::types::I512::from_bits(bnum::types::U512::from_digits(a.digits())).checked_ilog2()
}

/// `bnum::types::I512::checked_ilog10`: `None` unless the number is positive, else the
/// exponent of the largest power of ten not above it.
#[verifier::external_body]
pub(crate) fn i512_checked_ilog10(a: I512) -> (r: Option<u32>)
    ensures
        r == (if a.value() > 0 { Some(ilog(10, a.value()) as u32) } else { None }),
{
    bnum::types::I512::from_bits(bnum::types::U512::from_digits(a.digits())).checked_ilog10()
}

/// `bnum::types::I512::checked_shl`: `None` when the shift is not less than the bit
/// width, else the bits shifted left, those beyond the width dropped.
#[verifier::external_body]
pub(crate) fn i512_checked_shl(a: I512, rhs: u32) -> (r: Option<I512>)
    ensures
        r is Some <==> rhs < 512,
        r matches Some(c) ==> c.value() == wrap(a.value() * pow(2, rhs as nat), b256() * b256(), true),
{
    match bnum::types::I512::from_bits(bnum::types::U512::from_digits(a.digits())).checked_shl(rhs) {
        Some(c) => Some(I512::from_digits(*c.to_bits().digits())),
        None => None,
    }
}

/// `bnum::types::I512::checked_shr`: `None` when the shift is not less than the bit
/// width, else the number divided by two to the shift, rounded down.
#[verifier::external_body]
pub(crate) fn i512_checked_shr(a: I512, rhs: u32) -> (r: Option<I512>)
    ensures
        r is Some <==> rhs < 512,
        r matches Some(c) ==> c.value() == floor_div(a.value(), pow(2, rhs as nat)),
{
    match bnum::types::I512::from_bits(bnum::types::U512::from_digits(a.digits())).checked_shr(rhs) {
        Some(c) => Some(I512::from_digits(*c.to_bits().digits())),
        None => None,
    }
}

/// `bnum::types::I512::wrapping_add`: the exact result reduced to the bit width.
#[verifier::external_body]
pub(crate) fn i512_wrapping_add(a: I512, b: I512) -> (r: I512)
    ensures
        r.value() == wrap(a.value() + b.value(), b256() * b256(), true),
{
    let c = bnum::types::I512::from_bits(bnum::types::U512::from_digits(a.digits())).wrapping_add(bnum::types::I512::from_bits(bnum::types::U512::from_digits(b.digits())));
    I512::from_digits(*c.to_bits().digits())
}

/// `bnum::types::I512::wrapping_sub`: the exact result reduced to the bit width.
#[verifier::external_body]
pub(crate) fn i512_wrapping_sub(a: I512, b: I512) -> (r: I512)
    ensures
        r.value() == wrap(a.value() - b.value(), b256() * b256(), true),
{
    let c = bnum::types::I512::from_bits(bnum::types::U512::from_digits(a.digits())).wrapping_sub(bnum::types::I512::from_bits(bnum::types::U512::from_digits(b.digits())));
    I512::from_digits(*c.to_bits().digits())
}

/// `bnum::types::I512::wrapping_mul`: the exact result reduced to the bit width.
#[verifier::external_body]
pub(crate) fn i512_wrapping_mul(a: I512, b: I512) -> (r: I512)
    ensures
        r.value() == wrap(a.value() * b.value(), b256() * b256(), true),
{
    let c = bnum::types::I512::from_bits(bnum::types::U512::from_digits(a.digits())).wrapping_mul(bnum::types::I512::from_bits(bnum::types::U512::from_digits(b.digits())));
    I512::from_digits(*c.to_bits().digits())
}

/// `bnum::types::I512::wrapping_pow`: the power reduced to the bit width.
#[verifier::external_body]
pub(crate) fn i512_wrapping_pow(a: I512, exp: u32) -> (r: I512)
    ensures
        r.value() == wrap(pow(a.value(), exp as nat), b256() * b256(), true),
{
    let c = bnum::types::I512::from_bits(bnum::types::U512::from_digits(a.digits())).wrapping_pow(exp);
    I512::from_digits(*c.to_bits().digits())
}

} // verus!
