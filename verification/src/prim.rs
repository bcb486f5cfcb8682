use vstd::prelude::*;
use crate::arith::{ilog, pow, wrap};

verus! {

// Wrappers around the methods of the primitive integer types that the
// arithmetic of this crate calls and that vstd leaves unspecified. Each
// contract states what the method's documentation says it returns.

/// What `u64::checked_pow` returns: the power when the type can hold it.
pub open spec fn u64_checked_pow(x: u64, exp: u32) -> Option<u64> {
    let p = pow(x as int, exp as nat);
    if u64::MIN <= p && p <= u64::MAX { Some(p as u64) } else { None }
}

/// What `u64::saturating_pow` returns: the power, clamped to the type.
pub open spec fn u64_saturating_pow(x: u64, exp: u32) -> u64 {
    let p = pow(x as int, exp as nat);
    if p > u64::MAX { u64::MAX } else if p < u64::MIN { u64::MIN } else { p as u64 }
}

/// What `u64::saturating_mul` returns: the product, clamped to the type.
pub open spec fn u64_saturating_mul(x: u64, y: u64) -> u64 {
    let p = x * y;
    if p > u64::MAX { u64::MAX } else if p < u64::MIN { u64::MIN } else { p as u64 }
}

/// What `u64::checked_shl` returns.
pub open spec fn u64_checked_shl(x: u64, rhs: u32) -> Option<u64> {
    if rhs < 64 { Some(x << rhs) } else { None }
}

/// What `u64::checked_shr` returns.
pub open spec fn u64_checked_shr(x: u64, rhs: u32) -> Option<u64> {
    if rhs < 64 { Some(x >> rhs) } else { None }
}

/// What `u64::checked_ilog2` and `u64::checked_ilog10` return.
pub open spec fn u64_checked_ilog(x: u64, base: int) -> Option<u32> {
    if x > 0 { Some(ilog(base, x as int) as u32) } else { None }
}

/// What `u64::wrapping_pow` returns: the power reduced to the bit width.
pub open spec fn u64_wrapping_pow(x: u64, exp: u32) -> u64 {
    wrap(pow(x as int, exp as nat), 0x1_0000_0000_0000_0000int, false) as u64
}

/// `u64::checked_pow`: the power when it is representable, else `None`.
#[verifier::external_body]
pub(crate) fn u64_checked_pow_call(x: u64, exp: u32) -> (r: Option<u64>)
    ensures
        r == u64_checked_pow(x, exp),
{
    x.checked_pow(exp)
}

/// `u64::saturating_pow`: the power, clamped to the range of the type.
#[verifier::external_body]
pub(crate) fn u64_saturating_pow_call(x: u64, exp: u32) -> (r: u64)
    ensures
        r == u64_saturating_pow(x, exp),
{
    x.saturating_pow(exp)
}

/// `u64::saturating_mul`: the product, clamped to the range of the type.
#[verifier::external_body]
pub(crate) fn u64_saturating_mul_call(x: u64, y: u64) -> (r: u64)
    ensures
        r == u64_saturating_mul(x, y),
{
    x.saturating_mul(y)
}

/// `u64::checked_shl`: `None` when the shift is not less than the bit width,
/// else the bits shifted left, those past the width dropped.
#[verifier::external_body]
pub(crate) fn u64_checked_shl_call(x: u64, rhs: u32) -> (r: Option<u64>)
    ensures
        r == u64_checked_shl(x, rhs),
{
    x.checked_shl(rhs)
}

/// `u64::checked_shr`: `None` when the shift is not less than the bit width,
/// else the bits shifted right.
#[verifier::external_body]
pub(crate) fn u64_checked_shr_call(x: u64, rhs: u32) -> (r: Option<u64>)
    ensures
        r == u64_checked_shr(x, rhs),
{
    x.checked_shr(rhs)
}

/// `u64::checked_ilog2`: `None` unless the number is positive, else the
/// exponent of the largest power of two not above it.
#[verifier::external_body]
pub(crate) fn u64_checked_ilog2_call(x: u64) -> (r: Option<u32>)
    ensures
        r == u64_checked_ilog(x, 2),
{
    x.checked_ilog2()
}

/// `u64::checked_ilog10`: `None` unless the number is positive, else the
/// exponent of the largest power of ten not above it.
#[verifier::external_body]
pub(crate) fn u64_checked_ilog10_call(x: u64) -> (r: Option<u32>)
    ensures
        r == u64_checked_ilog(x, 10),
{
    x.checked_ilog10()
}

/// `u64::wrapping_pow`: the power reduced modulo two to the bit width.
#[verifier::external_body]
pub(crate) fn u64_wrapping_pow_call(x: u64, exp: u32) -> (r: u64)
    ensures
        r == u64_wrapping_pow(x, exp),
{
    x.wrapping_pow(exp)
}

/// What `u64::checked_neg` returns: zero for zero, else `None`.
pub open spec fn u64_checked_neg(x: u64) -> Option<u64> {
    if x == 0 { Some(0u64) } else { None }
}

/// The negation as `u64::checked_neg` gives it: zero for zero, `None` for
/// every other value.
pub(crate) fn u64_checked_neg_call(x: u64) -> (r: Option<u64>)
    ensures
        r == u64_checked_neg(x),
{
    if x == 0 { Some(0) } else { None }
}

/// What `u128::checked_pow` returns: the power when the type can hold it.
pub open spec fn u128_checked_pow(x: u128, exp: u32) -> Option<u128> {
    let p = pow(x as int, exp as nat);
    if u128::MIN <= p && p <= u128::MAX { Some(p as u128) } else { None }
}

/// What `u128::saturating_pow` returns: the power, clamped to the type.
pub open spec fn u128_saturating_pow(x: u128, exp: u32) -> u128 {
    let p = pow(x as int, exp as nat);
    if p > u128::MAX { u128::MAX } else if p < u128::MIN { u128::MIN } else { p as u128 }
}

/// What `u128::saturating_mul` returns: the product, clamped to the type.
pub open spec fn u128_saturating_mul(x: u128, y: u128) -> u128 {
    let p = x * y;
    if p > u128::MAX { u128::MAX } else if p < u128::MIN { u128::MIN } else { p as u128 }
}

/// What `u128::checked_shl` returns.
pub open spec fn u128_checked_shl(x: u128, rhs: u32) -> Option<u128> {
    if rhs < 128 { Some(x << rhs) } else { None }
}

/// What `u128::checked_shr` returns.
pub open spec fn u128_checked_shr(x: u128, rhs: u32) -> Option<u128> {
    if rhs < 128 { Some(x >> rhs) } else { None }
}

/// What `u128::checked_ilog2` and `u128::checked_ilog10` return.
pub open spec fn u128_checked_ilog(x: u128, base: int) -> Option<u32> {
    if x > 0 { Some(ilog(base, x as int) as u32) } else { None }
}

/// What `u128::wrapping_pow` returns: the power reduced to the bit width.
pub open spec fn u128_wrapping_pow(x: u128, exp: u32) -> u128 {
    wrap(pow(x as int, exp as nat), 0x1_0000_0000_0000_0000_0000_0000_0000_0000int, false) as u128
}

/// `u128::checked_pow`: the power when it is representable, else `None`.
#[verifier::external_body]
pub(crate) fn u128_checked_pow_call(x: u128, exp: u32) -> (r: Option<u128>)
    ensures
        r == u128_checked_pow(x, exp),
{
    x.checked_pow(exp)
}

/// `u128::saturating_pow`: the power, clamped to the range of the type.
#[verifier::external_body]
pub(crate) fn u128_saturating_pow_call(x: u128, exp: u32) -> (r: u128)
    ensures
        r == u128_saturating_pow(x, exp),
{
    x.saturating_pow(exp)
}

/// `u128::saturating_mul`: the product, clamped to the range of the type.
#[verifier::external_body]
pub(crate) fn u128_saturating_mul_call(x: u128, y: u128) -> (r: u128)
    ensures
        r == u128_saturating_mul(x, y),
{
    x.saturating_mul(y)
}

/// `u128::checked_shl`: `None` when the shift is not less than the bit width,
/// else the bits shifted left, those past the width dropped.
#[verifier::external_body]
pub(crate) fn u128_checked_shl_call(x: u128, rhs: u32) -> (r: Option<u128>)
    ensures
        r == u128_checked_shl(x, rhs),
{
    x.checked_shl(rhs)
}

/// `u128::checked_shr`: `None` when the shift is not less than the bit width,
/// else the bits shifted right.
#[verifier::external_body]
pub(crate) fn u128_checked_shr_call(x: u128, rhs: u32) -> (r: Option<u128>)
    ensures
        r == u128_checked_shr(x, rhs),
{
    x.checked_shr(rhs)
}

/// `u128::checked_ilog2`: `None` unless the number is positive, else the
/// exponent of the largest power of two not above it.
#[verifier::external_body]
pub(crate) fn u128_checked_ilog2_call(x: u128) -> (r: Option<u32>)
    ensures
        r == u128_checked_ilog(x, 2),
{
    x.checked_ilog2()
}

/// `u128::checked_ilog10`: `None` unless the number is positive, else the
/// exponent of the largest power of ten not above it.
#[verifier::external_body]
pub(crate) fn u128_checked_ilog10_call(x: u128) -> (r: Option<u32>)
    ensures
        r == u128_checked_ilog(x, 10),
{
    x.checked_ilog10()
}

/// `u128::wrapping_pow`: the power reduced modulo two to the bit width.
#[verifier::external_body]
pub(crate) fn u128_wrapping_pow_call(x: u128, exp: u32) -> (r: u128)
    ensures
        r == u128_wrapping_pow(x, exp),
{
    x.wrapping_pow(exp)
}

/// What `u128::checked_neg` returns: zero for zero, else `None`.
pub open spec fn u128_checked_neg(x: u128) -> Option<u128> {
    if x == 0 { Some(0u128) } else { None }
}

/// The negation as `u128::checked_neg` gives it: zero for zero, `None` for
/// every other value.
pub(crate) fn u128_checked_neg_call(x: u128) -> (r: Option<u128>)
    ensures
        r == u128_checked_neg(x),
{
    if x == 0 { Some(0) } else { None }
}

/// What `i64::checked_pow` returns: the power when the type can hold it.
pub open spec fn i64_checked_pow(x: i64, exp: u32) -> Option<i64> {
    let p = pow(x as int, exp as nat);
    if i64::MIN <= p && p <= i64::MAX { Some(p as i64) } else { None }
}

/// What `i64::saturating_pow` returns: the power, clamped to the type.
pub open spec fn i64_saturating_pow(x: i64, exp: u32) -> i64 {
    let p = pow(x as int, exp as nat);
    if p > i64::MAX { i64::MAX } else if p < i64::MIN { i64::MIN } else { p as i64 }
}

/// What `i64::saturating_mul` returns: the product, clamped to the type.
pub open spec fn i64_saturating_mul(x: i64, y: i64) -> i64 {
    let p = x * y;
    if p > i64::MAX { i64::MAX } else if p < i64::MIN { i64::MIN } else { p as i64 }
}

/// What `i64::checked_shl` returns.
pub open spec fn i64_checked_shl(x: i64, rhs: u32) -> Option<i64> {
    if rhs < 64 { Some(x << rhs) } else { None }
}

/// What `i64::checked_shr` returns.
pub open spec fn i64_checked_shr(x: i64, rhs: u32) -> Option<i64> {
    if rhs < 64 { Some(x >> rhs) } else { None }
}

/// What `i64::checked_ilog2` and `i64::checked_ilog10` return.
pub open spec fn i64_checked_ilog(x: i64, base: int) -> Option<u32> {
    if x > 0 { Some(ilog(base, x as int) as u32) } else { None }
}

/// What `i64::wrapping_pow` returns: the power reduced to the bit width.
pub open spec fn i64_wrapping_pow(x: i64, exp: u32) -> i64 {
    wrap(pow(x as int, exp as nat), 0x1_0000_0000_0000_0000int, true) as i64
}

/// `i64::checked_pow`: the power when it is representable, else `None`.
#[verifier::external_body]
pub(crate) fn i64_checked_pow_call(x: i64, exp: u32) -> (r: Option<i64>)
    ensures
        r == i64_checked_pow(x, exp),
{
    x.checked_pow(exp)
}

/// `i64::saturating_pow`: the power, clamped to the range of the type.
#[verifier::external_body]
pub(crate) fn i64_saturating_pow_call(x: i64, exp: u32) -> (r: i64)
    ensures
        r == i64_saturating_pow(x, exp),
{
    x.saturating_pow(exp)
}

/// `i64::saturating_mul`: the product, clamped to the range of the type.
#[verifier::external_body]
pub(crate) fn i64_saturating_mul_call(x: i64, y: i64) -> (r: i64)
    ensures
        r == i64_saturating_mul(x, y),
{
    x.saturating_mul(y)
}

/// `i64::checked_shl`: `None` when the shift is not less than the bit width,
/// else the bits shifted left, those past the width dropped.
#[verifier::external_body]
pub(crate) fn i64_checked_shl_call(x: i64, rhs: u32) -> (r: Option<i64>)
    ensures
        r == i64_checked_shl(x, rhs),
{
    x.checked_shl(rhs)
}

/// `i64::checked_shr`: `None` when the shift is not less than the bit width,
/// else the bits shifted right.
#[verifier::external_body]
pub(crate) fn i64_checked_shr_call(x: i64, rhs: u32) -> (r: Option<i64>)
    ensures
        r == i64_checked_shr(x, rhs),
{
    x.checked_shr(rhs)
}

/// `i64::checked_ilog2`: `None` unless the number is positive, else the
/// exponent of the largest power of two not above it.
#[verifier::external_body]
pub(crate) fn i64_checked_ilog2_call(x: i64) -> (r: Option<u32>)
    ensures
        r == i64_checked_ilog(x, 2),
{
    x.checked_ilog2()
}

/// `i64::checked_ilog10`: `None` unless the number is positive, else the
/// exponent of the largest power of ten not above it.
#[verifier::external_body]
pub(crate) fn i64_checked_ilog10_call(x: i64) -> (r: Option<u32>)
    ensures
        r == i64_checked_ilog(x, 10),
{
    x.checked_ilog10()
}

/// `i64::wrapping_pow`: the power reduced modulo two to the bit width.
#[verifier::external_body]
pub(crate) fn i64_wrapping_pow_call(x: i64, exp: u32) -> (r: i64)
    ensures
        r == i64_wrapping_pow(x, exp),
{
    x.wrapping_pow(exp)
}

/// What `i64::checked_neg` returns: the negation, `None` for the minimum.
pub open spec fn i64_checked_neg(x: i64) -> Option<i64> {
    if x == i64::MIN { None } else { Some((-x) as i64) }
}

/// What `i64::saturating_add` returns: the sum, clamped to the type.
pub open spec fn i64_saturating_add(x: i64, y: i64) -> i64 {
    let p = x + y;
    if p > i64::MAX { i64::MAX } else if p < i64::MIN { i64::MIN } else { p as i64 }
}

/// What `i64::saturating_sub` returns: the difference, clamped to the type.
pub open spec fn i64_saturating_sub(x: i64, y: i64) -> i64 {
    let p = x - y;
    if p > i64::MAX { i64::MAX } else if p < i64::MIN { i64::MIN } else { p as i64 }
}

/// `i64::checked_neg`: the negation, `None` for the minimum.
#[verifier::external_body]
pub(crate) fn i64_checked_neg_call(x: i64) -> (r: Option<i64>)
    ensures
        r == i64_checked_neg(x),
{
    x.checked_neg()
}

/// The sum, clamped to the range of the type, as `i64::saturating_add`
/// gives it: an overflow can only go the way the sign of `y` points.
pub(crate) fn i64_saturating_add_call(x: i64, y: i64) -> (r: i64)
    ensures
        r == i64_saturating_add(x, y),
{
    match x.checked_add(y) {
        Some(v) => v,
        None => if y > 0 { i64::MAX } else { i64::MIN },
    }
}

/// The difference, clamped to the range of the type, as `i64::saturating_sub`
/// gives it: an overflow can only go the way the sign of `y` points.
pub(crate) fn i64_saturating_sub_call(x: i64, y: i64) -> (r: i64)
    ensures
        r == i64_saturating_sub(x, y),
{
    match x.checked_sub(y) {
        Some(v) => v,
        None => if y < 0 { i64::MAX } else { i64::MIN },
    }
}

/// What `i128::checked_pow` returns: the power when the type can hold it.
pub open spec fn i128_checked_pow(x: i128, exp: u32) -> Option<i128> {
    let p = pow(x as int, exp as nat);
    if i128::MIN <= p && p <= i128::MAX { Some(p as i128) } else { None }
}

/// What `i128::saturating_pow` returns: the power, clamped to the type.
pub open spec fn i128_saturating_pow(x: i128, exp: u32) -> i128 {
    let p = pow(x as int, exp as nat);
    if p > i128::MAX { i128::MAX } else if p < i128::MIN { i128::MIN } else { p as i128 }
}

/// What `i128::saturating_mul` returns: the product, clamped to the type.
pub open spec fn i128_saturating_mul(x: i128, y: i128) -> i128 {
    let p = x * y;
    if p > i128::MAX { i128::MAX } else if p < i128::MIN { i128::MIN } else { p as i128 }
}

/// What `i128::checked_shl` returns.
pub open spec fn i128_checked_shl(x: i128, rhs: u32) -> Option<i128> {
    if rhs < 128 { Some(x << rhs) } else { None }
}

/// What `i128::checked_shr` returns.
pub open spec fn i128_checked_shr(x: i128, rhs: u32) -> Option<i128> {
    if rhs < 128 { Some(x >> rhs) } else { None }
}

/// What `i128::checked_ilog2` and `i128::checked_ilog10` return.
pub open spec fn i128_checked_ilog(x: i128, base: int) -> Option<u32> {
    if x > 0 { Some(ilog(base, x as int) as u32) } else { None }
}

/// What `i128::wrapping_pow` returns: the power reduced to the bit width.
pub open spec fn i128_wrapping_pow(x: i128, exp: u32) -> i128 {
    wrap(pow(x as int, exp as nat), 0x1_0000_0000_0000_0000_0000_0000_0000_0000int, true) as i128
}

/// `i128::checked_pow`: the power when it is representable, else `None`.
#[verifier::external_body]
pub(crate) fn i128_checked_pow_call(x: i128, exp: u32) -> (r: Option<i128>)
    ensures
        r == i128_checked_pow(x, exp),
{
    x.checked_pow(exp)
}

/// `i128::saturating_pow`: the power, clamped to the range of the type.
#[verifier::external_body]
pub(crate) fn i128_saturating_pow_call(x: i128, exp: u32) -> (r: i128)
    ensures
        r == i128_saturating_pow(x, exp),
{
    x.saturating_pow(exp)
}

/// `i128::saturating_mul`: the product, clamped to the range of the type.
#[verifier::external_body]
pub(crate) fn i128_saturating_mul_call(x: i128, y: i128) -> (r: i128)
    ensures
        r == i128_saturating_mul(x, y),
{
    x.saturating_mul(y)
}

/// `i128::checked_shl`: `None` when the shift is not less than the bit width,
/// else the bits shifted left, those past the width dropped.
#[verifier::external_body]
pub(crate) fn i128_checked_shl_call(x: i128, rhs: u32) -> (r: Option<i128>)
    ensures
        r == i128_checked_shl(x, rhs),
{
    x.checked_shl(rhs)
}

/// `i128::checked_shr`: `None` when the shift is not less than the bit width,
/// else the bits shifted right.
#[verifier::external_body]
pub(crate) fn i128_checked_shr_call(x: i128, rhs: u32) -> (r: Option<i128>)
    ensures
        r == i128_checked_shr(x, rhs),
{
    x.checked_shr(rhs)
}

/// `i128::checked_ilog2`: `None` unless the number is positive, else the
/// exponent of the largest power of two not above it.
#[verifier::external_body]
pub(crate) fn i128_checked_ilog2_call(x: i128) -> (r: Option<u32>)
    ensures
        r == i128_checked_ilog(x, 2),
{
    x.checked_ilog2()
}

/// `i128::checked_ilog10`: `None` unless the number is positive, else the
/// exponent of the largest power of ten not above it.
#[verifier::external_body]
pub(crate) fn i128_checked_ilog10_call(x: i128) -> (r: Option<u32>)
    ensures
        r == i128_checked_ilog(x, 10),
{
    x.checked_ilog10()
}

/// `i128::wrapping_pow`: the power reduced modulo two to the bit width.
#[verifier::external_body]
pub(crate) fn i128_wrapping_pow_call(x: i128, exp: u32) -> (r: i128)
    ensures
        r == i128_wrapping_pow(x, exp),
{
    x.wrapping_pow(exp)
}

/// What `i128::checked_neg` returns: the negation, `None` for the minimum.
pub open spec fn i128_checked_neg(x: i128) -> Option<i128> {
    if x == i128::MIN { None } else { Some((-x) as i128) }
}

/// What `i128::saturating_add` returns: the sum, clamped to the type.
pub open spec fn i128_saturating_add(x: i128, y: i128) -> i128 {
    let p = x + y;
    if p > i128::MAX { i128::MAX } else if p < i128::MIN { i128::MIN } else { p as i128 }
}

/// What `i128::saturating_sub` returns: the difference, clamped to the type.
pub open spec fn i128_saturating_sub(x: i128, y: i128) -> i128 {
    let p = x - y;
    if p > i128::MAX { i128::MAX } else if p < i128::MIN { i128::MIN } else { p as i128 }
}

/// `i128::checked_neg`: the negation, `None` for the minimum.
#[verifier::external_body]
pub(crate) fn i128_checked_neg_call(x: i128) -> (r: Option<i128>)
    ensures
        r == i128_checked_neg(x),
{
    x.checked_neg()
}

/// The sum, clamped to the range of the type, as `i128::saturating_add`
/// gives it: an overflow can only go the way the sign of `y` points.
pub(crate) fn i128_saturating_add_call(x: i128, y: i128) -> (r: i128)
    ensures
        r == i128_saturating_add(x, y),
{
    match x.checked_add(y) {
        Some(v) => v,
        None => if y > 0 { i128::MAX } else { i128::MIN },
    }
}

/// The difference, clamped to the range of the type, as `i128::saturating_sub`
/// gives it: an overflow can only go the way the sign of `y` points.
pub(crate) fn i128_saturating_sub_call(x: i128, y: i128) -> (r: i128)
    ensures
        r == i128_saturating_sub(x, y),
{
    match x.checked_sub(y) {
        Some(v) => v,
        None => if y < 0 { i128::MAX } else { i128::MIN },
    }
}

} // verus!
