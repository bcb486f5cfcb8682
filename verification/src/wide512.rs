use vstd::prelude::*;
use crate::arith::{tdiv, trem};
use crate::display::int_text_of;
use crate::parse::int_text;
use vstd::string::StringSliceAdditionalSpecFns;
use crate::wide::{fits_i256, fits_u256, lemma_i256_range, lemma_u256_range, I256, U256};

verus! {

/// `2^256`.
pub open spec fn b256() -> int {
    0x1_0000_0000_0000_0000_0000_0000_0000_0000_0000_0000_0000_0000_0000_0000_0000_0000int
}

/// A 512-bit unsigned integer, held as its low and high 256-bit halves (the
/// digit layout of `bnum::types::U512`).
#[derive(Clone, Copy, Debug, PartialEq, Eq, Structural, Hash)]
pub struct U512 {
    pub lo: U256,
    pub hi: U256,
}

/// A 512-bit signed integer, held as the low and high halves of its two's
/// complement bits (the digit layout of `bnum::types::I512`).
#[derive(Clone, Copy, Debug, PartialEq, Eq, Structural, Hash)]
pub struct I512 {
    pub lo: U256,
    pub hi: U256,
}

impl U512 {
    pub open spec fn value(self) -> int {
        self.lo.value() + self.hi.value() * b256()
    }
}

impl I512 {
    pub open spec fn value(self) -> int {
        if self.hi.d3 >= 0x8000_0000_0000_0000 {
            self.lo.value() + self.hi.value() * b256() - b256() * b256()
        } else {
            self.lo.value() + self.hi.value() * b256()
        }
    }
}

impl U512 {
    /// The eight 64-bit digits of the bits, least significant first (the
    /// digit order of `bnum`).
    pub fn digits(&self) -> (r: [u64; 8])
        ensures
            r@ == self.digits_seq(),
    {
        [self.lo.d0, self.lo.d1, self.lo.d2, self.lo.d3, self.hi.d0, self.hi.d1, self.hi.d2, self.hi.d3]
    }

    /// The number whose bits have these eight 64-bit digits, least
    /// significant first.
    pub fn from_digits(d: [u64; 8]) -> (r: Self)
        ensures
            r.digits_seq() == d@,
    {
        U512 { lo: U256 { d0: d[0], d1: d[1], d2: d[2], d3: d[3] }, hi: U256 { d0: d[4], d1: d[5], d2: d[6], d3: d[7] } }
    }

    /// The digits as a sequence, least significant first.
    pub open spec fn digits_seq(self) -> Seq<u64> {
        seq![self.lo.d0, self.lo.d1, self.lo.d2, self.lo.d3, self.hi.d0, self.hi.d1, self.hi.d2, self.hi.d3]
    }
}

impl I512 {
    /// The eight 64-bit digits of the bits, least significant first (the
    /// digit order of `bnum`).
    pub fn digits(&self) -> (r: [u64; 8])
        ensures
            r@ == self.digits_seq(),
    {
        [self.lo.d0, self.lo.d1, self.lo.d2, self.lo.d3, self.hi.d0, self.hi.d1, self.hi.d2, self.hi.d3]
    }

    /// The number whose bits have these eight 64-bit digits, least
    /// significant first.
    pub fn from_digits(d: [u64; 8]) -> (r: Self)
        ensures
            r.digits_seq() == d@,
    {
        I512 { lo: U256 { d0: d[0], d1: d[1], d2: d[2], d3: d[3] }, hi: U256 { d0: d[4], d1: d[5], d2: d[6], d3: d[7] } }
    }

    /// The digits as a sequence, least significant first.
    pub open spec fn digits_seq(self) -> Seq<u64> {
        seq![self.lo.d0, self.lo.d1, self.lo.d2, self.lo.d3, self.hi.d0, self.hi.d1, self.hi.d2, self.hi.d3]
    }
}

pub open spec fn fits_u512(v: int) -> bool {
    0 <= v < b256() * b256()
}

pub open spec fn fits_i512(v: int) -> bool {
    -(b256() * b256() / 2) <= v < b256() * b256() / 2
}

/// Truncating division of 512-bit signed values is defined.
pub open spec fn i512_div_defined(a: int, b: int) -> bool {
    b != 0 && !(a == -(b256() * b256() / 2) && b == -1)
}

impl U512 {
    /// The number with the value of `x`.
    pub fn from_u256(x: U256) -> (r: Self)
        ensures
            r.value() == x.value(),
    {
        U512 { lo: x, hi: U256::zero() }
    }

    /// The value as a 256-bit number, when it fits.
    pub fn checked_into_u256(self) -> (r: Option<U256>)
        ensures
            r is Some <==> fits_u256(self.value()),
            r matches Some(v) ==> v.value() == self.value(),
    {
        if self.hi.is_zero() {
            Some(self.lo)
        } else {
            proof {
                assert(self.hi.value() >= 1);
                assert(self.hi.value() * b256() >= b256()) by (nonlinear_arith)
                    requires self.hi.value() >= 1;
            }
            None
        }
    }

    pub fn one() -> (r: Self)
        ensures
            r.value() == 1,
    {
        U512 { lo: U256::one(), hi: U256::zero() }
    }
}

/// The two's complement digits of a 256-bit signed number, read unsigned.
fn i256_bits(x: I256) -> (r: U256)
    ensures
        r.value() == (if x.value() < 0 { x.value() + b256() } else { x.value() }),
{
    proof {
        lemma_i256_range(x);
    }
    U256 { d0: x.d0, d1: x.d1, d2: x.d2, d3: x.d3 }
}

impl I512 {
    /// The number with the value of `x`.
    pub fn from_i256(x: I256) -> (r: Self)
        ensures
            r.value() == x.value(),
    {
        proof {
            lemma_i256_range(x);
        }
        let lo = i256_bits(x);
        if x.is_negative() {
            let hi = U256::max();
            proof {
                assert(hi.d3 >= 0x8000_0000_0000_0000);
                assert(lo.value() + (b256() - 1) * b256() - b256() * b256() == lo.value() - b256()) by (nonlinear_arith);
            }
            I512 { lo, hi }
        } else {
            I512 { lo, hi: U256::zero() }
        }
    }

    /// The value as a 256-bit number, when it fits.
    pub fn checked_into_i256(self) -> (r: Option<I256>)
        ensures
            r is Some <==> fits_i256(self.value()),
            r matches Some(v) ==> v.value() == self.value(),
    {
        let lo = self.lo;
        let top_set = lo.d3 >= 0x8000_0000_0000_0000;
        let hi_zero = self.hi.is_zero();
        let hi_ones = self.hi.d0 == u64::MAX && self.hi.d1 == u64::MAX && self.hi.d2 == u64::MAX
            && self.hi.d3 == u64::MAX;
        proof {
            if hi_ones {
                assert(self.hi.value() == b256() - 1);
                assert(self.value() == lo.value() - b256()) by (nonlinear_arith)
                    requires self.value() == lo.value() + (b256() - 1) * b256() - b256() * b256();
            }
            if !hi_zero && !hi_ones {
                assert(1 <= self.hi.value() < b256() - 1);
                if self.hi.d3 >= 0x8000_0000_0000_0000 {
                    assert(self.value() < -b256() * b256() / 2 + b256() * b256() / 2 - b256() + b256()) by (nonlinear_arith)
                        requires
                            self.value() == lo.value() + self.hi.value() * b256() - b256() * b256(),
                            lo.value() < b256(),
                            self.hi.value() <= b256() - 2;
                    assert(self.value() < -(b256() / 2)) by (nonlinear_arith)
                        requires
                            self.value() == lo.value() + self.hi.value() * b256() - b256() * b256(),
                            0 <= lo.value() < b256(),
                            self.hi.value() <= b256() - 2,
                            b256() > 4;
                } else {
                    assert(self.value() >= b256()) by (nonlinear_arith)
                        requires
                            self.value() == lo.value() + self.hi.value() * b256(),
                            lo.value() >= 0,
                            self.hi.value() >= 1;
                }
            }
        }
        if (hi_zero && !top_set) || (hi_ones && top_set) {
            Some(I256 { d0: lo.d0, d1: lo.d1, d2: lo.d2, d3: lo.d3 })
        } else {
            None
        }
    }

    pub fn one() -> (r: Self)
        ensures
            r.value() == 1,
    {
        I512 { lo: U256::one(), hi: U256::zero() }
    }

    pub fn is_negative(&self) -> (r: bool)
        ensures
            r == (self.value() < 0),
    {
        proof {
            if self.hi.d3 >= 0x8000_0000_0000_0000 {
                assert(self.hi.value() >= b256() / 2);
                assert(self.value() < 0) by (nonlinear_arith)
                    requires
                        self.value() == self.lo.value() + self.hi.value() * b256() - b256() * b256(),
                        self.lo.value() < b256(),
                        self.hi.value() < b256();
            } else {
                assert(self.value() >= 0) by (nonlinear_arith)
                    requires
                        self.value() == self.lo.value() + self.hi.value() * b256(),
                        self.lo.value() >= 0,
                        self.hi.value() >= 0;
            }
        }
        self.hi.d3 >= 0x8000_0000_0000_0000
    }

    pub fn is_zero(&self) -> (r: bool)
        ensures
            r == (self.value() == 0),
    {
        proof {
            if self.lo.value() == 0 && self.hi.value() == 0 {
            } else if self.hi.d3 < 0x8000_0000_0000_0000 {
                assert(self.value() > 0) by (nonlinear_arith)
                    requires
                        self.value() == self.lo.value() + self.hi.value() * b256(),
                        self.lo.value() >= 0,
                        self.hi.value() >= 0,
                        self.lo.value() > 0 || self.hi.value() > 0;
            }
        }
        self.lo.is_zero() && self.hi.is_zero()
    }
}



pub open spec fn u512_min() -> int {
    0
}

pub open spec fn u512_max() -> int {
    b256() * b256() - 1
}

pub open spec fn i512_min() -> int {
    -(b256() * b256() / 2)
}

pub open spec fn i512_max() -> int {
    b256() * b256() / 2 - 1
}

/// A 512-bit unsigned number lies in its range.
pub proof fn lemma_u512_range(a: U512)
    ensures
        fits_u512(a.value()),
        u512_min() <= a.value() <= u512_max(),
{
    lemma_u256_range(a.lo);
    lemma_u256_range(a.hi);
    let l = a.lo.value();
    let h = a.hi.value();
    assert(0 <= l + h * b256() < b256() * b256()) by (nonlinear_arith)
        requires
            0 <= l < b256(),
            0 <= h < b256(),
    ;
}

/// A 512-bit signed number lies in its range, and is negative exactly when
/// its top bit is set.
pub proof fn lemma_i512_range(a: I512)
    ensures
        fits_i512(a.value()),
        i512_min() <= a.value() <= i512_max(),
        (a.value() < 0) == (a.hi.d3 >= 0x8000_0000_0000_0000),
{
    lemma_u256_range(a.lo);
    lemma_u256_range(a.hi);
    let l = a.lo.value();
    let h = a.hi.value();
    if a.hi.d3 >= 0x8000_0000_0000_0000 {
        assert(h >= b256() / 2);
        assert(-(b256() * b256() / 2) <= l + h * b256() - b256() * b256() < 0) by (nonlinear_arith)
            requires
                0 <= l < b256(),
                b256() / 2 <= h < b256(),
                b256() % 2 == 0,
                b256() > 2,
        ;
    } else {
        assert(h < b256() / 2);
        assert(0 <= l + h * b256() < b256() * b256() / 2) by (nonlinear_arith)
            requires
                0 <= l < b256(),
                0 <= h < b256() / 2,
                b256() % 2 == 0,
                b256() > 2,
        ;
    }
}

impl U512 {
    /// The number with the value of `x`.
    pub fn from_u128(x: u128) -> (r: Self)
        ensures
            r.value() == x,
    {
        Self::from_u256(U256::from_u128(x))
    }

    pub fn zero() -> (r: Self)
        ensures
            r.value() == 0,
    {
        U512 { lo: U256::zero(), hi: U256::zero() }
    }

    pub fn max() -> (r: Self)
        ensures
            r.value() == u512_max(),
    {
        let m = U256::max();
        proof {
            assert(m.value() + m.value() * b256() == b256() * b256() - 1) by (nonlinear_arith)
                requires
                    m.value() == b256() - 1,
            ;
        }
        U512 { lo: m, hi: m }
    }

    pub fn is_zero(&self) -> (r: bool)
        ensures
            r == (self.value() == 0),
    {
        proof {
            lemma_u256_range(self.lo);
            lemma_u256_range(self.hi);
            if self.hi.value() > 0 {
                assert(self.lo.value() + self.hi.value() * b256() > 0) by (nonlinear_arith)
                    requires
                        self.lo.value() >= 0,
                        self.hi.value() >= 1,
                ;
            }
        }
        self.lo.is_zero() && self.hi.is_zero()
    }

    /// Whether the value is below that of `other`.
    pub fn lt(&self, other: &Self) -> (r: bool)
        ensures
            r == (self.value() < other.value()),
    {
        proof {
            lemma_halves_order(self.lo.value(), self.hi.value(), other.lo.value(), other.hi.value());
        }
        if self.hi.lt(&other.hi) {
            true
        } else if other.hi.lt(&self.hi) {
            false
        } else {
            self.lo.lt(&other.lo)
        }
    }
}

/// Numbers held as two halves compare as their high halves do, and as
/// their low halves when the high halves are equal.
proof fn lemma_halves_order(l1: int, h1: int, l2: int, h2: int)
    requires
        0 <= l1 < b256(),
        0 <= l2 < b256(),
    ensures
        h1 < h2 ==> l1 + h1 * b256() < l2 + h2 * b256(),
        h2 < h1 ==> l2 + h2 * b256() < l1 + h1 * b256(),
        h1 == h2 ==> (l1 + h1 * b256() < l2 + h2 * b256() <==> l1 < l2),
{
    if h1 < h2 {
        assert(l1 + h1 * b256() < l2 + h2 * b256()) by (nonlinear_arith)
            requires 0 <= l1 < b256(), 0 <= l2, h1 + 1 <= h2;
    }
    if h2 < h1 {
        assert(l2 + h2 * b256() < l1 + h1 * b256()) by (nonlinear_arith)
            requires 0 <= l2 < b256(), 0 <= l1, h2 + 1 <= h1;
    }
}

impl I512 {
    /// The number with the value of `x`.
    pub fn from_i128(x: i128) -> (r: Self)
        ensures
            r.value() == x,
    {
        Self::from_i256(I256::from_i128(x))
    }

    pub fn zero() -> (r: Self)
        ensures
            r.value() == 0,
    {
        I512 { lo: U256::zero(), hi: U256::zero() }
    }

    pub fn min() -> (r: Self)
        ensures
            r.value() == i512_min(),
    {
        let hi = U256 { d0: 0, d1: 0, d2: 0, d3: 0x8000_0000_0000_0000 };
        proof {
            assert(hi.value() == b256() / 2);
            assert(0 + (b256() / 2) * b256() - b256() * b256() == -(b256() * b256() / 2)) by (nonlinear_arith)
                requires
                    b256() % 2 == 0,
            ;
        }
        I512 { lo: U256::zero(), hi }
    }

    pub fn max() -> (r: Self)
        ensures
            r.value() == i512_max(),
    {
        let lo = U256::max();
        let hi = U256 { d0: u64::MAX, d1: u64::MAX, d2: u64::MAX, d3: 0x7fff_ffff_ffff_ffff };
        proof {
            assert(hi.value() == b256() / 2 - 1);
            assert(lo.value() + hi.value() * b256() == b256() * b256() / 2 - 1) by (nonlinear_arith)
                requires
                    lo.value() == b256() - 1,
                    hi.value() == b256() / 2 - 1,
                    b256() % 2 == 0,
            ;
        }
        I512 { lo, hi }
    }

    /// Whether the value is below that of `other`.
    pub fn lt(&self, other: &Self) -> (r: bool)
        ensures
            r == (self.value() < other.value()),
    {
        proof {
            lemma_i512_range(*self);
            lemma_i512_range(*other);
            lemma_u256_range(self.lo);
            lemma_u256_range(other.lo);
            lemma_halves_order(self.lo.value(), self.hi.value(), other.lo.value(), other.hi.value());
        }
        let a_neg = self.is_negative();
        let b_neg = other.is_negative();
        if a_neg != b_neg {
            a_neg
        } else if self.hi.lt(&other.hi) {
            true
        } else if other.hi.lt(&self.hi) {
            false
        } else {
            self.lo.lt(&other.lo)
        }
    }

    /// Whether the value is above zero.
    pub fn is_positive(&self) -> (r: bool)
        ensures
            r == (self.value() > 0),
    {
        !self.is_negative() && !self.is_zero()
    }
}

/// `bnum::types::U512::checked_mul`: the product when the type can hold it.
#[verifier::external_body]
pub(crate) fn u512_checked_mul(a: U512, b: U512) -> (r: Option<U512>)
    ensures
        r is Some <==> fits_u512(a.value() * b.value()),
        r matches Some(c) ==> c.value() == a.value() * b.value(),
{
    let x = bnum::types::U512::from_digits(a.digits());
    let y = bnum::types::U512::from_digits(b.digits());
    match x.checked_mul(y) {
        Some(c) => {
            let d = *c.digits();
            Some(U512::from_digits(d))
        },
        None => None,
    }
}

/// `bnum::types::U512::checked_div`: the quotient, unless the divisor is
/// zero.
#[verifier::external_body]
pub(crate) fn u512_checked_div(a: U512, b: U512) -> (r: Option<U512>)
    ensures
        r is Some <==> b.value() != 0,
        r matches Some(c) ==> c.value() == a.value() / b.value(),
{
    let x = bnum::types::U512::from_digits(a.digits());
    let y = bnum::types::U512::from_digits(b.digits());
    match x.checked_div(y) {
        Some(c) => {
            let d = *c.digits();
            Some(U512::from_digits(d))
        },
        None => None,
    }
}

/// `bnum::types::U512::checked_rem`: the remainder, unless the divisor is
/// zero.
#[verifier::external_body]
pub(crate) fn u512_checked_rem(a: U512, b: U512) -> (r: Option<U512>)
    ensures
        r is Some <==> b.value() != 0,
        r matches Some(c) ==> c.value() == a.value() % b.value(),
{
    let x = bnum::types::U512::from_digits(a.digits());
    let y = bnum::types::U512::from_digits(b.digits());
    match x.checked_rem(y) {
        Some(c) => {
            let d = *c.digits();
            Some(U512::from_digits(d))
        },
        None => None,
    }
}

/// `bnum::types::U512::checked_add`: the sum when the type can hold it.
#[verifier::external_body]
pub(crate) fn u512_checked_add(a: U512, b: U512) -> (r: Option<U512>)
    ensures
        r is Some <==> fits_u512(a.value() + b.value()),
        r matches Some(c) ==> c.value() == a.value() + b.value(),
{
    let x = bnum::types::U512::from_digits(a.digits());
    let y = bnum::types::U512::from_digits(b.digits());
    match x.checked_add(y) {
        Some(c) => {
            let d = *c.digits();
            Some(U512::from_digits(d))
        },
        None => None,
    }
}



/// `bnum::types::I512::checked_mul`: the product when the type can hold it.
#[verifier::external_body]
pub(crate) fn i512_checked_mul(a: I512, b: I512) -> (r: Option<I512>)
    ensures
        r is Some <==> fits_i512(a.value() * b.value()),
        r matches Some(c) ==> c.value() == a.value() * b.value(),
{
    let x = bnum::types::I512::from_bits(bnum::types::U512::from_digits(a.digits()));
    let y = bnum::types::I512::from_bits(bnum::types::U512::from_digits(b.digits()));
    match x.checked_mul(y) {
        Some(c) => {
            let d = *c.to_bits().digits();
            Some(I512::from_digits(d))
        },
        None => None,
    }
}

/// `bnum::types::I512::checked_div`: the quotient, rounded towards zero,
/// unless the divisor is zero or the quotient overflows.
#[verifier::external_body]
pub(crate) fn i512_checked_div(a: I512, b: I512) -> (r: Option<I512>)
    ensures
        r is Some <==> i512_div_defined(a.value(), b.value()),
        r matches Some(c) ==> c.value() == tdiv(a.value(), b.value()),
{
    let x = bnum::types::I512::from_bits(bnum::types::U512::from_digits(a.digits()));
    let y = bnum::types::I512::from_bits(bnum::types::U512::from_digits(b.digits()));
    match x.checked_div(y) {
        Some(c) => {
            let d = *c.to_bits().digits();
            Some(I512::from_digits(d))
        },
        None => None,
    }
}

/// `bnum::types::I512::checked_rem`: the remainder, with the sign of the
/// dividend, unless the divisor is zero or the matching quotient overflows.
#[verifier::external_body]
pub(crate) fn i512_checked_rem(a: I512, b: I512) -> (r: Option<I512>)
    ensures
        r is Some <==> i512_div_defined(a.value(), b.value()),
        r matches Some(c) ==> c.value() == trem(a.value(), b.value()),
{
    let x = bnum::types::I512::from_bits(bnum::types::U512::from_digits(a.digits()));
    let y = bnum::types::I512::from_bits(bnum::types::U512::from_digits(b.digits()));
    match x.checked_rem(y) {
        Some(c) => {
            let d = *c.to_bits().digits();
            Some(I512::from_digits(d))
        },
        None => None,
    }
}

/// `bnum::types::I512::checked_add`: the sum when the type can hold it.
#[verifier::external_body]
pub(crate) fn i512_checked_add(a: I512, b: I512) -> (r: Option<I512>)
    ensures
        r is Some <==> fits_i512(a.value() + b.value()),
        r matches Some(c) ==> c.value() == a.value() + b.value(),
{
    let x = bnum::types::I512::from_bits(bnum::types::U512::from_digits(a.digits()));
    let y = bnum::types::I512::from_bits(bnum::types::U512::from_digits(b.digits()));
    match x.checked_add(y) {
        Some(c) => {
            let d = *c.to_bits().digits();
            Some(I512::from_digits(d))
        },
        None => None,
    }
}

/// `bnum::types::I512::checked_sub`: the difference when the type can hold
/// it.
#[verifier::external_body]
pub(crate) fn i512_checked_sub(a: I512, b: I512) -> (r: Option<I512>)
    ensures
        r is Some <==> fits_i512(a.value() - b.value()),
        r matches Some(c) ==> c.value() == a.value() - b.value(),
{
    let x = bnum::types::I512::from_bits(bnum::types::U512::from_digits(a.digits()));
    let y = bnum::types::I512::from_bits(bnum::types::U512::from_digits(b.digits()));
    match x.checked_sub(y) {
        Some(c) => {
            let d = *c.to_bits().digits();
            Some(I512::from_digits(d))
        },
        None => None,
    }
}

/// `bnum::types::U512::checked_sub`: the difference when the type can hold
/// it.
#[verifier::external_body]
pub(crate) fn u512_checked_sub(a: U512, b: U512) -> (r: Option<U512>)
    ensures
        r is Some <==> fits_u512(a.value() - b.value()),
        r matches Some(c) ==> c.value() == a.value() - b.value(),
{
    let x = bnum::types::U512::from_digits(a.digits());
    let y = bnum::types::U512::from_digits(b.digits());
    match x.checked_sub(y) {
        Some(c) => {
            let d = *c.digits();
            Some(U512::from_digits(d))
        },
        None => None,
    }
}

/// The decimal text of the number, through the `Display` impl of
/// `bnum::types::U512`, which writes the digits of `to_str_radix(10)`: no
/// sign and no leading zeros.
#[verifier::external_body]
pub(crate) fn u512_text(a: U512) -> (r: String)
    ensures
        r@ == int_text_of(a.value()),
{
    bnum::types::U512::from_digits(a.digits()).to_string()
}

/// The decimal text of the number, through the `Display` impl of
/// `bnum::types::I512`, which writes a `-` for a negative number and then
/// the decimal digits of its magnitude, without leading zeros.
#[verifier::external_body]
pub(crate) fn i512_text(a: I512) -> (r: String)
    ensures
        r@ == int_text_of(a.value()),
{
    bnum::types::I512::from_bits(bnum::types::U512::from_digits(a.digits())).to_string()
}

/// `bnum::types::U512::from_str_radix` in base ten, which is what its
/// `FromStr` impl calls: reads an optional `+` followed by decimal
/// digits, refusing anything else and numbers out of range; the error is
/// handed on as its text, of which nothing is claimed.
#[verifier::external_body]
pub(crate) fn u512_from_str(s: &str) -> (r: Result<U512, String>)
    ensures
        r is Ok <==> int_text(s.spec_bytes(), false, u512_min(), u512_max()) is Some,
        r matches Ok(v) ==> int_text(s.spec_bytes(), false, u512_min(), u512_max()) == Some(v.value()),
{
    match bnum::types::U512::from_str_radix(s, 10) {
        Ok(v) => Ok(U512::from_digits(*v.digits())),
        Err(e) => Err(e.to_string()),
    }
}

/// `bnum::types::I512::from_str_radix` in base ten, which is what its
/// `FromStr` impl calls: reads an optional `+` or `-` followed by
/// decimal digits, refusing anything else and numbers out of range; the
/// error is handed on as its text, of which nothing is claimed.
#[verifier::external_body]
pub(crate) fn i512_from_str(s: &str) -> (r: Result<I512, String>)
    ensures
        r is Ok <==> int_text(s.spec_bytes(), true, i512_min(), i512_max()) is Some,
        r matches Ok(v) ==> int_text(s.spec_bytes(), true, i512_min(), i512_max()) == Some(v.value()),
{
    match bnum::types::I512::from_str_radix(s, 10) {
        Ok(v) => Ok(I512::from_digits(*v.to_bits().digits())),
        Err(e) => Err(e.to_string()),
    }
}

} // verus!
