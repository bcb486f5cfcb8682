use vstd::prelude::*;
use crate::error::{MathError, MathResult};
use crate::int_types::Int;
use crate::next::NextNumber;
use crate::prev::PrevNumber;
use crate::wide::{fits_i256, fits_u256, lemma_i256_range, lemma_u256_range, I256, U256};
use crate::wide512::{b256, i512_checked_mul, u512_checked_mul, I512, U512};

verus! {

/// 512-bit unsigned integer.
pub type Uint512 = Int<U512>;

/// 512-bit signed integer.
pub type Int512 = Int<I512>;

impl Int<U256> {
    /// The 256-bit integer with the value of `value`.
    pub fn new_from_u128(value: u128) -> (r: Self)
        ensures
            r.0.value() == value,
    {
        Int(U256::from_u128(value))
    }
}

impl Int<I256> {
    /// The 256-bit integer with the value of `value`.
    pub fn new_from_i128(value: i128) -> (r: Self)
        ensures
            r.0.value() == value,
    {
        Int(I256::from_i128(value))
    }
}

impl Int<U512> {
    /// The 512-bit integer with the value of `value`.
    pub fn new_from_u128(value: u128) -> (r: Self)
        ensures
            r.0.value() == value,
    {
        Int(U512::from_u256(U256::from_u128(value)))
    }
}

impl Int<I512> {
    /// The 512-bit integer with the value of `value`.
    pub fn new_from_i128(value: i128) -> (r: Self)
        ensures
            r.0.value() == value,
    {
        Int(I512::from_i256(I256::from_i128(value)))
    }
}

impl NextNumber for Int<U256> {
    type Next = Int<U512>;

    fn into_next(self) -> (r: Int<U512>)
        ensures
            r.0.value() == self.0.value(),
    {
        Int(U512::from_u256(self.0))
    }
}

impl NextNumber for Int<I256> {
    type Next = Int<I512>;

    fn into_next(self) -> (r: Int<I512>)
        ensures
            r.0.value() == self.0.value(),
    {
        Int(I512::from_i256(self.0))
    }
}

impl PrevNumber for Int<U512> {
    type Prev = Int<U256>;

    fn checked_into_prev(self) -> (r: MathResult<Int<U256>>)
        ensures
            r is Ok <==> fits_u256(self.0.value()),
            r matches Ok(v) ==> v.0.value() == self.0.value(),
            r matches Err(e) ==> e is OverflowConversion,
    {
        match self.0.checked_into_u256() {
            Some(v) => Ok(Int(v)),
            None => Err(MathError::overflow_conversion::<U512, U256>(self.0)),
        }
    }
}

impl PrevNumber for Int<I512> {
    type Prev = Int<I256>;

    fn checked_into_prev(self) -> (r: MathResult<Int<I256>>)
        ensures
            r is Ok <==> fits_i256(self.0.value()),
            r matches Ok(v) ==> v.0.value() == self.0.value(),
            r matches Err(e) ==> e is OverflowConversion,
    {
        match self.0.checked_into_i256() {
            Some(v) => Ok(Int(v)),
            None => Err(MathError::overflow_conversion::<I512, I256>(self.0)),
        }
    }
}

impl Int<U256> {
    /// The exact product, in the type of the next word size.
    pub fn checked_full_mul(self, rhs: Self) -> (r: MathResult<Int<U512>>)
        ensures
            r matches Ok(p) && p.0.value() == self.0.value() * rhs.0.value(),
    {
        proof {
            lemma_u256_range(self.0);
            lemma_u256_range(rhs.0);
            assert(0 <= self.0.value() * rhs.0.value() < b256() * b256()) by (nonlinear_arith)
                requires 0 <= self.0.value() < b256(), 0 <= rhs.0.value() < b256();
        }
        let a = self.into_next();
        let b = rhs.into_next();
        match u512_checked_mul(a.0, b.0) {
            Some(p) => Ok(Int(p)),
            None => Err(MathError::overflow_mul(a.0, b.0)),
        }
    }
}

impl Int<I256> {
    /// The exact product, in the type of the next word size.
    pub fn checked_full_mul(self, rhs: Self) -> (r: MathResult<Int<I512>>)
        ensures
            r matches Ok(p) && p.0.value() == self.0.value() * rhs.0.value(),
    {
        proof {
            lemma_i256_range(self.0);
            lemma_i256_range(rhs.0);
            let h = b256() / 2;
            assert(-(b256() * b256() / 4) <= self.0.value() * rhs.0.value() <= b256() * b256() / 4)
                by (nonlinear_arith)
                requires -h <= self.0.value() < h, -h <= rhs.0.value() < h, h * 2 == b256(), h > 0;
        }
        let a = self.into_next();
        let b = rhs.into_next();
        match i512_checked_mul(a.0, b.0) {
            Some(p) => Ok(Int(p)),
            None => Err(MathError::overflow_mul(a.0, b.0)),
        }
    }
}

} // verus!
