use vstd::prelude::*;
use crate::arith::{lemma_full_mul_fits, lemma_pow2_256};
use crate::error::MathResult;
use crate::next::NextNumber;
use crate::number::Number;
use crate::wide::{I256, U256};

verus! {

/// A fixed-width integer; `U` is the primitive (or wide) integer it wraps.
#[derive(Clone, Copy, Debug, PartialEq, Eq, Structural, Ord, Hash)]
pub struct Int<U>(pub U);

impl<U> Int<U> {
    pub fn new(value: U) -> (r: Self)
        ensures
            r.0 == value,
    {
        Int(value)
    }
}

/// 64-bit unsigned integer.
pub type Uint64 = Int<u64>;

/// 128-bit unsigned integer.
pub type Uint128 = Int<u128>;

/// 256-bit unsigned integer.
pub type Uint256 = Int<U256>;

/// 64-bit signed integer.
pub type Int64 = Int<i64>;

/// 128-bit signed integer.
pub type Int128 = Int<i128>;

/// 256-bit signed integer.
pub type Int256 = Int<I256>;

impl Int<u64> {
    /// The exact product, in the type of the next word size.
    pub fn checked_full_mul(self, rhs: Self) -> (r: MathResult<Int<u128>>)
        ensures
            r matches Ok(p) && p.0 == self.0 * rhs.0,
    {
        let a = self.into_next();
        let b = rhs.into_next();
        proof {
            lemma_full_mul_fits(self.0 as int, rhs.0 as int, u64::MIN as int, u64::MAX as int);
            
        }
        a.checked_mul(b)
    }
}

impl Int<u128> {
    /// The exact product, in the type of the next word size.
    pub fn checked_full_mul(self, rhs: Self) -> (r: MathResult<Int<U256>>)
        ensures
            r matches Ok(p) && p.0.value() == self.0 * rhs.0,
    {
        let a = self.into_next();
        let b = rhs.into_next();
        proof {
            lemma_full_mul_fits(self.0 as int, rhs.0 as int, u128::MIN as int, u128::MAX as int);
            lemma_pow2_256();
        }
        a.checked_mul(b)
    }
}

impl Int<i64> {
    /// The exact product, in the type of the next word size.
    pub fn checked_full_mul(self, rhs: Self) -> (r: MathResult<Int<i128>>)
        ensures
            r matches Ok(p) && p.0 == self.0 * rhs.0,
    {
        let a = self.into_next();
        let b = rhs.into_next();
        proof {
            lemma_full_mul_fits(self.0 as int, rhs.0 as int, i64::MIN as int, i64::MAX as int);
            
        }
        a.checked_mul(b)
    }
}

impl Int<i128> {
    /// The exact product, in the type of the next word size.
    pub fn checked_full_mul(self, rhs: Self) -> (r: MathResult<Int<I256>>)
        ensures
            r matches Ok(p) && p.0.value() == self.0 * rhs.0,
    {
        let a = self.into_next();
        let b = rhs.into_next();
        proof {
            lemma_full_mul_fits(self.0 as int, rhs.0 as int, i128::MIN as int, i128::MAX as int);
            lemma_pow2_256();
        }
        a.checked_mul(b)
    }
}

} // verus!
