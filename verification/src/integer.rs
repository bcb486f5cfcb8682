use vstd::prelude::*;
use crate::arith::{ilog, lemma_ilog_bounds, lemma_log10_below, lemma_log_below, lemma_pow2_128, lemma_pow2_64, pow, wrap};
use crate::error::{MathError, MathResult};
use crate::int_types::Int;
use crate::prim::{i128_checked_ilog10_call, i128_checked_ilog2_call, i128_checked_shl_call, i128_checked_shr_call, i128_wrapping_pow_call, i64_checked_ilog10_call, i64_checked_ilog2_call, i64_checked_shl_call, i64_checked_shr_call, i64_wrapping_pow_call, u128_checked_ilog10_call, u128_checked_ilog2_call, u128_checked_shl_call, u128_checked_shr_call, u128_wrapping_pow_call, u64_checked_ilog10_call, u64_checked_ilog2_call, u64_checked_shl_call, u64_checked_shr_call, u64_wrapping_pow_call};

verus! {

/// Describes operations that integer types must implement, which may not be
/// relevant for non-integer types.
pub trait Integer: Sized + Copy {
    fn checked_ilog2(self) -> MathResult<u32>;

    fn checked_ilog10(self) -> MathResult<u32>;

    fn checked_shl(self, other: u32) -> MathResult<Self>;

    fn checked_shr(self, other: u32) -> MathResult<Self>;

    /// Replaces the value by its bits shifted left by `other`; on an error it is left unchanged.
    fn checked_shl_assign(&mut self, other: u32) -> (r: MathResult<()>)
        ensures
            r matches Ok(_) ==> call_ensures(Self::checked_shl, (*old(self), other), Ok::<Self, MathError>(*final(self))),
            r matches Err(e) ==> *final(self) == *old(self) && call_ensures(Self::checked_shl, (*old(self), other), Err::<Self, MathError>(e)),
    {
        match Self::checked_shl(*self, other) {
            Ok(v) => {
                *self = v;
                Ok(())
            },
            Err(e) => Err(e),
        }
    }

    /// Replaces the value by its bits shifted right by `other`; on an error it is left unchanged.
    fn checked_shr_assign(&mut self, other: u32) -> (r: MathResult<()>)
        ensures
            r matches Ok(_) ==> call_ensures(Self::checked_shr, (*old(self), other), Ok::<Self, MathError>(*final(self))),
            r matches Err(e) ==> *final(self) == *old(self) && call_ensures(Self::checked_shr, (*old(self), other), Err::<Self, MathError>(e)),
    {
        match Self::checked_shr(*self, other) {
            Ok(v) => {
                *self = v;
                Ok(())
            },
            Err(e) => Err(e),
        }
    }

    fn wrapping_add(self, other: Self) -> Self;

    fn wrapping_sub(self, other: Self) -> Self;

    fn wrapping_mul(self, other: Self) -> Self;

    fn wrapping_pow(self, exp: u32) -> Self;

    /// Replaces the value by its wrapping sum with `other`.
    fn wrapping_add_assign(&mut self, other: Self)
        ensures
            call_ensures(Self::wrapping_add, (*old(self), other), *final(self)),
    {
        *self = Self::wrapping_add(*self, other);
    }

    /// Replaces the value by its wrapping difference with `other`.
    fn wrapping_sub_assign(&mut self, other: Self)
        ensures
            call_ensures(Self::wrapping_sub, (*old(self), other), *final(self)),
    {
        *self = Self::wrapping_sub(*self, other);
    }

    /// Replaces the value by its wrapping product with `other`.
    fn wrapping_mul_assign(&mut self, other: Self)
        ensures
            call_ensures(Self::wrapping_mul, (*old(self), other), *final(self)),
    {
        *self = Self::wrapping_mul(*self, other);
    }

    /// Replaces the value by its wrapping power `exp`.
    fn wrapping_pow_assign(&mut self, exp: u32)
        ensures
            call_ensures(Self::wrapping_pow, (*old(self), exp), *final(self)),
    {
        *self = Self::wrapping_pow(*self, exp);
    }
}

impl Integer for Int<u64> {
    fn checked_ilog2(self) -> (r: MathResult<u32>)
        ensures
            r is Ok <==> self.0 > 0,
            r matches Ok(k) ==> pow(2, k as nat) <= self.0 && self.0 < pow(2, (k + 1) as nat),
            r matches Err(e) ==> e is ZeroLog,
    {
        match u64_checked_ilog2_call(self.0) {
            Some(k) => {
                proof {
                    lemma_ilog_bounds(2, self.0 as int);
                    lemma_pow2_64();
                    lemma_log_below(ilog(2, self.0 as int), self.0 as int, 64);
                }
                Ok(k)
            },
            None => Err(MathError::zero_log()),
        }
    }

    fn checked_ilog10(self) -> (r: MathResult<u32>)
        ensures
            r is Ok <==> self.0 > 0,
            r matches Ok(k) ==> pow(10, k as nat) <= self.0 && self.0 < pow(10, (k + 1) as nat),
            r matches Err(e) ==> e is ZeroLog,
    {
        match u64_checked_ilog10_call(self.0) {
            Some(k) => {
                proof {
                    lemma_ilog_bounds(10, self.0 as int);
                    lemma_pow2_64();
                    lemma_log10_below(ilog(10, self.0 as int), self.0 as int, 64);
                }
                Ok(k)
            },
            None => Err(MathError::zero_log()),
        }
    }

    fn checked_shl(self, other: u32) -> (r: MathResult<Self>)
        ensures
            r is Ok <==> other < 64,
            r matches Ok(v) ==> v.0 == self.0 << other,
            r matches Err(e) ==> e is OverflowShl,
    {
        match u64_checked_shl_call(self.0, other) {
            Some(v) => Ok(Int(v)),
            None => Err(MathError::overflow_shl(self.0, other)),
        }
    }

    fn checked_shr(self, other: u32) -> (r: MathResult<Self>)
        ensures
            r is Ok <==> other < 64,
            r matches Ok(v) ==> v.0 == self.0 >> other,
            r matches Err(e) ==> e is OverflowShr,
    {
        match u64_checked_shr_call(self.0, other) {
            Some(v) => Ok(Int(v)),
            None => Err(MathError::overflow_shr(self.0, other)),
        }
    }

    fn wrapping_add(self, other: Self) -> (r: Self)
        ensures
            r.0 == wrap(self.0 + other.0, 0x1_0000_0000_0000_0000, false),
    {
        Int(self.0.wrapping_add(other.0))
    }

    fn wrapping_sub(self, other: Self) -> (r: Self)
        ensures
            r.0 == wrap(self.0 - other.0, 0x1_0000_0000_0000_0000, false),
    {
        Int(self.0.wrapping_sub(other.0))
    }

    fn wrapping_mul(self, other: Self) -> (r: Self)
        ensures
            r.0 == wrap(self.0 * other.0, 0x1_0000_0000_0000_0000, false),
    {
        Int(self.0.wrapping_mul(other.0))
    }

    fn wrapping_pow(self, exp: u32) -> (r: Self)
        ensures
            r.0 == wrap(pow(self.0 as int, exp as nat), 0x1_0000_0000_0000_0000, false),
    {
        Int(u64_wrapping_pow_call(self.0, exp))
    }
}

impl Integer for Int<u128> {
    fn checked_ilog2(self) -> (r: MathResult<u32>)
        ensures
            r is Ok <==> self.0 > 0,
            r matches Ok(k) ==> pow(2, k as nat) <= self.0 && self.0 < pow(2, (k + 1) as nat),
            r matches Err(e) ==> e is ZeroLog,
    {
        match u128_checked_ilog2_call(self.0) {
            Some(k) => {
                proof {
                    lemma_ilog_bounds(2, self.0 as int);
                    lemma_pow2_128();
                    lemma_log_below(ilog(2, self.0 as int), self.0 as int, 128);
                }
                Ok(k)
            },
            None => Err(MathError::zero_log()),
        }
    }

    fn checked_ilog10(self) -> (r: MathResult<u32>)
        ensures
            r is Ok <==> self.0 > 0,
            r matches Ok(k) ==> pow(10, k as nat) <= self.0 && self.0 < pow(10, (k + 1) as nat),
            r matches Err(e) ==> e is ZeroLog,
    {
        match u128_checked_ilog10_call(self.0) {
            Some(k) => {
                proof {
                    lemma_ilog_bounds(10, self.0 as int);
                    lemma_pow2_128();
                    lemma_log10_below(ilog(10, self.0 as int), self.0 as int, 128);
                }
                Ok(k)
            },
            None => Err(MathError::zero_log()),
        }
    }

    fn checked_shl(self, other: u32) -> (r: MathResult<Self>)
        ensures
            r is Ok <==> other < 128,
            r matches Ok(v) ==> v.0 == self.0 << other,
            r matches Err(e) ==> e is OverflowShl,
    {
        match u128_checked_shl_call(self.0, other) {
            Some(v) => Ok(Int(v)),
            None => Err(MathError::overflow_shl(self.0, other)),
        }
    }

    fn checked_shr(self, other: u32) -> (r: MathResult<Self>)
        ensures
            r is Ok <==> other < 128,
            r matches Ok(v) ==> v.0 == self.0 >> other,
            r matches Err(e) ==> e is OverflowShr,
    {
        match u128_checked_shr_call(self.0, other) {
            Some(v) => Ok(Int(v)),
            None => Err(MathError::overflow_shr(self.0, other)),
        }
    }

    fn wrapping_add(self, other: Self) -> (r: Self)
        ensures
            r.0 == wrap(self.0 + other.0, 0x1_0000_0000_0000_0000_0000_0000_0000_0000int, false),
    {
        Int(self.0.wrapping_add(other.0))
    }

    fn wrapping_sub(self, other: Self) -> (r: Self)
        ensures
            r.0 == wrap(self.0 - other.0, 0x1_0000_0000_0000_0000_0000_0000_0000_0000int, false),
    {
        Int(self.0.wrapping_sub(other.0))
    }

    fn wrapping_mul(self, other: Self) -> (r: Self)
        ensures
            r.0 == wrap(self.0 * other.0, 0x1_0000_0000_0000_0000_0000_0000_0000_0000int, false),
    {
        Int(self.0.wrapping_mul(other.0))
    }

    fn wrapping_pow(self, exp: u32) -> (r: Self)
        ensures
            r.0 == wrap(pow(self.0 as int, exp as nat), 0x1_0000_0000_0000_0000_0000_0000_0000_0000int, false),
    {
        Int(u128_wrapping_pow_call(self.0, exp))
    }
}

impl Integer for Int<i64> {
    fn checked_ilog2(self) -> (r: MathResult<u32>)
        ensures
            r is Ok <==> self.0 > 0,
            r matches Ok(k) ==> pow(2, k as nat) <= self.0 && self.0 < pow(2, (k + 1) as nat),
            r matches Err(e) ==> e is ZeroLog,
    {
        match i64_checked_ilog2_call(self.0) {
            Some(k) => {
                proof {
                    lemma_ilog_bounds(2, self.0 as int);
                    lemma_pow2_64();
                    lemma_log_below(ilog(2, self.0 as int), self.0 as int, 64);
                }
                Ok(k)
            },
            None => Err(MathError::zero_log()),
        }
    }

    fn checked_ilog10(self) -> (r: MathResult<u32>)
        ensures
            r is Ok <==> self.0 > 0,
            r matches Ok(k) ==> pow(10, k as nat) <= self.0 && self.0 < pow(10, (k + 1) as nat),
            r matches Err(e) ==> e is ZeroLog,
    {
        match i64_checked_ilog10_call(self.0) {
            Some(k) => {
                proof {
                    lemma_ilog_bounds(10, self.0 as int);
                    lemma_pow2_64();
                    lemma_log10_below(ilog(10, self.0 as int), self.0 as int, 64);
                }
                Ok(k)
            },
            None => Err(MathError::zero_log()),
        }
    }

    fn checked_shl(self, other: u32) -> (r: MathResult<Self>)
        ensures
            r is Ok <==> other < 64,
            r matches Ok(v) ==> v.0 == self.0 << other,
            r matches Err(e) ==> e is OverflowShl,
    {
        match i64_checked_shl_call(self.0, other) {
            Some(v) => Ok(Int(v)),
            None => Err(MathError::overflow_shl(self.0, other)),
        }
    }

    fn checked_shr(self, other: u32) -> (r: MathResult<Self>)
        ensures
            r is Ok <==> other < 64,
            r matches Ok(v) ==> v.0 == self.0 >> other,
            r matches Err(e) ==> e is OverflowShr,
    {
        match i64_checked_shr_call(self.0, other) {
            Some(v) => Ok(Int(v)),
            None => Err(MathError::overflow_shr(self.0, other)),
        }
    }

    fn wrapping_add(self, other: Self) -> (r: Self)
        ensures
            r.0 == wrap(self.0 + other.0, 0x1_0000_0000_0000_0000, true),
    {
        Int(self.0.wrapping_add(other.0))
    }

    fn wrapping_sub(self, other: Self) -> (r: Self)
        ensures
            r.0 == wrap(self.0 - other.0, 0x1_0000_0000_0000_0000, true),
    {
        Int(self.0.wrapping_sub(other.0))
    }

    fn wrapping_mul(self, other: Self) -> (r: Self)
        ensures
            r.0 == wrap(self.0 * other.0, 0x1_0000_0000_0000_0000, true),
    {
        Int(self.0.wrapping_mul(other.0))
    }

    fn wrapping_pow(self, exp: u32) -> (r: Self)
        ensures
            r.0 == wrap(pow(self.0 as int, exp as nat), 0x1_0000_0000_0000_0000, true),
    {
        Int(i64_wrapping_pow_call(self.0, exp))
    }
}

impl Integer for Int<i128> {
    fn checked_ilog2(self) -> (r: MathResult<u32>)
        ensures
            r is Ok <==> self.0 > 0,
            r matches Ok(k) ==> pow(2, k as nat) <= self.0 && self.0 < pow(2, (k + 1) as nat),
            r matches Err(e) ==> e is ZeroLog,
    {
        match i128_checked_ilog2_call(self.0) {
            Some(k) => {
                proof {
                    lemma_ilog_bounds(2, self.0 as int);
                    lemma_pow2_128();
                    lemma_log_below(ilog(2, self.0 as int), self.0 as int, 128);
                }
                Ok(k)
            },
            None => Err(MathError::zero_log()),
        }
    }

    fn checked_ilog10(self) -> (r: MathResult<u32>)
        ensures
            r is Ok <==> self.0 > 0,
            r matches Ok(k) ==> pow(10, k as nat) <= self.0 && self.0 < pow(10, (k + 1) as nat),
            r matches Err(e) ==> e is ZeroLog,
    {
        match i128_checked_ilog10_call(self.0) {
            Some(k) => {
                proof {
                    lemma_ilog_bounds(10, self.0 as int);
                    lemma_pow2_128();
                    lemma_log10_below(ilog(10, self.0 as int), self.0 as int, 128);
                }
                Ok(k)
            },
            None => Err(MathError::zero_log()),
        }
    }

    fn checked_shl(self, other: u32) -> (r: MathResult<Self>)
        ensures
            r is Ok <==> other < 128,
            r matches Ok(v) ==> v.0 == self.0 << other,
            r matches Err(e) ==> e is OverflowShl,
    {
        match i128_checked_shl_call(self.0, other) {
            Some(v) => Ok(Int(v)),
            None => Err(MathError::overflow_shl(self.0, other)),
        }
    }

    fn checked_shr(self, other: u32) -> (r: MathResult<Self>)
        ensures
            r is Ok <==> other < 128,
            r matches Ok(v) ==> v.0 == self.0 >> other,
            r matches Err(e) ==> e is OverflowShr,
    {
        match i128_checked_shr_call(self.0, other) {
            Some(v) => Ok(Int(v)),
            None => Err(MathError::overflow_shr(self.0, other)),
        }
    }

    fn wrapping_add(self, other: Self) -> (r: Self)
        ensures
            r.0 == wrap(self.0 + other.0, 0x1_0000_0000_0000_0000_0000_0000_0000_0000int, true),
    {
        Int(self.0.wrapping_add(other.0))
    }

    fn wrapping_sub(self, other: Self) -> (r: Self)
        ensures
            r.0 == wrap(self.0 - other.0, 0x1_0000_0000_0000_0000_0000_0000_0000_0000int, true),
    {
        Int(self.0.wrapping_sub(other.0))
    }

    fn wrapping_mul(self, other: Self) -> (r: Self)
        ensures
            r.0 == wrap(self.0 * other.0, 0x1_0000_0000_0000_0000_0000_0000_0000_0000int, true),
    {
        Int(self.0.wrapping_mul(other.0))
    }

    fn wrapping_pow(self, exp: u32) -> (r: Self)
        ensures
            r.0 == wrap(pow(self.0 as int, exp as nat), 0x1_0000_0000_0000_0000_0000_0000_0000_0000int, true),
    {
        Int(i128_wrapping_pow_call(self.0, exp))
    }
}

} // verus!
