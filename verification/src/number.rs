use vstd::prelude::*;
use crate::prev::PrevNumber;
use crate::next::NextNumber;
use crate::arith::{lemma_pow100_is_pow10, lemma_pow10_18, lemma_pow10_24, lemma_pow10_6, lemma_pow10_bounds, lemma_root_bound, pow10};
use crate::dec::{dec_pow_failure, dec_pow_loop_failure, dec_pow, dec_pow_loop, dec_sqrt_scale, lemma_dec_sqrt_scale, pow10_i128, pow10_u128, Dec};
use crate::arith::lemma_pow2_256;
use crate::wide::{i256_checked_add, i256_checked_div, i256_checked_ilog2, i256_checked_mul, i256_checked_pow, i256_checked_rem, i256_checked_sub, i256_div_defined, i256_max, i256_min, i256_saturating_add, i256_saturating_mul, i256_saturating_pow, i256_saturating_sub, fits_i256, fits_u256, lemma_i256_range, lemma_u256_range, u256_checked_add, u256_checked_div, u256_checked_ilog2, u256_checked_mul, u256_checked_pow, u256_checked_rem, u256_checked_sub, u256_max, u256_min, u256_saturating_add, u256_saturating_mul, u256_saturating_pow, u256_saturating_sub, I256, U256};
use crate::arith::{
    clamp, is_isqrt, lemma_ilog_bounds, lemma_pow2_128, lemma_pow2_32, lemma_pow2_64, lemma_pow_monotone, lemma_pow_positive,
    ilog, lemma_log_below, lemma_sqrt_first_estimate, lemma_tdiv_shrinks, lemma_sqrt_step, pow, tdiv, trem,
};
use crate::error::{MathError, MathResult};
use crate::display::{dec_display, int_text_of, nat_text};
use crate::int_types::Int;
use crate::prim::{i128_checked_ilog2_call, i128_checked_pow_call, i128_saturating_add_call, i128_saturating_mul_call, i128_saturating_pow_call, i128_saturating_sub_call, i64_checked_ilog2_call, i64_checked_pow_call, i64_saturating_add_call, i64_saturating_mul_call, i64_saturating_pow_call, i64_saturating_sub_call, u128_checked_ilog2_call, u128_checked_pow_call, u128_saturating_mul_call, u128_saturating_pow_call, u64_checked_ilog2_call, u64_checked_pow_call, u64_saturating_mul_call, u64_saturating_pow_call};

verus! {

/// Describes basic operations that all math types must implement.
pub trait Number: Sized + Copy {
    fn checked_add(self, other: Self) -> MathResult<Self>;

    fn checked_sub(self, other: Self) -> MathResult<Self>;

    fn checked_mul(self, other: Self) -> MathResult<Self>;

    fn checked_div(self, other: Self) -> MathResult<Self>;

    fn checked_rem(self, other: Self) -> MathResult<Self>;

    fn checked_pow(self, exp: u32) -> MathResult<Self>;

    fn checked_sqrt(self) -> MathResult<Self>;

    /// Replaces the value by its sum with `other`; on an error it is left unchanged.
    fn checked_add_assign(&mut self, other: Self) -> (r: MathResult<()>)
        ensures
            r matches Ok(_) ==> call_ensures(Self::checked_add, (*old(self), other), Ok::<Self, MathError>(*final(self))),
            r matches Err(e) ==> *final(self) == *old(self) && call_ensures(Self::checked_add, (*old(self), other), Err::<Self, MathError>(e)),
    {
        match Self::checked_add(*self, other) {
            Ok(v) => {
                *self = v;
                Ok(())
            },
            Err(e) => Err(e),
        }
    }

    /// Replaces the value by its difference with `other`; on an error it is left unchanged.
    fn checked_sub_assign(&mut self, other: Self) -> (r: MathResult<()>)
        ensures
            r matches Ok(_) ==> call_ensures(Self::checked_sub, (*old(self), other), Ok::<Self, MathError>(*final(self))),
            r matches Err(e) ==> *final(self) == *old(self) && call_ensures(Self::checked_sub, (*old(self), other), Err::<Self, MathError>(e)),
    {
        match Self::checked_sub(*self, other) {
            Ok(v) => {
                *self = v;
                Ok(())
            },
            Err(e) => Err(e),
        }
    }

    /// Replaces the value by its product with `other`; on an error it is left unchanged.
    fn checked_mul_assign(&mut self, other: Self) -> (r: MathResult<()>)
        ensures
            r matches Ok(_) ==> call_ensures(Self::checked_mul, (*old(self), other), Ok::<Self, MathError>(*final(self))),
            r matches Err(e) ==> *final(self) == *old(self) && call_ensures(Self::checked_mul, (*old(self), other), Err::<Self, MathError>(e)),
    {
        match Self::checked_mul(*self, other) {
            Ok(v) => {
                *self = v;
                Ok(())
            },
            Err(e) => Err(e),
        }
    }

    /// Replaces the value by its quotient by `other`; on an error it is left unchanged.
    fn checked_div_assign(&mut self, other: Self) -> (r: MathResult<()>)
        ensures
            r matches Ok(_) ==> call_ensures(Self::checked_div, (*old(self), other), Ok::<Self, MathError>(*final(self))),
            r matches Err(e) ==> *final(self) == *old(self) && call_ensures(Self::checked_div, (*old(self), other), Err::<Self, MathError>(e)),
    {
        match Self::checked_div(*self, other) {
            Ok(v) => {
                *self = v;
                Ok(())
            },
            Err(e) => Err(e),
        }
    }

    /// Replaces the value by its remainder by `other`; on an error it is left unchanged.
    fn checked_rem_assign(&mut self, other: Self) -> (r: MathResult<()>)
        ensures
            r matches Ok(_) ==> call_ensures(Self::checked_rem, (*old(self), other), Ok::<Self, MathError>(*final(self))),
            r matches Err(e) ==> *final(self) == *old(self) && call_ensures(Self::checked_rem, (*old(self), other), Err::<Self, MathError>(e)),
    {
        match Self::checked_rem(*self, other) {
            Ok(v) => {
                *self = v;
                Ok(())
            },
            Err(e) => Err(e),
        }
    }

    /// Replaces the value by its power `exp`; on an error it is left unchanged.
    fn checked_pow_assign(&mut self, exp: u32) -> (r: MathResult<()>)
        ensures
            r matches Ok(_) ==> call_ensures(Self::checked_pow, (*old(self), exp), Ok::<Self, MathError>(*final(self))),
            r matches Err(e) ==> *final(self) == *old(self) && call_ensures(Self::checked_pow, (*old(self), exp), Err::<Self, MathError>(e)),
    {
        match Self::checked_pow(*self, exp) {
            Ok(v) => {
                *self = v;
                Ok(())
            },
            Err(e) => Err(e),
        }
    }

    /// Replaces the value by its square root; on an error it is left unchanged.
    fn checked_sqrt_assign(&mut self) -> (r: MathResult<()>)
        ensures
            r matches Ok(_) ==> call_ensures(Self::checked_sqrt, (*old(self),), Ok::<Self, MathError>(*final(self))),
            r matches Err(e) ==> *final(self) == *old(self) && call_ensures(Self::checked_sqrt, (*old(self),), Err::<Self, MathError>(e)),
    {
        match Self::checked_sqrt(*self) {
            Ok(v) => {
                *self = v;
                Ok(())
            },
            Err(e) => Err(e),
        }
    }

    fn saturating_add(self, other: Self) -> Self;

    fn saturating_sub(self, other: Self) -> Self;

    fn saturating_mul(self, other: Self) -> Self;

    fn saturating_pow(self, exp: u32) -> Self;
}

impl Number for Int<u64> {
    fn checked_add(self, other: Self) -> (r: MathResult<Self>)
        ensures
            r is Ok <==> u64::MIN <= self.0 + other.0 && self.0 + other.0 <= u64::MAX,
            r matches Ok(v) ==> v.0 == self.0 + other.0,
            r matches Err(e) ==> e matches MathError::OverflowAdd { a: x, b: y } && x@ == int_text_of(self.0 as int) && y@ == int_text_of(other.0 as int),
    {
        match self.0.checked_add(other.0) {
            Some(v) => Ok(Int(v)),
            None => Err(MathError::overflow_add(self.0, other.0)),
        }
    }

    fn checked_sub(self, other: Self) -> (r: MathResult<Self>)
        ensures
            r is Ok <==> u64::MIN <= self.0 - other.0 && self.0 - other.0 <= u64::MAX,
            r matches Ok(v) ==> v.0 == self.0 - other.0,
            r matches Err(e) ==> e matches MathError::OverflowSub { a: x, b: y } && x@ == int_text_of(self.0 as int) && y@ == int_text_of(other.0 as int),
    {
        match self.0.checked_sub(other.0) {
            Some(v) => Ok(Int(v)),
            None => Err(MathError::overflow_sub(self.0, other.0)),
        }
    }

    fn checked_mul(self, other: Self) -> (r: MathResult<Self>)
        ensures
            r is Ok <==> u64::MIN <= self.0 * other.0 && self.0 * other.0 <= u64::MAX,
            r matches Ok(v) ==> v.0 == self.0 * other.0,
            r matches Err(e) ==> e matches MathError::OverflowMul { a: x, b: y } && x@ == int_text_of(self.0 as int) && y@ == int_text_of(other.0 as int),
    {
        match self.0.checked_mul(other.0) {
            Some(v) => Ok(Int(v)),
            None => Err(MathError::overflow_mul(self.0, other.0)),
        }
    }

    fn checked_div(self, other: Self) -> (r: MathResult<Self>)
        ensures
            r is Ok <==> other.0 != 0,
            r matches Ok(v) ==> v.0 == self.0 / other.0,
            r matches Err(e) ==> e matches MathError::DivisionByZero { a: x } && x@ == int_text_of(self.0 as int),
    {
        match self.0.checked_div(other.0) {
            Some(v) => Ok(Int(v)),
            None => Err(MathError::division_by_zero(self.0)),
        }
    }

    fn checked_rem(self, other: Self) -> (r: MathResult<Self>)
        ensures
            r is Ok <==> other.0 != 0,
            r matches Ok(v) ==> v.0 == self.0 % other.0,
            r matches Err(e) ==> e matches MathError::DivisionByZero { a: x } && x@ == int_text_of(self.0 as int),
    {
        match self.0.checked_rem(other.0) {
            Some(v) => Ok(Int(v)),
            None => Err(MathError::division_by_zero(self.0)),
        }
    }

    fn checked_pow(self, exp: u32) -> (r: MathResult<Self>)
        ensures
            r is Ok <==> u64::MIN <= pow(self.0 as int, exp as nat) && pow(self.0 as int, exp as nat) <= u64::MAX,
            r matches Ok(v) ==> v.0 == pow(self.0 as int, exp as nat),
            r matches Err(e) ==> e matches MathError::OverflowPow { a: x, b: y } && x@ == int_text_of(self.0 as int) && y@ == nat_text(exp as int),
    {
        match u64_checked_pow_call(self.0, exp) {
            Some(v) => Ok(Int(v)),
            None => Err(MathError::overflow_pow(self.0, exp)),
        }
    }

    /// The floored square root, by the Babylonian method.
    fn checked_sqrt(self) -> (r: MathResult<Self>)
        ensures
            r is Ok <==> self.0 >= 0,
            r matches Ok(v) ==> is_isqrt(self.0 as int, v.0 as int),
            r matches Err(e) ==> e matches MathError::NegativeSqrt { a: x } && x@ == int_text_of(self.0 as int),
    {
        let n = self.0;
        if n == 0 {
            assert(is_isqrt(n as int, 0)) by (nonlinear_arith)
                requires
                    n == 0,
            ;
            return Ok(Int(0));
        }
        let lg = match u64_checked_ilog2_call(n) {
            Some(k) => k,
            None => {
                return Err(MathError::negative_sqrt(n));
            },
        };
        proof {
            lemma_ilog_bounds(2, n as int);
            lemma_pow2_64();
            lemma_log_below(ilog(2, n as int), n as int, 64);
            assert(lg as nat == ilog(2, n as int));
            lemma_sqrt_first_estimate(n as int, lg as nat);
            lemma_pow_monotone(2, (lg / 2 + 1) as nat, 32);
            lemma_pow_positive(2, (lg / 2 + 1) as nat);
            lemma_pow2_32();
        }
        let mut x0: u64 = match u64_checked_pow_call(2, lg / 2 + 1) {
            Some(p) => p,
            None => {
                return Err(MathError::negative_sqrt(n));
            },
        };
        proof {
            assert(x0 * x0 > n);
            assert((x0 + 1) * (x0 + 1) > n) by (nonlinear_arith)
                requires
                    x0 * x0 > n,
                    x0 >= 0,
            ;
            lemma_sqrt_step(n as int, x0 as int);
        }
        let mut x1: u64 = (x0 + n / x0) / 2;
        while x1 < x0
            invariant
                n > 0,
                1 <= x0 <= pow(2, 32),
                pow(2, 32) == 0x100000000,
                (x0 + 1) * (x0 + 1) > n,
                x1 == (x0 + n / x0) / 2,
                (x1 + 1) * (x1 + 1) > n,
                x1 >= x0 ==> x0 * x0 <= n,
            decreases x0,
        {
            x0 = x1;
            proof {
                assert(x0 >= 1) by (nonlinear_arith)
                    requires (x0 + 1) * (x0 + 1) > n, n > 0, x0 >= 0;
                lemma_sqrt_step(n as int, x0 as int);
            }
            x1 = (x0 + n / x0) / 2;
        }
        Ok(Int(x0))
    }

    fn saturating_add(self, other: Self) -> (r: Self)
        ensures
            r.0 == clamp(self.0 + other.0, u64::MIN as int, u64::MAX as int),
    {
        Int(self.0.saturating_add(other.0))
    }

    fn saturating_sub(self, other: Self) -> (r: Self)
        ensures
            r.0 == clamp(self.0 - other.0, u64::MIN as int, u64::MAX as int),
    {
        Int(self.0.saturating_sub(other.0))
    }

    fn saturating_mul(self, other: Self) -> (r: Self)
        ensures
            r.0 == clamp(self.0 * other.0, u64::MIN as int, u64::MAX as int),
    {
        Int(u64_saturating_mul_call(self.0, other.0))
    }

    fn saturating_pow(self, exp: u32) -> (r: Self)
        ensures
            r.0 == clamp(pow(self.0 as int, exp as nat), u64::MIN as int, u64::MAX as int),
    {
        Int(u64_saturating_pow_call(self.0, exp))
    }
}

impl Number for Int<u128> {
    fn checked_add(self, other: Self) -> (r: MathResult<Self>)
        ensures
            r is Ok <==> u128::MIN <= self.0 + other.0 && self.0 + other.0 <= u128::MAX,
            r matches Ok(v) ==> v.0 == self.0 + other.0,
            r matches Err(e) ==> e matches MathError::OverflowAdd { a: x, b: y } && x@ == int_text_of(self.0 as int) && y@ == int_text_of(other.0 as int),
    {
        match self.0.checked_add(other.0) {
            Some(v) => Ok(Int(v)),
            None => Err(MathError::overflow_add(self.0, other.0)),
        }
    }

    fn checked_sub(self, other: Self) -> (r: MathResult<Self>)
        ensures
            r is Ok <==> u128::MIN <= self.0 - other.0 && self.0 - other.0 <= u128::MAX,
            r matches Ok(v) ==> v.0 == self.0 - other.0,
            r matches Err(e) ==> e matches MathError::OverflowSub { a: x, b: y } && x@ == int_text_of(self.0 as int) && y@ == int_text_of(other.0 as int),
    {
        match self.0.checked_sub(other.0) {
            Some(v) => Ok(Int(v)),
            None => Err(MathError::overflow_sub(self.0, other.0)),
        }
    }

    fn checked_mul(self, other: Self) -> (r: MathResult<Self>)
        ensures
            r is Ok <==> u128::MIN <= self.0 * other.0 && self.0 * other.0 <= u128::MAX,
            r matches Ok(v) ==> v.0 == self.0 * other.0,
            r matches Err(e) ==> e matches MathError::OverflowMul { a: x, b: y } && x@ == int_text_of(self.0 as int) && y@ == int_text_of(other.0 as int),
    {
        match self.0.checked_mul(other.0) {
            Some(v) => Ok(Int(v)),
            None => Err(MathError::overflow_mul(self.0, other.0)),
        }
    }

    fn checked_div(self, other: Self) -> (r: MathResult<Self>)
        ensures
            r is Ok <==> other.0 != 0,
            r matches Ok(v) ==> v.0 == self.0 / other.0,
            r matches Err(e) ==> e matches MathError::DivisionByZero { a: x } && x@ == int_text_of(self.0 as int),
    {
        match self.0.checked_div(other.0) {
            Some(v) => Ok(Int(v)),
            None => Err(MathError::division_by_zero(self.0)),
        }
    }

    fn checked_rem(self, other: Self) -> (r: MathResult<Self>)
        ensures
            r is Ok <==> other.0 != 0,
            r matches Ok(v) ==> v.0 == self.0 % other.0,
            r matches Err(e) ==> e matches MathError::DivisionByZero { a: x } && x@ == int_text_of(self.0 as int),
    {
        match self.0.checked_rem(other.0) {
            Some(v) => Ok(Int(v)),
            None => Err(MathError::division_by_zero(self.0)),
        }
    }

    fn checked_pow(self, exp: u32) -> (r: MathResult<Self>)
        ensures
            r is Ok <==> u128::MIN <= pow(self.0 as int, exp as nat) && pow(self.0 as int, exp as nat) <= u128::MAX,
            r matches Ok(v) ==> v.0 == pow(self.0 as int, exp as nat),
            r matches Err(e) ==> e matches MathError::OverflowPow { a: x, b: y } && x@ == int_text_of(self.0 as int) && y@ == nat_text(exp as int),
    {
        match u128_checked_pow_call(self.0, exp) {
            Some(v) => Ok(Int(v)),
            None => Err(MathError::overflow_pow(self.0, exp)),
        }
    }

    /// The floored square root, by the Babylonian method.
    fn checked_sqrt(self) -> (r: MathResult<Self>)
        ensures
            r is Ok <==> self.0 >= 0,
            r matches Ok(v) ==> is_isqrt(self.0 as int, v.0 as int),
            r matches Err(e) ==> e matches MathError::NegativeSqrt { a: x } && x@ == int_text_of(self.0 as int),
    {
        let n = self.0;
        if n == 0 {
            assert(is_isqrt(n as int, 0)) by (nonlinear_arith)
                requires
                    n == 0,
            ;
            return Ok(Int(0));
        }
        let lg = match u128_checked_ilog2_call(n) {
            Some(k) => k,
            None => {
                return Err(MathError::negative_sqrt(n));
            },
        };
        proof {
            lemma_ilog_bounds(2, n as int);
            lemma_pow2_128();
            lemma_log_below(ilog(2, n as int), n as int, 128);
            assert(lg as nat == ilog(2, n as int));
            lemma_sqrt_first_estimate(n as int, lg as nat);
            lemma_pow_monotone(2, (lg / 2 + 1) as nat, 64);
            lemma_pow_positive(2, (lg / 2 + 1) as nat);
            lemma_pow2_64();
        }
        let mut x0: u128 = match u128_checked_pow_call(2, lg / 2 + 1) {
            Some(p) => p,
            None => {
                return Err(MathError::negative_sqrt(n));
            },
        };
        proof {
            assert(x0 * x0 > n);
            assert((x0 + 1) * (x0 + 1) > n) by (nonlinear_arith)
                requires
                    x0 * x0 > n,
                    x0 >= 0,
            ;
            lemma_sqrt_step(n as int, x0 as int);
        }
        let mut x1: u128 = (x0 + n / x0) / 2;
        while x1 < x0
            invariant
                n > 0,
                1 <= x0 <= pow(2, 64),
                pow(2, 64) == 0x10000000000000000,
                (x0 + 1) * (x0 + 1) > n,
                x1 == (x0 + n / x0) / 2,
                (x1 + 1) * (x1 + 1) > n,
                x1 >= x0 ==> x0 * x0 <= n,
            decreases x0,
        {
            x0 = x1;
            proof {
                assert(x0 >= 1) by (nonlinear_arith)
                    requires (x0 + 1) * (x0 + 1) > n, n > 0, x0 >= 0;
                lemma_sqrt_step(n as int, x0 as int);
            }
            x1 = (x0 + n / x0) / 2;
        }
        Ok(Int(x0))
    }

    fn saturating_add(self, other: Self) -> (r: Self)
        ensures
            r.0 == clamp(self.0 + other.0, u128::MIN as int, u128::MAX as int),
    {
        Int(self.0.saturating_add(other.0))
    }

    fn saturating_sub(self, other: Self) -> (r: Self)
        ensures
            r.0 == clamp(self.0 - other.0, u128::MIN as int, u128::MAX as int),
    {
        Int(self.0.saturating_sub(other.0))
    }

    fn saturating_mul(self, other: Self) -> (r: Self)
        ensures
            r.0 == clamp(self.0 * other.0, u128::MIN as int, u128::MAX as int),
    {
        Int(u128_saturating_mul_call(self.0, other.0))
    }

    fn saturating_pow(self, exp: u32) -> (r: Self)
        ensures
            r.0 == clamp(pow(self.0 as int, exp as nat), u128::MIN as int, u128::MAX as int),
    {
        Int(u128_saturating_pow_call(self.0, exp))
    }
}

impl Number for Int<i64> {
    fn checked_add(self, other: Self) -> (r: MathResult<Self>)
        ensures
            r is Ok <==> i64::MIN <= self.0 + other.0 && self.0 + other.0 <= i64::MAX,
            r matches Ok(v) ==> v.0 == self.0 + other.0,
            r matches Err(e) ==> e matches MathError::OverflowAdd { a: x, b: y } && x@ == int_text_of(self.0 as int) && y@ == int_text_of(other.0 as int),
    {
        match self.0.checked_add(other.0) {
            Some(v) => Ok(Int(v)),
            None => Err(MathError::overflow_add(self.0, other.0)),
        }
    }

    fn checked_sub(self, other: Self) -> (r: MathResult<Self>)
        ensures
            r is Ok <==> i64::MIN <= self.0 - other.0 && self.0 - other.0 <= i64::MAX,
            r matches Ok(v) ==> v.0 == self.0 - other.0,
            r matches Err(e) ==> e matches MathError::OverflowSub { a: x, b: y } && x@ == int_text_of(self.0 as int) && y@ == int_text_of(other.0 as int),
    {
        match self.0.checked_sub(other.0) {
            Some(v) => Ok(Int(v)),
            None => Err(MathError::overflow_sub(self.0, other.0)),
        }
    }

    fn checked_mul(self, other: Self) -> (r: MathResult<Self>)
        ensures
            r is Ok <==> i64::MIN <= self.0 * other.0 && self.0 * other.0 <= i64::MAX,
            r matches Ok(v) ==> v.0 == self.0 * other.0,
            r matches Err(e) ==> e matches MathError::OverflowMul { a: x, b: y } && x@ == int_text_of(self.0 as int) && y@ == int_text_of(other.0 as int),
    {
        match self.0.checked_mul(other.0) {
            Some(v) => Ok(Int(v)),
            None => Err(MathError::overflow_mul(self.0, other.0)),
        }
    }

    fn checked_div(self, other: Self) -> (r: MathResult<Self>)
        ensures
            r is Ok <==> other.0 != 0 && !(self.0 == i64::MIN && other.0 == -1),
            r matches Ok(v) ==> v.0 == tdiv(self.0 as int, other.0 as int),
            r matches Err(e) ==> e matches MathError::DivisionByZero { a: x } && x@ == int_text_of(self.0 as int),
    {
        proof {
            if other.0 != 0 {
                lemma_tdiv_shrinks(self.0 as int, other.0 as int);
            }
        }
        match self.0.checked_div(other.0) {
            Some(v) => Ok(Int(v)),
            None => Err(MathError::division_by_zero(self.0)),
        }
    }

    fn checked_rem(self, other: Self) -> (r: MathResult<Self>)
        ensures
            r is Ok <==> other.0 != 0 && !(self.0 == i64::MIN && other.0 == -1),
            r matches Ok(v) ==> v.0 == trem(self.0 as int, other.0 as int),
            r matches Err(e) ==> e matches MathError::DivisionByZero { a: x } && x@ == int_text_of(self.0 as int),
    {
        proof {
            if other.0 != 0 {
                lemma_tdiv_shrinks(self.0 as int, other.0 as int);
            }
        }
        match self.0.checked_rem(other.0) {
            Some(v) => Ok(Int(v)),
            None => Err(MathError::division_by_zero(self.0)),
        }
    }

    fn checked_pow(self, exp: u32) -> (r: MathResult<Self>)
        ensures
            r is Ok <==> i64::MIN <= pow(self.0 as int, exp as nat) && pow(self.0 as int, exp as nat) <= i64::MAX,
            r matches Ok(v) ==> v.0 == pow(self.0 as int, exp as nat),
            r matches Err(e) ==> e matches MathError::OverflowPow { a: x, b: y } && x@ == int_text_of(self.0 as int) && y@ == nat_text(exp as int),
    {
        match i64_checked_pow_call(self.0, exp) {
            Some(v) => Ok(Int(v)),
            None => Err(MathError::overflow_pow(self.0, exp)),
        }
    }

    /// The floored square root, by the Babylonian method.
    fn checked_sqrt(self) -> (r: MathResult<Self>)
        ensures
            r is Ok <==> self.0 >= 0,
            r matches Ok(v) ==> is_isqrt(self.0 as int, v.0 as int),
            r matches Err(e) ==> e matches MathError::NegativeSqrt { a: x } && x@ == int_text_of(self.0 as int),
    {
        let n = self.0;
        if n == 0 {
            assert(is_isqrt(n as int, 0)) by (nonlinear_arith)
                requires
                    n == 0,
            ;
            return Ok(Int(0));
        }
        if n < 0 {
            return Err(MathError::negative_sqrt(n));
        }
        let lg = match i64_checked_ilog2_call(n) {
            Some(k) => k,
            None => {
                return Err(MathError::negative_sqrt(n));
            },
        };
        proof {
            lemma_ilog_bounds(2, n as int);
            lemma_pow2_64();
            lemma_log_below(ilog(2, n as int), n as int, 64);
            assert(lg as nat == ilog(2, n as int));
            lemma_sqrt_first_estimate(n as int, lg as nat);
            lemma_pow_monotone(2, (lg / 2 + 1) as nat, 32);
            lemma_pow_positive(2, (lg / 2 + 1) as nat);
            lemma_pow2_32();
        }
        let mut x0: i64 = match i64_checked_pow_call(2, lg / 2 + 1) {
            Some(p) => p,
            None => {
                return Err(MathError::negative_sqrt(n));
            },
        };
        proof {
            assert(x0 * x0 > n);
            assert((x0 + 1) * (x0 + 1) > n) by (nonlinear_arith)
                requires
                    x0 * x0 > n,
                    x0 >= 0,
            ;
            lemma_sqrt_step(n as int, x0 as int);
        }
        let mut x1: i64 = (x0 + n / x0) / 2;
        while x1 < x0
            invariant
                n > 0,
                1 <= x0 <= pow(2, 32),
                pow(2, 32) == 0x100000000,
                (x0 + 1) * (x0 + 1) > n,
                x1 == (x0 + n / x0) / 2,
                (x1 + 1) * (x1 + 1) > n,
                x1 >= x0 ==> x0 * x0 <= n,
            decreases x0,
        {
            x0 = x1;
            proof {
                assert(x0 >= 1) by (nonlinear_arith)
                    requires (x0 + 1) * (x0 + 1) > n, n > 0, x0 >= 0;
                lemma_sqrt_step(n as int, x0 as int);
            }
            x1 = (x0 + n / x0) / 2;
        }
        Ok(Int(x0))
    }

    fn saturating_add(self, other: Self) -> (r: Self)
        ensures
            r.0 == clamp(self.0 + other.0, i64::MIN as int, i64::MAX as int),
    {
        Int(i64_saturating_add_call(self.0, other.0))
    }

    fn saturating_sub(self, other: Self) -> (r: Self)
        ensures
            r.0 == clamp(self.0 - other.0, i64::MIN as int, i64::MAX as int),
    {
        Int(i64_saturating_sub_call(self.0, other.0))
    }

    fn saturating_mul(self, other: Self) -> (r: Self)
        ensures
            r.0 == clamp(self.0 * other.0, i64::MIN as int, i64::MAX as int),
    {
        Int(i64_saturating_mul_call(self.0, other.0))
    }

    fn saturating_pow(self, exp: u32) -> (r: Self)
        ensures
            r.0 == clamp(pow(self.0 as int, exp as nat), i64::MIN as int, i64::MAX as int),
    {
        Int(i64_saturating_pow_call(self.0, exp))
    }
}

impl Number for Int<i128> {
    fn checked_add(self, other: Self) -> (r: MathResult<Self>)
        ensures
            r is Ok <==> i128::MIN <= self.0 + other.0 && self.0 + other.0 <= i128::MAX,
            r matches Ok(v) ==> v.0 == self.0 + other.0,
            r matches Err(e) ==> e matches MathError::OverflowAdd { a: x, b: y } && x@ == int_text_of(self.0 as int) && y@ == int_text_of(other.0 as int),
    {
        match self.0.checked_add(other.0) {
            Some(v) => Ok(Int(v)),
            None => Err(MathError::overflow_add(self.0, other.0)),
        }
    }

    fn checked_sub(self, other: Self) -> (r: MathResult<Self>)
        ensures
            r is Ok <==> i128::MIN <= self.0 - other.0 && self.0 - other.0 <= i128::MAX,
            r matches Ok(v) ==> v.0 == self.0 - other.0,
            r matches Err(e) ==> e matches MathError::OverflowSub { a: x, b: y } && x@ == int_text_of(self.0 as int) && y@ == int_text_of(other.0 as int),
    {
        match self.0.checked_sub(other.0) {
            Some(v) => Ok(Int(v)),
            None => Err(MathError::overflow_sub(self.0, other.0)),
        }
    }

    fn checked_mul(self, other: Self) -> (r: MathResult<Self>)
        ensures
            r is Ok <==> i128::MIN <= self.0 * other.0 && self.0 * other.0 <= i128::MAX,
            r matches Ok(v) ==> v.0 == self.0 * other.0,
            r matches Err(e) ==> e matches MathError::OverflowMul { a: x, b: y } && x@ == int_text_of(self.0 as int) && y@ == int_text_of(other.0 as int),
    {
        match self.0.checked_mul(other.0) {
            Some(v) => Ok(Int(v)),
            None => Err(MathError::overflow_mul(self.0, other.0)),
        }
    }

    fn checked_div(self, other: Self) -> (r: MathResult<Self>)
        ensures
            r is Ok <==> other.0 != 0 && !(self.0 == i128::MIN && other.0 == -1),
            r matches Ok(v) ==> v.0 == tdiv(self.0 as int, other.0 as int),
            r matches Err(e) ==> e matches MathError::DivisionByZero { a: x } && x@ == int_text_of(self.0 as int),
    {
        proof {
            if other.0 != 0 {
                lemma_tdiv_shrinks(self.0 as int, other.0 as int);
            }
        }
        match self.0.checked_div(other.0) {
            Some(v) => Ok(Int(v)),
            None => Err(MathError::division_by_zero(self.0)),
        }
    }

    fn checked_rem(self, other: Self) -> (r: MathResult<Self>)
        ensures
            r is Ok <==> other.0 != 0 && !(self.0 == i128::MIN && other.0 == -1),
            r matches Ok(v) ==> v.0 == trem(self.0 as int, other.0 as int),
            r matches Err(e) ==> e matches MathError::DivisionByZero { a: x } && x@ == int_text_of(self.0 as int),
    {
        proof {
            if other.0 != 0 {
                lemma_tdiv_shrinks(self.0 as int, other.0 as int);
            }
        }
        match self.0.checked_rem(other.0) {
            Some(v) => Ok(Int(v)),
            None => Err(MathError::division_by_zero(self.0)),
        }
    }

    fn checked_pow(self, exp: u32) -> (r: MathResult<Self>)
        ensures
            r is Ok <==> i128::MIN <= pow(self.0 as int, exp as nat) && pow(self.0 as int, exp as nat) <= i128::MAX,
            r matches Ok(v) ==> v.0 == pow(self.0 as int, exp as nat),
            r matches Err(e) ==> e matches MathError::OverflowPow { a: x, b: y } && x@ == int_text_of(self.0 as int) && y@ == nat_text(exp as int),
    {
        match i128_checked_pow_call(self.0, exp) {
            Some(v) => Ok(Int(v)),
            None => Err(MathError::overflow_pow(self.0, exp)),
        }
    }

    /// The floored square root, by the Babylonian method.
    fn checked_sqrt(self) -> (r: MathResult<Self>)
        ensures
            r is Ok <==> self.0 >= 0,
            r matches Ok(v) ==> is_isqrt(self.0 as int, v.0 as int),
            r matches Err(e) ==> e matches MathError::NegativeSqrt { a: x } && x@ == int_text_of(self.0 as int),
    {
        let n = self.0;
        if n == 0 {
            assert(is_isqrt(n as int, 0)) by (nonlinear_arith)
                requires
                    n == 0,
            ;
            return Ok(Int(0));
        }
        if n < 0 {
            return Err(MathError::negative_sqrt(n));
        }
        let lg = match i128_checked_ilog2_call(n) {
            Some(k) => k,
            None => {
                return Err(MathError::negative_sqrt(n));
            },
        };
        proof {
            lemma_ilog_bounds(2, n as int);
            lemma_pow2_128();
            lemma_log_below(ilog(2, n as int), n as int, 128);
            assert(lg as nat == ilog(2, n as int));
            lemma_sqrt_first_estimate(n as int, lg as nat);
            lemma_pow_monotone(2, (lg / 2 + 1) as nat, 64);
            lemma_pow_positive(2, (lg / 2 + 1) as nat);
            lemma_pow2_64();
        }
        let mut x0: i128 = match i128_checked_pow_call(2, lg / 2 + 1) {
            Some(p) => p,
            None => {
                return Err(MathError::negative_sqrt(n));
            },
        };
        proof {
            assert(x0 * x0 > n);
            assert((x0 + 1) * (x0 + 1) > n) by (nonlinear_arith)
                requires
                    x0 * x0 > n,
                    x0 >= 0,
            ;
            lemma_sqrt_step(n as int, x0 as int);
        }
        let mut x1: i128 = (x0 + n / x0) / 2;
        while x1 < x0
            invariant
                n > 0,
                1 <= x0 <= pow(2, 64),
                pow(2, 64) == 0x10000000000000000,
                (x0 + 1) * (x0 + 1) > n,
                x1 == (x0 + n / x0) / 2,
                (x1 + 1) * (x1 + 1) > n,
                x1 >= x0 ==> x0 * x0 <= n,
            decreases x0,
        {
            x0 = x1;
            proof {
                assert(x0 >= 1) by (nonlinear_arith)
                    requires (x0 + 1) * (x0 + 1) > n, n > 0, x0 >= 0;
                lemma_sqrt_step(n as int, x0 as int);
            }
            x1 = (x0 + n / x0) / 2;
        }
        Ok(Int(x0))
    }

    fn saturating_add(self, other: Self) -> (r: Self)
        ensures
            r.0 == clamp(self.0 + other.0, i128::MIN as int, i128::MAX as int),
    {
        Int(i128_saturating_add_call(self.0, other.0))
    }

    fn saturating_sub(self, other: Self) -> (r: Self)
        ensures
            r.0 == clamp(self.0 - other.0, i128::MIN as int, i128::MAX as int),
    {
        Int(i128_saturating_sub_call(self.0, other.0))
    }

    fn saturating_mul(self, other: Self) -> (r: Self)
        ensures
            r.0 == clamp(self.0 * other.0, i128::MIN as int, i128::MAX as int),
    {
        Int(i128_saturating_mul_call(self.0, other.0))
    }

    fn saturating_pow(self, exp: u32) -> (r: Self)
        ensures
            r.0 == clamp(pow(self.0 as int, exp as nat), i128::MIN as int, i128::MAX as int),
    {
        Int(i128_saturating_pow_call(self.0, exp))
    }
}

impl Number for Int<U256> {
    fn checked_add(self, other: Self) -> (r: MathResult<Self>)
        ensures
            r is Ok <==> fits_u256(self.0.value() + other.0.value()),
            r matches Ok(v) ==> v.0.value() == self.0.value() + other.0.value(),
            r matches Err(e) ==> e matches MathError::OverflowAdd { a: x, b: y } && x@ == int_text_of(self.0.value()) && y@ == int_text_of(other.0.value()),
    {
        match u256_checked_add(self.0, other.0) {
            Some(v) => Ok(Int(v)),
            None => Err(MathError::overflow_add(self.0, other.0)),
        }
    }

    fn checked_sub(self, other: Self) -> (r: MathResult<Self>)
        ensures
            r is Ok <==> fits_u256(self.0.value() - other.0.value()),
            r matches Ok(v) ==> v.0.value() == self.0.value() - other.0.value(),
            r matches Err(e) ==> e matches MathError::OverflowSub { a: x, b: y } && x@ == int_text_of(self.0.value()) && y@ == int_text_of(other.0.value()),
    {
        match u256_checked_sub(self.0, other.0) {
            Some(v) => Ok(Int(v)),
            None => Err(MathError::overflow_sub(self.0, other.0)),
        }
    }

    fn checked_mul(self, other: Self) -> (r: MathResult<Self>)
        ensures
            r is Ok <==> fits_u256(self.0.value() * other.0.value()),
            r matches Ok(v) ==> v.0.value() == self.0.value() * other.0.value(),
            r matches Err(e) ==> e matches MathError::OverflowMul { a: x, b: y } && x@ == int_text_of(self.0.value()) && y@ == int_text_of(other.0.value()),
    {
        match u256_checked_mul(self.0, other.0) {
            Some(v) => Ok(Int(v)),
            None => Err(MathError::overflow_mul(self.0, other.0)),
        }
    }

    fn checked_div(self, other: Self) -> (r: MathResult<Self>)
        ensures
            r is Ok <==> other.0.value() != 0,
            r matches Ok(v) ==> v.0.value() == self.0.value() / other.0.value(),
            r matches Err(e) ==> e matches MathError::DivisionByZero { a: x } && x@ == int_text_of(self.0.value()),
    {
        match u256_checked_div(self.0, other.0) {
            Some(v) => Ok(Int(v)),
            None => Err(MathError::division_by_zero(self.0)),
        }
    }

    fn checked_rem(self, other: Self) -> (r: MathResult<Self>)
        ensures
            r is Ok <==> other.0.value() != 0,
            r matches Ok(v) ==> v.0.value() == self.0.value() % other.0.value(),
            r matches Err(e) ==> e matches MathError::DivisionByZero { a: x } && x@ == int_text_of(self.0.value()),
    {
        match u256_checked_rem(self.0, other.0) {
            Some(v) => Ok(Int(v)),
            None => Err(MathError::division_by_zero(self.0)),
        }
    }

    fn checked_pow(self, exp: u32) -> (r: MathResult<Self>)
        ensures
            r is Ok <==> fits_u256(pow(self.0.value(), exp as nat)),
            r matches Ok(v) ==> v.0.value() == pow(self.0.value(), exp as nat),
            r matches Err(e) ==> e matches MathError::OverflowPow { a: x, b: y } && x@ == int_text_of(self.0.value()) && y@ == nat_text(exp as int),
    {
        match u256_checked_pow(self.0, exp) {
            Some(v) => Ok(Int(v)),
            None => Err(MathError::overflow_pow(self.0, exp)),
        }
    }

    /// The floored square root, by the Babylonian method.
    fn checked_sqrt(self) -> (r: MathResult<Self>)
        ensures
            r is Ok <==> self.0.value() >= 0,
            r matches Ok(v) ==> is_isqrt(self.0.value(), v.0.value()),
            r matches Err(e) ==> e matches MathError::NegativeSqrt { a: x } && x@ == int_text_of(self.0.value()),
    {
        let n = self.0;
        if n.is_zero() {
            assert(is_isqrt(n.value(), 0)) by (nonlinear_arith)
                requires
                    n.value() == 0,
            ;
            return Ok(Int(U256::zero()));
        }
        proof {
            lemma_u256_range(n);
        }
        let lg = match u256_checked_ilog2(n) {
            Some(k) => k,
            None => {
                return Err(MathError::negative_sqrt(n));
            },
        };
        proof {
            lemma_ilog_bounds(2, n.value());
            lemma_pow2_256();
            lemma_log_below(ilog(2, n.value()), n.value(), 256);
            assert(lg as nat == ilog(2, n.value()));
            lemma_sqrt_first_estimate(n.value(), lg as nat);
            lemma_pow_monotone(2, (lg / 2 + 1) as nat, 128);
            lemma_pow_positive(2, (lg / 2 + 1) as nat);
            lemma_pow2_128();
        }
        let two = U256::from_u128(2);
        let mut x0 = match u256_checked_pow(two, lg / 2 + 1) {
            Some(p) => p,
            None => {
                return Err(MathError::negative_sqrt(n));
            },
        };
        proof {
            assert(x0.value() * x0.value() > n.value());
            assert((x0.value() + 1) * (x0.value() + 1) > n.value()) by (nonlinear_arith)
                requires
                    x0.value() * x0.value() > n.value(),
                    x0.value() >= 0,
            ;
        }
        let mut x1 = match u256_sqrt_step(n, x0) {
            Some(v) => v,
            None => {
                return Err(MathError::negative_sqrt(n));
            },
        };
        while x1.lt(&x0)
            invariant
                n.value() > 0,
                1 <= x0.value() <= 0x1_0000_0000_0000_0000_0000_0000_0000_0000int,
                (x0.value() + 1) * (x0.value() + 1) > n.value(),
                x1.value() == (x0.value() + n.value() / x0.value()) / 2,
                (x1.value() + 1) * (x1.value() + 1) > n.value(),
                x1.value() >= x0.value() ==> x0.value() * x0.value() <= n.value(),
            decreases x0.value(),
        {
            x0 = x1;
            proof {
                assert(x0.value() >= 1) by (nonlinear_arith)
                    requires
                        (x0.value() + 1) * (x0.value() + 1) > n.value(),
                        n.value() > 0,
                        x0.value() >= 0,
                ;
            }
            x1 = match u256_sqrt_step(n, x0) {
                Some(v) => v,
                None => {
                    return Err(MathError::negative_sqrt(n));
                },
            };
        }
        Ok(Int(x0))
    }

    fn saturating_add(self, other: Self) -> (r: Self)
        ensures
            r.0.value() == clamp(self.0.value() + other.0.value(), u256_min(), u256_max()),
    {
        Int(u256_saturating_add(self.0, other.0))
    }

    fn saturating_sub(self, other: Self) -> (r: Self)
        ensures
            r.0.value() == clamp(self.0.value() - other.0.value(), u256_min(), u256_max()),
    {
        Int(u256_saturating_sub(self.0, other.0))
    }

    fn saturating_mul(self, other: Self) -> (r: Self)
        ensures
            r.0.value() == clamp(self.0.value() * other.0.value(), u256_min(), u256_max()),
    {
        Int(u256_saturating_mul(self.0, other.0))
    }

    fn saturating_pow(self, exp: u32) -> (r: Self)
        ensures
            r.0.value() == clamp(pow(self.0.value(), exp as nat), u256_min(), u256_max()),
    {
        Int(u256_saturating_pow(self.0, exp))
    }
}

/// One Babylonian step, `(x + n / x) / 2`, on a positive estimate that is not
/// below the floored root.
fn u256_sqrt_step(n: U256, x: U256) -> (r: Option<U256>)
    requires
        n.value() > 0,
        1 <= x.value() <= 0x1_0000_0000_0000_0000_0000_0000_0000_0000int,
        (x.value() + 1) * (x.value() + 1) > n.value(),
    ensures
        r matches Some(v) && v.value() == (x.value() + n.value() / x.value()) / 2
            && (v.value() + 1) * (v.value() + 1) > n.value()
            && (v.value() >= x.value() ==> x.value() * x.value() <= n.value()),
{
    proof {
        lemma_sqrt_step(n.value(), x.value());
        lemma_u256_range(n);
        assert(n.value() / x.value() >= 0) by (nonlinear_arith)
            requires n.value() > 0, x.value() >= 1;
    }
    let q = match u256_checked_div(n, x) {
        Some(q) => q,
        None => {
            return None;
        },
    };
    let s = match u256_checked_add(x, q) {
        Some(s) => s,
        None => {
            return None;
        },
    };
    u256_checked_div(s, U256::from_u128(2))
}

impl Number for Int<I256> {
    fn checked_add(self, other: Self) -> (r: MathResult<Self>)
        ensures
            r is Ok <==> fits_i256(self.0.value() + other.0.value()),
            r matches Ok(v) ==> v.0.value() == self.0.value() + other.0.value(),
            r matches Err(e) ==> e matches MathError::OverflowAdd { a: x, b: y } && x@ == int_text_of(self.0.value()) && y@ == int_text_of(other.0.value()),
    {
        match i256_checked_add(self.0, other.0) {
            Some(v) => Ok(Int(v)),
            None => Err(MathError::overflow_add(self.0, other.0)),
        }
    }

    fn checked_sub(self, other: Self) -> (r: MathResult<Self>)
        ensures
            r is Ok <==> fits_i256(self.0.value() - other.0.value()),
            r matches Ok(v) ==> v.0.value() == self.0.value() - other.0.value(),
            r matches Err(e) ==> e matches MathError::OverflowSub { a: x, b: y } && x@ == int_text_of(self.0.value()) && y@ == int_text_of(other.0.value()),
    {
        match i256_checked_sub(self.0, other.0) {
            Some(v) => Ok(Int(v)),
            None => Err(MathError::overflow_sub(self.0, other.0)),
        }
    }

    fn checked_mul(self, other: Self) -> (r: MathResult<Self>)
        ensures
            r is Ok <==> fits_i256(self.0.value() * other.0.value()),
            r matches Ok(v) ==> v.0.value() == self.0.value() * other.0.value(),
            r matches Err(e) ==> e matches MathError::OverflowMul { a: x, b: y } && x@ == int_text_of(self.0.value()) && y@ == int_text_of(other.0.value()),
    {
        match i256_checked_mul(self.0, other.0) {
            Some(v) => Ok(Int(v)),
            None => Err(MathError::overflow_mul(self.0, other.0)),
        }
    }

    fn checked_div(self, other: Self) -> (r: MathResult<Self>)
        ensures
            r is Ok <==> i256_div_defined(self.0.value(), other.0.value()),
            r matches Ok(v) ==> v.0.value() == tdiv(self.0.value(), other.0.value()),
            r matches Err(e) ==> e matches MathError::DivisionByZero { a: x } && x@ == int_text_of(self.0.value()),
    {
        match i256_checked_div(self.0, other.0) {
            Some(v) => Ok(Int(v)),
            None => Err(MathError::division_by_zero(self.0)),
        }
    }

    fn checked_rem(self, other: Self) -> (r: MathResult<Self>)
        ensures
            r is Ok <==> i256_div_defined(self.0.value(), other.0.value()),
            r matches Ok(v) ==> v.0.value() == trem(self.0.value(), other.0.value()),
            r matches Err(e) ==> e matches MathError::DivisionByZero { a: x } && x@ == int_text_of(self.0.value()),
    {
        match i256_checked_rem(self.0, other.0) {
            Some(v) => Ok(Int(v)),
            None => Err(MathError::division_by_zero(self.0)),
        }
    }

    fn checked_pow(self, exp: u32) -> (r: MathResult<Self>)
        ensures
            r is Ok <==> fits_i256(pow(self.0.value(), exp as nat)),
            r matches Ok(v) ==> v.0.value() == pow(self.0.value(), exp as nat),
            r matches Err(e) ==> e matches MathError::OverflowPow { a: x, b: y } && x@ == int_text_of(self.0.value()) && y@ == nat_text(exp as int),
    {
        match i256_checked_pow(self.0, exp) {
            Some(v) => Ok(Int(v)),
            None => Err(MathError::overflow_pow(self.0, exp)),
        }
    }

    /// The floored square root, by the Babylonian method.
    fn checked_sqrt(self) -> (r: MathResult<Self>)
        ensures
            r is Ok <==> self.0.value() >= 0,
            r matches Ok(v) ==> is_isqrt(self.0.value(), v.0.value()),
            r matches Err(e) ==> e matches MathError::NegativeSqrt { a: x } && x@ == int_text_of(self.0.value()),
    {
        let n = self.0;
        if n.is_zero() {
            assert(is_isqrt(n.value(), 0)) by (nonlinear_arith)
                requires
                    n.value() == 0,
            ;
            return Ok(Int(I256::zero()));
        }
        if n.is_negative() {
            return Err(MathError::negative_sqrt(n));
        }
        proof {
            lemma_i256_range(n);
        }
        let lg = match i256_checked_ilog2(n) {
            Some(k) => k,
            None => {
                return Err(MathError::negative_sqrt(n));
            },
        };
        proof {
            lemma_ilog_bounds(2, n.value());
            lemma_pow2_256();
            lemma_log_below(ilog(2, n.value()), n.value(), 256);
            assert(lg as nat == ilog(2, n.value()));
            lemma_sqrt_first_estimate(n.value(), lg as nat);
            lemma_pow_monotone(2, (lg / 2 + 1) as nat, 128);
            lemma_pow_positive(2, (lg / 2 + 1) as nat);
            lemma_pow2_128();
        }
        let two = I256::from_i128(2);
        let mut x0 = match i256_checked_pow(two, lg / 2 + 1) {
            Some(p) => p,
            None => {
                return Err(MathError::negative_sqrt(n));
            },
        };
        proof {
            assert(x0.value() * x0.value() > n.value());
            assert((x0.value() + 1) * (x0.value() + 1) > n.value()) by (nonlinear_arith)
                requires
                    x0.value() * x0.value() > n.value(),
                    x0.value() >= 0,
            ;
        }
        let mut x1 = match i256_sqrt_step(n, x0) {
            Some(v) => v,
            None => {
                return Err(MathError::negative_sqrt(n));
            },
        };
        while x1.lt(&x0)
            invariant
                n.value() > 0,
                1 <= x0.value() <= 0x1_0000_0000_0000_0000_0000_0000_0000_0000int,
                (x0.value() + 1) * (x0.value() + 1) > n.value(),
                x1.value() == (x0.value() + n.value() / x0.value()) / 2,
                (x1.value() + 1) * (x1.value() + 1) > n.value(),
                x1.value() >= x0.value() ==> x0.value() * x0.value() <= n.value(),
            decreases x0.value(),
        {
            x0 = x1;
            proof {
                assert(x0.value() >= 1) by (nonlinear_arith)
                    requires
                        (x0.value() + 1) * (x0.value() + 1) > n.value(),
                        n.value() > 0,
                        x0.value() >= 0,
                ;
            }
            x1 = match i256_sqrt_step(n, x0) {
                Some(v) => v,
                None => {
                    return Err(MathError::negative_sqrt(n));
                },
            };
        }
        Ok(Int(x0))
    }

    fn saturating_add(self, other: Self) -> (r: Self)
        ensures
            r.0.value() == clamp(self.0.value() + other.0.value(), i256_min(), i256_max()),
    {
        Int(i256_saturating_add(self.0, other.0))
    }

    fn saturating_sub(self, other: Self) -> (r: Self)
        ensures
            r.0.value() == clamp(self.0.value() - other.0.value(), i256_min(), i256_max()),
    {
        Int(i256_saturating_sub(self.0, other.0))
    }

    fn saturating_mul(self, other: Self) -> (r: Self)
        ensures
            r.0.value() == clamp(self.0.value() * other.0.value(), i256_min(), i256_max()),
    {
        Int(i256_saturating_mul(self.0, other.0))
    }

    fn saturating_pow(self, exp: u32) -> (r: Self)
        ensures
            r.0.value() == clamp(pow(self.0.value(), exp as nat), i256_min(), i256_max()),
    {
        Int(i256_saturating_pow(self.0, exp))
    }
}

/// One Babylonian step, `(x + n / x) / 2`, on a positive estimate that is not
/// below the floored root.
fn i256_sqrt_step(n: I256, x: I256) -> (r: Option<I256>)
    requires
        n.value() > 0,
        1 <= x.value() <= 0x1_0000_0000_0000_0000_0000_0000_0000_0000int,
        (x.value() + 1) * (x.value() + 1) > n.value(),
    ensures
        r matches Some(v) && v.value() == (x.value() + n.value() / x.value()) / 2
            && (v.value() + 1) * (v.value() + 1) > n.value()
            && (v.value() >= x.value() ==> x.value() * x.value() <= n.value()),
{
    proof {
        lemma_sqrt_step(n.value(), x.value());
        lemma_i256_range(n);
        assert(n.value() / x.value() >= 0) by (nonlinear_arith)
            requires n.value() > 0, x.value() >= 1;
    }
    let q = match i256_checked_div(n, x) {
        Some(q) => q,
        None => {
            return None;
        },
    };
    let s = match i256_checked_add(x, q) {
        Some(s) => s,
        None => {
            return None;
        },
    };
    i256_checked_div(s, I256::from_i128(2))
}

impl Number for Dec<u128, 18> {
    fn checked_add(self, other: Self) -> (r: MathResult<Self>)
        ensures
            r is Ok <==> u128::MIN <= self.0.0 + other.0.0 && self.0.0 + other.0.0 <= u128::MAX,
            r matches Ok(v) ==> v.0.0 == self.0.0 + other.0.0,
            r matches Err(e) ==> e matches MathError::OverflowAdd { a: x, b: y } && x@ == int_text_of(self.0.0 as int) && y@ == int_text_of(other.0.0 as int),
    {
        match self.0.checked_add(other.0) {
            Ok(v) => Ok(Dec(v)),
            Err(e) => Err(e),
        }
    }

    fn checked_sub(self, other: Self) -> (r: MathResult<Self>)
        ensures
            r is Ok <==> u128::MIN <= self.0.0 - other.0.0 && self.0.0 - other.0.0 <= u128::MAX,
            r matches Ok(v) ==> v.0.0 == self.0.0 - other.0.0,
            r matches Err(e) ==> e matches MathError::OverflowSub { a: x, b: y } && x@ == int_text_of(self.0.0 as int) && y@ == int_text_of(other.0.0 as int),
    {
        match self.0.checked_sub(other.0) {
            Ok(v) => Ok(Dec(v)),
            Err(e) => Err(e),
        }
    }

    /// The product, rounded towards zero.
    fn checked_mul(self, other: Self) -> (r: MathResult<Self>)
        ensures
            r is Ok <==> u128::MIN <= tdiv(self.0.0 * other.0.0, pow10(18)) && tdiv(self.0.0 * other.0.0, pow10(18)) <= u128::MAX,
            r matches Ok(v) ==> v.0.0 == tdiv(self.0.0 * other.0.0, pow10(18)),
            r matches Err(e) ==> e matches MathError::OverflowMul { a: x, b: y } && x@ == dec_display(self.0.0 as int, 18)
                && y@ == dec_display(other.0.0 as int, 18),
    {
        proof {
            lemma_pow10_18();
        }
        let dividend = match self.0.checked_full_mul(other.0) {
            Ok(p) => p,
            Err(_) => {
                return Err(MathError::overflow_mul(self, other));
            },
        };
        let precision = Int::<u128>::new(1_000_000_000_000_000_000).into_next();
        let q = match dividend.checked_div(precision) {
            Ok(q) => q,
            Err(_) => {
                return Err(MathError::overflow_mul(self, other));
            },
        };
        match q.checked_into_prev() {
            Ok(v) => Ok(Dec(v)),
            Err(_) => Err(MathError::overflow_mul(self, other)),
        }
    }

    /// The quotient, rounded towards zero.
    fn checked_div(self, other: Self) -> (r: MathResult<Self>)
        ensures
            r is Ok <==> other.0.0 != 0 && u128::MIN <= tdiv(self.0.0 * pow10(18), other.0.0 as int) && tdiv(self.0.0 * pow10(18), other.0.0 as int) <= u128::MAX,
            r matches Ok(v) ==> v.0.0 == tdiv(self.0.0 * pow10(18), other.0.0 as int),
            r matches Err(e) ==> (other.0.0 == 0 ==> e is DivisionByZero) && (other.0.0 != 0 ==> e is OverflowConversion),
    {
        Self::checked_from_ratio(self.0, other.0)
    }

    fn checked_rem(self, other: Self) -> (r: MathResult<Self>)
        ensures
            r is Ok <==> other.0.0 != 0,
            r matches Ok(v) ==> v.0.0 == self.0.0 % other.0.0,
            r matches Err(e) ==> e matches MathError::DivisionByZero { a: x } && x@ == int_text_of(self.0.0 as int),
    {
        match self.0.checked_rem(other.0) {
            Ok(v) => Ok(Dec(v)),
            Err(e) => Err(e),
        }
    }

    /// The power by squaring and multiplying, each product rounded towards
    /// zero.
    fn checked_pow(self, exp: u32) -> (r: MathResult<Self>)
        ensures
            r is Ok <==> dec_pow(self.0.0 as int, exp as nat, pow10(18), u128::MIN as int, u128::MAX as int) is Some,
            r matches Ok(v) ==> dec_pow(self.0.0 as int, exp as nat, pow10(18), u128::MIN as int, u128::MAX as int) == Some(v.0.0 as int),
            r matches Err(e) ==> e matches MathError::OverflowPow { a: x, b: y } && x@ == dec_display(dec_pow_failure(self.0.0 as int, exp as nat, pow10(18), u128::MIN as int, u128::MAX as int).0, 18)
                && y@ == nat_text(dec_pow_failure(self.0.0 as int, exp as nat, pow10(18), u128::MIN as int, u128::MAX as int).1 as int),
    {
        proof {
            lemma_pow10_18();
        }
        if exp == 0 {
            return Ok(Dec(Int(1_000_000_000_000_000_000)));
        }
        let mut x = self;
        let mut y: Self = Dec(Int(1_000_000_000_000_000_000));
        let mut e = exp;
        while e > 1
            invariant
                e >= 1,
                pow10(18) == 1_000_000_000_000_000_000,
                dec_pow(self.0.0 as int, exp as nat, pow10(18), u128::MIN as int, u128::MAX as int)
                    == dec_pow_loop(x.0.0 as int, y.0.0 as int, e as nat, pow10(18), u128::MIN as int, u128::MAX as int),
                dec_pow_failure(self.0.0 as int, exp as nat, pow10(18), u128::MIN as int, u128::MAX as int)
                    == dec_pow_loop_failure(x.0.0 as int, y.0.0 as int, e as nat, pow10(18), u128::MIN as int, u128::MAX as int),
            decreases e,
        {
            if e % 2 == 0 {
                x = match x.checked_mul(x) {
                    Ok(v) => v,
                    Err(_) => {
                        return Err(MathError::overflow_pow(x, e));
                    },
                };
                e = e / 2;
            } else {
                y = match x.checked_mul(y) {
                    Ok(v) => v,
                    Err(_) => {
                        return Err(MathError::overflow_pow(x, e));
                    },
                };
                x = match x.checked_mul(x) {
                    Ok(v) => v,
                    Err(_) => {
                        return Err(MathError::overflow_pow(x, e));
                    },
                };
                e = (e - 1) / 2;
            }
        }
        match x.checked_mul(y) {
            Ok(v) => Ok(v),
            Err(_) => Err(MathError::overflow_pow(x, e)),
        }
    }

    /// The square root: the inner integer is scaled up by the largest power
    /// of a hundred that keeps it in range, its floored root taken, and the
    /// result scaled to `18` decimal places.
    fn checked_sqrt(self) -> (r: MathResult<Self>)
        ensures
            r is Ok <==> self.0.0 >= 0,
            r matches Ok(v) ==> ({
                let k = dec_sqrt_scale(self.0.0 as int, 9, u128::MAX as int);
                let m = pow10((9 - k) as nat);
                (v.0.0 as int) % m == 0 && is_isqrt(self.0.0 * pow(100, k), (v.0.0 as int) / m)
            }),
            r matches Err(e) ==> e matches MathError::NegativeSqrt { a: x } && x@ == dec_display(self.0.0 as int, 18),
    {
        let ghost a = self.0.0 as int;
        proof {
            lemma_pow10_18();
            lemma_dec_sqrt_scale(a, 9, u128::MAX as int);
        }
        let mut i: u32 = 9;
        loop
            invariant
                a == self.0.0,
                0 <= a <= u128::MAX,
                i <= 9,
                dec_sqrt_scale(a, 9, u128::MAX as int) <= i,
                forall|j: nat| dec_sqrt_scale(a, 9, u128::MAX as int) < j <= 9
                    ==> #[trigger] (a * pow(100, j)) > u128::MAX,
                a * pow(100, dec_sqrt_scale(a, 9, u128::MAX as int)) <= u128::MAX,
            decreases i,
        {
            let inner_mul = pow10_u128(2 * i);
            proof {
                lemma_pow100_is_pow10(i as nat);
                assert((2 * i) as nat == 2 * (i as nat));
                assert(inner_mul == pow(100, i as nat));
                lemma_pow_positive(100, i as nat);
            }
            match self.0.checked_mul(Int(inner_mul)) {
                Ok(inner) => {
                    proof {
                        assert(inner.0 == a * pow(100, i as nat));
                        assert(inner.0 >= 0) by (nonlinear_arith)
                            requires inner.0 == a * pow(100, i as nat), a >= 0, pow(100, i as nat) > 0;
                        lemma_pow10_24();
                        lemma_pow_monotone(10, 9, 12);
                        lemma_pow10_bounds((9 - i) as nat);
                        lemma_pow_monotone(10, (9 - i) as nat, 9);
                    }
                    let root = match inner.checked_sqrt() {
                        Ok(root) => root,
                        Err(e) => {
                            return Err(e);
                        },
                    };
                    let outer_mul = pow10_u128(9 - i);
                    proof {
                        lemma_root_bound(inner.0 as int, root.0 as int);
                        assert(root.0 * outer_mul <= u128::MAX) by (nonlinear_arith)
                            requires
                                0 <= root.0 <= 0x1_0000_0000_0000_0000,
                                1 <= outer_mul <= pow10(9),
                                pow10(9) <= 1_000_000_000_000,
                        ;
                        assert((root.0 * outer_mul) % (outer_mul as int) == 0
                            && (root.0 * outer_mul) / (outer_mul as int) == root.0) by (nonlinear_arith)
                            requires
                                outer_mul >= 1,
                                root.0 >= 0,
                        ;
                    }
                    return Ok(Dec(Int(root.0 * outer_mul)));
                },
                Err(_) => {},
            }
            if i == 0 {
                return Err(MathError::SqrtFailed);
            }
            i = i - 1;
        }
    }

    fn saturating_add(self, other: Self) -> (r: Self)
        ensures
            r.0.0 == clamp(self.0.0 + other.0.0, u128::MIN as int, u128::MAX as int),
    {
        Dec(self.0.saturating_add(other.0))
    }

    fn saturating_sub(self, other: Self) -> (r: Self)
        ensures
            r.0.0 == clamp(self.0.0 - other.0.0, u128::MIN as int, u128::MAX as int),
    {
        Dec(self.0.saturating_sub(other.0))
    }

    fn saturating_mul(self, other: Self) -> (r: Self)
        ensures
            r.0.0 == (if u128::MIN <= tdiv(self.0.0 * other.0.0, pow10(18)) && tdiv(self.0.0 * other.0.0, pow10(18)) <= u128::MAX {
                tdiv(self.0.0 * other.0.0, pow10(18))
            } else if (self.0.0 < 0) == (other.0.0 < 0) {
                u128::MAX as int
            } else {
                u128::MIN as int
            }),
    {
        match self.checked_mul(other) {
            Ok(v) => v,
            Err(_) => {
                if (self.0.0 < 0) == (other.0.0 < 0) {
                    Dec(Int(u128::MAX))
                } else {
                    Dec(Int(u128::MIN))
                }
            },
        }
    }

    fn saturating_pow(self, exp: u32) -> (r: Self)
        ensures
            r.0.0 == (match dec_pow(self.0.0 as int, exp as nat, pow10(18), u128::MIN as int, u128::MAX as int) {
                Some(v) => v,
                None => if self.0.0 < 0 && exp % 2 == 1 { u128::MIN as int } else { u128::MAX as int },
            }),
    {
        match self.checked_pow(exp) {
            Ok(v) => v,
            Err(_) => {
                if self.0.0 < 0 && exp % 2 == 1 {
                    Dec(Int(u128::MIN))
                } else {
                    Dec(Int(u128::MAX))
                }
            },
        }
    }
}

impl Number for Dec<u128, 6> {
    fn checked_add(self, other: Self) -> (r: MathResult<Self>)
        ensures
            r is Ok <==> u128::MIN <= self.0.0 + other.0.0 && self.0.0 + other.0.0 <= u128::MAX,
            r matches Ok(v) ==> v.0.0 == self.0.0 + other.0.0,
            r matches Err(e) ==> e matches MathError::OverflowAdd { a: x, b: y } && x@ == int_text_of(self.0.0 as int) && y@ == int_text_of(other.0.0 as int),
    {
        match self.0.checked_add(other.0) {
            Ok(v) => Ok(Dec(v)),
            Err(e) => Err(e),
        }
    }

    fn checked_sub(self, other: Self) -> (r: MathResult<Self>)
        ensures
            r is Ok <==> u128::MIN <= self.0.0 - other.0.0 && self.0.0 - other.0.0 <= u128::MAX,
            r matches Ok(v) ==> v.0.0 == self.0.0 - other.0.0,
            r matches Err(e) ==> e matches MathError::OverflowSub { a: x, b: y } && x@ == int_text_of(self.0.0 as int) && y@ == int_text_of(other.0.0 as int),
    {
        match self.0.checked_sub(other.0) {
            Ok(v) => Ok(Dec(v)),
            Err(e) => Err(e),
        }
    }

    /// The product, rounded towards zero.
    fn checked_mul(self, other: Self) -> (r: MathResult<Self>)
        ensures
            r is Ok <==> u128::MIN <= tdiv(self.0.0 * other.0.0, pow10(6)) && tdiv(self.0.0 * other.0.0, pow10(6)) <= u128::MAX,
            r matches Ok(v) ==> v.0.0 == tdiv(self.0.0 * other.0.0, pow10(6)),
            r matches Err(e) ==> e matches MathError::OverflowMul { a: x, b: y } && x@ == dec_display(self.0.0 as int, 6)
                && y@ == dec_display(other.0.0 as int, 6),
    {
        proof {
            lemma_pow10_6();
        }
        let dividend = match self.0.checked_full_mul(other.0) {
            Ok(p) => p,
            Err(_) => {
                return Err(MathError::overflow_mul(self, other));
            },
        };
        let precision = Int::<u128>::new(1_000_000).into_next();
        let q = match dividend.checked_div(precision) {
            Ok(q) => q,
            Err(_) => {
                return Err(MathError::overflow_mul(self, other));
            },
        };
        match q.checked_into_prev() {
            Ok(v) => Ok(Dec(v)),
            Err(_) => Err(MathError::overflow_mul(self, other)),
        }
    }

    /// The quotient, rounded towards zero.
    fn checked_div(self, other: Self) -> (r: MathResult<Self>)
        ensures
            r is Ok <==> other.0.0 != 0 && u128::MIN <= tdiv(self.0.0 * pow10(6), other.0.0 as int) && tdiv(self.0.0 * pow10(6), other.0.0 as int) <= u128::MAX,
            r matches Ok(v) ==> v.0.0 == tdiv(self.0.0 * pow10(6), other.0.0 as int),
            r matches Err(e) ==> (other.0.0 == 0 ==> e is DivisionByZero) && (other.0.0 != 0 ==> e is OverflowConversion),
    {
        Self::checked_from_ratio(self.0, other.0)
    }

    fn checked_rem(self, other: Self) -> (r: MathResult<Self>)
        ensures
            r is Ok <==> other.0.0 != 0,
            r matches Ok(v) ==> v.0.0 == self.0.0 % other.0.0,
            r matches Err(e) ==> e matches MathError::DivisionByZero { a: x } && x@ == int_text_of(self.0.0 as int),
    {
        match self.0.checked_rem(other.0) {
            Ok(v) => Ok(Dec(v)),
            Err(e) => Err(e),
        }
    }

    /// The power by squaring and multiplying, each product rounded towards
    /// zero.
    fn checked_pow(self, exp: u32) -> (r: MathResult<Self>)
        ensures
            r is Ok <==> dec_pow(self.0.0 as int, exp as nat, pow10(6), u128::MIN as int, u128::MAX as int) is Some,
            r matches Ok(v) ==> dec_pow(self.0.0 as int, exp as nat, pow10(6), u128::MIN as int, u128::MAX as int) == Some(v.0.0 as int),
            r matches Err(e) ==> e matches MathError::OverflowPow { a: x, b: y } && x@ == dec_display(dec_pow_failure(self.0.0 as int, exp as nat, pow10(6), u128::MIN as int, u128::MAX as int).0, 6)
                && y@ == nat_text(dec_pow_failure(self.0.0 as int, exp as nat, pow10(6), u128::MIN as int, u128::MAX as int).1 as int),
    {
        proof {
            lemma_pow10_6();
        }
        if exp == 0 {
            return Ok(Dec(Int(1_000_000)));
        }
        let mut x = self;
        let mut y: Self = Dec(Int(1_000_000));
        let mut e = exp;
        while e > 1
            invariant
                e >= 1,
                pow10(6) == 1_000_000,
                dec_pow(self.0.0 as int, exp as nat, pow10(6), u128::MIN as int, u128::MAX as int)
                    == dec_pow_loop(x.0.0 as int, y.0.0 as int, e as nat, pow10(6), u128::MIN as int, u128::MAX as int),
                dec_pow_failure(self.0.0 as int, exp as nat, pow10(6), u128::MIN as int, u128::MAX as int)
                    == dec_pow_loop_failure(x.0.0 as int, y.0.0 as int, e as nat, pow10(6), u128::MIN as int, u128::MAX as int),
            decreases e,
        {
            if e % 2 == 0 {
                x = match x.checked_mul(x) {
                    Ok(v) => v,
                    Err(_) => {
                        return Err(MathError::overflow_pow(x, e));
                    },
                };
                e = e / 2;
            } else {
                y = match x.checked_mul(y) {
                    Ok(v) => v,
                    Err(_) => {
                        return Err(MathError::overflow_pow(x, e));
                    },
                };
                x = match x.checked_mul(x) {
                    Ok(v) => v,
                    Err(_) => {
                        return Err(MathError::overflow_pow(x, e));
                    },
                };
                e = (e - 1) / 2;
            }
        }
        match x.checked_mul(y) {
            Ok(v) => Ok(v),
            Err(_) => Err(MathError::overflow_pow(x, e)),
        }
    }

    /// The square root: the inner integer is scaled up by the largest power
    /// of a hundred that keeps it in range, its floored root taken, and the
    /// result scaled to `6` decimal places.
    fn checked_sqrt(self) -> (r: MathResult<Self>)
        ensures
            r is Ok <==> self.0.0 >= 0,
            r matches Ok(v) ==> ({
                let k = dec_sqrt_scale(self.0.0 as int, 3, u128::MAX as int);
                let m = pow10((3 - k) as nat);
                (v.0.0 as int) % m == 0 && is_isqrt(self.0.0 * pow(100, k), (v.0.0 as int) / m)
            }),
            r matches Err(e) ==> e matches MathError::NegativeSqrt { a: x } && x@ == dec_display(self.0.0 as int, 6),
    {
        let ghost a = self.0.0 as int;
        proof {
            lemma_pow10_6();
            lemma_dec_sqrt_scale(a, 3, u128::MAX as int);
        }
        let mut i: u32 = 3;
        loop
            invariant
                a == self.0.0,
                0 <= a <= u128::MAX,
                i <= 3,
                dec_sqrt_scale(a, 3, u128::MAX as int) <= i,
                forall|j: nat| dec_sqrt_scale(a, 3, u128::MAX as int) < j <= 3
                    ==> #[trigger] (a * pow(100, j)) > u128::MAX,
                a * pow(100, dec_sqrt_scale(a, 3, u128::MAX as int)) <= u128::MAX,
            decreases i,
        {
            let inner_mul = pow10_u128(2 * i);
            proof {
                lemma_pow100_is_pow10(i as nat);
                assert((2 * i) as nat == 2 * (i as nat));
                assert(inner_mul == pow(100, i as nat));
                lemma_pow_positive(100, i as nat);
            }
            match self.0.checked_mul(Int(inner_mul)) {
                Ok(inner) => {
                    proof {
                        assert(inner.0 == a * pow(100, i as nat));
                        assert(inner.0 >= 0) by (nonlinear_arith)
                            requires inner.0 == a * pow(100, i as nat), a >= 0, pow(100, i as nat) > 0;
                        lemma_pow10_24();
                        lemma_pow_monotone(10, 3, 12);
                        lemma_pow10_bounds((3 - i) as nat);
                        lemma_pow_monotone(10, (3 - i) as nat, 3);
                    }
                    let root = match inner.checked_sqrt() {
                        Ok(root) => root,
                        Err(e) => {
                            return Err(e);
                        },
                    };
                    let outer_mul = pow10_u128(3 - i);
                    proof {
                        lemma_root_bound(inner.0 as int, root.0 as int);
                        assert(root.0 * outer_mul <= u128::MAX) by (nonlinear_arith)
                            requires
                                0 <= root.0 <= 0x1_0000_0000_0000_0000,
                                1 <= outer_mul <= pow10(3),
                                pow10(3) <= 1_000_000_000_000,
                        ;
                        assert((root.0 * outer_mul) % (outer_mul as int) == 0
                            && (root.0 * outer_mul) / (outer_mul as int) == root.0) by (nonlinear_arith)
                            requires
                                outer_mul >= 1,
                                root.0 >= 0,
                        ;
                    }
                    return Ok(Dec(Int(root.0 * outer_mul)));
                },
                Err(_) => {},
            }
            if i == 0 {
                return Err(MathError::SqrtFailed);
            }
            i = i - 1;
        }
    }

    fn saturating_add(self, other: Self) -> (r: Self)
        ensures
            r.0.0 == clamp(self.0.0 + other.0.0, u128::MIN as int, u128::MAX as int),
    {
        Dec(self.0.saturating_add(other.0))
    }

    fn saturating_sub(self, other: Self) -> (r: Self)
        ensures
            r.0.0 == clamp(self.0.0 - other.0.0, u128::MIN as int, u128::MAX as int),
    {
        Dec(self.0.saturating_sub(other.0))
    }

    fn saturating_mul(self, other: Self) -> (r: Self)
        ensures
            r.0.0 == (if u128::MIN <= tdiv(self.0.0 * other.0.0, pow10(6)) && tdiv(self.0.0 * other.0.0, pow10(6)) <= u128::MAX {
                tdiv(self.0.0 * other.0.0, pow10(6))
            } else if (self.0.0 < 0) == (other.0.0 < 0) {
                u128::MAX as int
            } else {
                u128::MIN as int
            }),
    {
        match self.checked_mul(other) {
            Ok(v) => v,
            Err(_) => {
                if (self.0.0 < 0) == (other.0.0 < 0) {
                    Dec(Int(u128::MAX))
                } else {
                    Dec(Int(u128::MIN))
                }
            },
        }
    }

    fn saturating_pow(self, exp: u32) -> (r: Self)
        ensures
            r.0.0 == (match dec_pow(self.0.0 as int, exp as nat, pow10(6), u128::MIN as int, u128::MAX as int) {
                Some(v) => v,
                None => if self.0.0 < 0 && exp % 2 == 1 { u128::MIN as int } else { u128::MAX as int },
            }),
    {
        match self.checked_pow(exp) {
            Ok(v) => v,
            Err(_) => {
                if self.0.0 < 0 && exp % 2 == 1 {
                    Dec(Int(u128::MIN))
                } else {
                    Dec(Int(u128::MAX))
                }
            },
        }
    }
}

impl Number for Dec<u128, 24> {
    fn checked_add(self, other: Self) -> (r: MathResult<Self>)
        ensures
            r is Ok <==> u128::MIN <= self.0.0 + other.0.0 && self.0.0 + other.0.0 <= u128::MAX,
            r matches Ok(v) ==> v.0.0 == self.0.0 + other.0.0,
            r matches Err(e) ==> e matches MathError::OverflowAdd { a: x, b: y } && x@ == int_text_of(self.0.0 as int) && y@ == int_text_of(other.0.0 as int),
    {
        match self.0.checked_add(other.0) {
            Ok(v) => Ok(Dec(v)),
            Err(e) => Err(e),
        }
    }

    fn checked_sub(self, other: Self) -> (r: MathResult<Self>)
        ensures
            r is Ok <==> u128::MIN <= self.0.0 - other.0.0 && self.0.0 - other.0.0 <= u128::MAX,
            r matches Ok(v) ==> v.0.0 == self.0.0 - other.0.0,
            r matches Err(e) ==> e matches MathError::OverflowSub { a: x, b: y } && x@ == int_text_of(self.0.0 as int) && y@ == int_text_of(other.0.0 as int),
    {
        match self.0.checked_sub(other.0) {
            Ok(v) => Ok(Dec(v)),
            Err(e) => Err(e),
        }
    }

    /// The product, rounded towards zero.
    fn checked_mul(self, other: Self) -> (r: MathResult<Self>)
        ensures
            r is Ok <==> u128::MIN <= tdiv(self.0.0 * other.0.0, pow10(24)) && tdiv(self.0.0 * other.0.0, pow10(24)) <= u128::MAX,
            r matches Ok(v) ==> v.0.0 == tdiv(self.0.0 * other.0.0, pow10(24)),
            r matches Err(e) ==> e matches MathError::OverflowMul { a: x, b: y } && x@ == dec_display(self.0.0 as int, 24)
                && y@ == dec_display(other.0.0 as int, 24),
    {
        proof {
            lemma_pow10_24();
        }
        let dividend = match self.0.checked_full_mul(other.0) {
            Ok(p) => p,
            Err(_) => {
                return Err(MathError::overflow_mul(self, other));
            },
        };
        let precision = Int::<u128>::new(1_000_000_000_000_000_000_000_000).into_next();
        let q = match dividend.checked_div(precision) {
            Ok(q) => q,
            Err(_) => {
                return Err(MathError::overflow_mul(self, other));
            },
        };
        match q.checked_into_prev() {
            Ok(v) => Ok(Dec(v)),
            Err(_) => Err(MathError::overflow_mul(self, other)),
        }
    }

    /// The quotient, rounded towards zero.
    fn checked_div(self, other: Self) -> (r: MathResult<Self>)
        ensures
            r is Ok <==> other.0.0 != 0 && u128::MIN <= tdiv(self.0.0 * pow10(24), other.0.0 as int) && tdiv(self.0.0 * pow10(24), other.0.0 as int) <= u128::MAX,
            r matches Ok(v) ==> v.0.0 == tdiv(self.0.0 * pow10(24), other.0.0 as int),
            r matches Err(e) ==> (other.0.0 == 0 ==> e is DivisionByZero) && (other.0.0 != 0 ==> e is OverflowConversion),
    {
        Self::checked_from_ratio(self.0, other.0)
    }

    fn checked_rem(self, other: Self) -> (r: MathResult<Self>)
        ensures
            r is Ok <==> other.0.0 != 0,
            r matches Ok(v) ==> v.0.0 == self.0.0 % other.0.0,
            r matches Err(e) ==> e matches MathError::DivisionByZero { a: x } && x@ == int_text_of(self.0.0 as int),
    {
        match self.0.checked_rem(other.0) {
            Ok(v) => Ok(Dec(v)),
            Err(e) => Err(e),
        }
    }

    /// The power by squaring and multiplying, each product rounded towards
    /// zero.
    fn checked_pow(self, exp: u32) -> (r: MathResult<Self>)
        ensures
            r is Ok <==> dec_pow(self.0.0 as int, exp as nat, pow10(24), u128::MIN as int, u128::MAX as int) is Some,
            r matches Ok(v) ==> dec_pow(self.0.0 as int, exp as nat, pow10(24), u128::MIN as int, u128::MAX as int) == Some(v.0.0 as int),
            r matches Err(e) ==> e matches MathError::OverflowPow { a: x, b: y } && x@ == dec_display(dec_pow_failure(self.0.0 as int, exp as nat, pow10(24), u128::MIN as int, u128::MAX as int).0, 24)
                && y@ == nat_text(dec_pow_failure(self.0.0 as int, exp as nat, pow10(24), u128::MIN as int, u128::MAX as int).1 as int),
    {
        proof {
            lemma_pow10_24();
        }
        if exp == 0 {
            return Ok(Dec(Int(1_000_000_000_000_000_000_000_000)));
        }
        let mut x = self;
        let mut y: Self = Dec(Int(1_000_000_000_000_000_000_000_000));
        let mut e = exp;
        while e > 1
            invariant
                e >= 1,
                pow10(24) == 1_000_000_000_000_000_000_000_000,
                dec_pow(self.0.0 as int, exp as nat, pow10(24), u128::MIN as int, u128::MAX as int)
                    == dec_pow_loop(x.0.0 as int, y.0.0 as int, e as nat, pow10(24), u128::MIN as int, u128::MAX as int),
                dec_pow_failure(self.0.0 as int, exp as nat, pow10(24), u128::MIN as int, u128::MAX as int)
                    == dec_pow_loop_failure(x.0.0 as int, y.0.0 as int, e as nat, pow10(24), u128::MIN as int, u128::MAX as int),
            decreases e,
        {
            if e % 2 == 0 {
                x = match x.checked_mul(x) {
                    Ok(v) => v,
                    Err(_) => {
                        return Err(MathError::overflow_pow(x, e));
                    },
                };
                e = e / 2;
            } else {
                y = match x.checked_mul(y) {
                    Ok(v) => v,
                    Err(_) => {
                        return Err(MathError::overflow_pow(x, e));
                    },
                };
                x = match x.checked_mul(x) {
                    Ok(v) => v,
                    Err(_) => {
                        return Err(MathError::overflow_pow(x, e));
                    },
                };
                e = (e - 1) / 2;
            }
        }
        match x.checked_mul(y) {
            Ok(v) => Ok(v),
            Err(_) => Err(MathError::overflow_pow(x, e)),
        }
    }

    /// The square root: the inner integer is scaled up by the largest power
    /// of a hundred that keeps it in range, its floored root taken, and the
    /// result scaled to `24` decimal places.
    fn checked_sqrt(self) -> (r: MathResult<Self>)
        ensures
            r is Ok <==> self.0.0 >= 0,
            r matches Ok(v) ==> ({
                let k = dec_sqrt_scale(self.0.0 as int, 12, u128::MAX as int);
                let m = pow10((12 - k) as nat);
                (v.0.0 as int) % m == 0 && is_isqrt(self.0.0 * pow(100, k), (v.0.0 as int) / m)
            }),
            r matches Err(e) ==> e matches MathError::NegativeSqrt { a: x } && x@ == dec_display(self.0.0 as int, 24),
    {
        let ghost a = self.0.0 as int;
        proof {
            lemma_pow10_24();
            lemma_dec_sqrt_scale(a, 12, u128::MAX as int);
        }
        let mut i: u32 = 12;
        loop
            invariant
                a == self.0.0,
                0 <= a <= u128::MAX,
                i <= 12,
                dec_sqrt_scale(a, 12, u128::MAX as int) <= i,
                forall|j: nat| dec_sqrt_scale(a, 12, u128::MAX as int) < j <= 12
                    ==> #[trigger] (a * pow(100, j)) > u128::MAX,
                a * pow(100, dec_sqrt_scale(a, 12, u128::MAX as int)) <= u128::MAX,
            decreases i,
        {
            let inner_mul = pow10_u128(2 * i);
            proof {
                lemma_pow100_is_pow10(i as nat);
                assert((2 * i) as nat == 2 * (i as nat));
                assert(inner_mul == pow(100, i as nat));
                lemma_pow_positive(100, i as nat);
            }
            match self.0.checked_mul(Int(inner_mul)) {
                Ok(inner) => {
                    proof {
                        assert(inner.0 == a * pow(100, i as nat));
                        assert(inner.0 >= 0) by (nonlinear_arith)
                            requires inner.0 == a * pow(100, i as nat), a >= 0, pow(100, i as nat) > 0;
                        lemma_pow10_24();
                        lemma_pow_monotone(10, 12, 12);
                        lemma_pow10_bounds((12 - i) as nat);
                        lemma_pow_monotone(10, (12 - i) as nat, 12);
                    }
                    let root = match inner.checked_sqrt() {
                        Ok(root) => root,
                        Err(e) => {
                            return Err(e);
                        },
                    };
                    let outer_mul = pow10_u128(12 - i);
                    proof {
                        lemma_root_bound(inner.0 as int, root.0 as int);
                        assert(root.0 * outer_mul <= u128::MAX) by (nonlinear_arith)
                            requires
                                0 <= root.0 <= 0x1_0000_0000_0000_0000,
                                1 <= outer_mul <= pow10(12),
                                pow10(12) <= 1_000_000_000_000,
                        ;
                        assert((root.0 * outer_mul) % (outer_mul as int) == 0
                            && (root.0 * outer_mul) / (outer_mul as int) == root.0) by (nonlinear_arith)
                            requires
                                outer_mul >= 1,
                                root.0 >= 0,
                        ;
                    }
                    return Ok(Dec(Int(root.0 * outer_mul)));
                },
                Err(_) => {},
            }
            if i == 0 {
                return Err(MathError::SqrtFailed);
            }
            i = i - 1;
        }
    }

    fn saturating_add(self, other: Self) -> (r: Self)
        ensures
            r.0.0 == clamp(self.0.0 + other.0.0, u128::MIN as int, u128::MAX as int),
    {
        Dec(self.0.saturating_add(other.0))
    }

    fn saturating_sub(self, other: Self) -> (r: Self)
        ensures
            r.0.0 == clamp(self.0.0 - other.0.0, u128::MIN as int, u128::MAX as int),
    {
        Dec(self.0.saturating_sub(other.0))
    }

    fn saturating_mul(self, other: Self) -> (r: Self)
        ensures
            r.0.0 == (if u128::MIN <= tdiv(self.0.0 * other.0.0, pow10(24)) && tdiv(self.0.0 * other.0.0, pow10(24)) <= u128::MAX {
                tdiv(self.0.0 * other.0.0, pow10(24))
            } else if (self.0.0 < 0) == (other.0.0 < 0) {
                u128::MAX as int
            } else {
                u128::MIN as int
            }),
    {
        match self.checked_mul(other) {
            Ok(v) => v,
            Err(_) => {
                if (self.0.0 < 0) == (other.0.0 < 0) {
                    Dec(Int(u128::MAX))
                } else {
                    Dec(Int(u128::MIN))
                }
            },
        }
    }

    fn saturating_pow(self, exp: u32) -> (r: Self)
        ensures
            r.0.0 == (match dec_pow(self.0.0 as int, exp as nat, pow10(24), u128::MIN as int, u128::MAX as int) {
                Some(v) => v,
                None => if self.0.0 < 0 && exp % 2 == 1 { u128::MIN as int } else { u128::MAX as int },
            }),
    {
        match self.checked_pow(exp) {
            Ok(v) => v,
            Err(_) => {
                if self.0.0 < 0 && exp % 2 == 1 {
                    Dec(Int(u128::MIN))
                } else {
                    Dec(Int(u128::MAX))
                }
            },
        }
    }
}

impl Number for Dec<i128, 18> {
    fn checked_add(self, other: Self) -> (r: MathResult<Self>)
        ensures
            r is Ok <==> i128::MIN <= self.0.0 + other.0.0 && self.0.0 + other.0.0 <= i128::MAX,
            r matches Ok(v) ==> v.0.0 == self.0.0 + other.0.0,
            r matches Err(e) ==> e matches MathError::OverflowAdd { a: x, b: y } && x@ == int_text_of(self.0.0 as int) && y@ == int_text_of(other.0.0 as int),
    {
        match self.0.checked_add(other.0) {
            Ok(v) => Ok(Dec(v)),
            Err(e) => Err(e),
        }
    }

    fn checked_sub(self, other: Self) -> (r: MathResult<Self>)
        ensures
            r is Ok <==> i128::MIN <= self.0.0 - other.0.0 && self.0.0 - other.0.0 <= i128::MAX,
            r matches Ok(v) ==> v.0.0 == self.0.0 - other.0.0,
            r matches Err(e) ==> e matches MathError::OverflowSub { a: x, b: y } && x@ == int_text_of(self.0.0 as int) && y@ == int_text_of(other.0.0 as int),
    {
        match self.0.checked_sub(other.0) {
            Ok(v) => Ok(Dec(v)),
            Err(e) => Err(e),
        }
    }

    /// The product, rounded towards zero.
    fn checked_mul(self, other: Self) -> (r: MathResult<Self>)
        ensures
            r is Ok <==> i128::MIN <= tdiv(self.0.0 * other.0.0, pow10(18)) && tdiv(self.0.0 * other.0.0, pow10(18)) <= i128::MAX,
            r matches Ok(v) ==> v.0.0 == tdiv(self.0.0 * other.0.0, pow10(18)),
            r matches Err(e) ==> e matches MathError::OverflowMul { a: x, b: y } && x@ == dec_display(self.0.0 as int, 18)
                && y@ == dec_display(other.0.0 as int, 18),
    {
        proof {
            lemma_pow10_18();
        }
        let dividend = match self.0.checked_full_mul(other.0) {
            Ok(p) => p,
            Err(_) => {
                return Err(MathError::overflow_mul(self, other));
            },
        };
        let precision = Int::<i128>::new(1_000_000_000_000_000_000).into_next();
        let q = match dividend.checked_div(precision) {
            Ok(q) => q,
            Err(_) => {
                return Err(MathError::overflow_mul(self, other));
            },
        };
        match q.checked_into_prev() {
            Ok(v) => Ok(Dec(v)),
            Err(_) => Err(MathError::overflow_mul(self, other)),
        }
    }

    /// The quotient, rounded towards zero.
    fn checked_div(self, other: Self) -> (r: MathResult<Self>)
        ensures
            r is Ok <==> other.0.0 != 0 && i128::MIN <= tdiv(self.0.0 * pow10(18), other.0.0 as int) && tdiv(self.0.0 * pow10(18), other.0.0 as int) <= i128::MAX,
            r matches Ok(v) ==> v.0.0 == tdiv(self.0.0 * pow10(18), other.0.0 as int),
            r matches Err(e) ==> (other.0.0 == 0 ==> e is DivisionByZero) && (other.0.0 != 0 ==> e is OverflowConversion),
    {
        Self::checked_from_ratio(self.0, other.0)
    }

    fn checked_rem(self, other: Self) -> (r: MathResult<Self>)
        ensures
            r is Ok <==> other.0.0 != 0 && !(self.0.0 == i128::MIN && other.0.0 == -1),
            r matches Ok(v) ==> v.0.0 == trem(self.0.0 as int, other.0.0 as int),
            r matches Err(e) ==> e matches MathError::DivisionByZero { a: x } && x@ == int_text_of(self.0.0 as int),
    {
        match self.0.checked_rem(other.0) {
            Ok(v) => Ok(Dec(v)),
            Err(e) => Err(e),
        }
    }

    /// The power by squaring and multiplying, each product rounded towards
    /// zero.
    fn checked_pow(self, exp: u32) -> (r: MathResult<Self>)
        ensures
            r is Ok <==> dec_pow(self.0.0 as int, exp as nat, pow10(18), i128::MIN as int, i128::MAX as int) is Some,
            r matches Ok(v) ==> dec_pow(self.0.0 as int, exp as nat, pow10(18), i128::MIN as int, i128::MAX as int) == Some(v.0.0 as int),
            r matches Err(e) ==> e matches MathError::OverflowPow { a: x, b: y } && x@ == dec_display(dec_pow_failure(self.0.0 as int, exp as nat, pow10(18), i128::MIN as int, i128::MAX as int).0, 18)
                && y@ == nat_text(dec_pow_failure(self.0.0 as int, exp as nat, pow10(18), i128::MIN as int, i128::MAX as int).1 as int),
    {
        proof {
            lemma_pow10_18();
        }
        if exp == 0 {
            return Ok(Dec(Int(1_000_000_000_000_000_000)));
        }
        let mut x = self;
        let mut y: Self = Dec(Int(1_000_000_000_000_000_000));
        let mut e = exp;
        while e > 1
            invariant
                e >= 1,
                pow10(18) == 1_000_000_000_000_000_000,
                dec_pow(self.0.0 as int, exp as nat, pow10(18), i128::MIN as int, i128::MAX as int)
                    == dec_pow_loop(x.0.0 as int, y.0.0 as int, e as nat, pow10(18), i128::MIN as int, i128::MAX as int),
                dec_pow_failure(self.0.0 as int, exp as nat, pow10(18), i128::MIN as int, i128::MAX as int)
                    == dec_pow_loop_failure(x.0.0 as int, y.0.0 as int, e as nat, pow10(18), i128::MIN as int, i128::MAX as int),
            decreases e,
        {
            if e % 2 == 0 {
                x = match x.checked_mul(x) {
                    Ok(v) => v,
                    Err(_) => {
                        return Err(MathError::overflow_pow(x, e));
                    },
                };
                e = e / 2;
            } else {
                y = match x.checked_mul(y) {
                    Ok(v) => v,
                    Err(_) => {
                        return Err(MathError::overflow_pow(x, e));
                    },
                };
                x = match x.checked_mul(x) {
                    Ok(v) => v,
                    Err(_) => {
                        return Err(MathError::overflow_pow(x, e));
                    },
                };
                e = (e - 1) / 2;
            }
        }
        match x.checked_mul(y) {
            Ok(v) => Ok(v),
            Err(_) => Err(MathError::overflow_pow(x, e)),
        }
    }

    /// The square root: the inner integer is scaled up by the largest power
    /// of a hundred that keeps it in range, its floored root taken, and the
    /// result scaled to `18` decimal places.
    fn checked_sqrt(self) -> (r: MathResult<Self>)
        ensures
            r is Ok <==> self.0.0 >= 0,
            r matches Ok(v) ==> ({
                let k = dec_sqrt_scale(self.0.0 as int, 9, i128::MAX as int);
                let m = pow10((9 - k) as nat);
                (v.0.0 as int) % m == 0 && is_isqrt(self.0.0 * pow(100, k), (v.0.0 as int) / m)
            }),
            r matches Err(e) ==> e matches MathError::NegativeSqrt { a: x } && x@ == dec_display(self.0.0 as int, 18),
    {
        if self.0.0 < 0 {
            return Err(MathError::negative_sqrt(self));
        }
        let ghost a = self.0.0 as int;
        proof {
            lemma_pow10_18();
            lemma_dec_sqrt_scale(a, 9, i128::MAX as int);
        }
        let mut i: u32 = 9;
        loop
            invariant
                a == self.0.0,
                0 <= a <= i128::MAX,
                i <= 9,
                dec_sqrt_scale(a, 9, i128::MAX as int) <= i,
                forall|j: nat| dec_sqrt_scale(a, 9, i128::MAX as int) < j <= 9
                    ==> #[trigger] (a * pow(100, j)) > i128::MAX,
                a * pow(100, dec_sqrt_scale(a, 9, i128::MAX as int)) <= i128::MAX,
            decreases i,
        {
            let inner_mul = pow10_i128(2 * i);
            proof {
                lemma_pow100_is_pow10(i as nat);
                assert((2 * i) as nat == 2 * (i as nat));
                assert(inner_mul == pow(100, i as nat));
                lemma_pow_positive(100, i as nat);
            }
            match self.0.checked_mul(Int(inner_mul)) {
                Ok(inner) => {
                    proof {
                        assert(inner.0 == a * pow(100, i as nat));
                        assert(inner.0 >= 0) by (nonlinear_arith)
                            requires inner.0 == a * pow(100, i as nat), a >= 0, pow(100, i as nat) > 0;
                        lemma_pow10_24();
                        lemma_pow_monotone(10, 9, 12);
                        lemma_pow10_bounds((9 - i) as nat);
                        lemma_pow_monotone(10, (9 - i) as nat, 9);
                    }
                    let root = match inner.checked_sqrt() {
                        Ok(root) => root,
                        Err(e) => {
                            return Err(e);
                        },
                    };
                    let outer_mul = pow10_i128(9 - i);
                    proof {
                        lemma_root_bound(inner.0 as int, root.0 as int);
                        assert(root.0 * outer_mul <= i128::MAX) by (nonlinear_arith)
                            requires
                                0 <= root.0 <= 0x1_0000_0000_0000_0000,
                                1 <= outer_mul <= pow10(9),
                                pow10(9) <= 1_000_000_000_000,
                        ;
                        assert((root.0 * outer_mul) % (outer_mul as int) == 0
                            && (root.0 * outer_mul) / (outer_mul as int) == root.0) by (nonlinear_arith)
                            requires
                                outer_mul >= 1,
                                root.0 >= 0,
                        ;
                    }
                    return Ok(Dec(Int(root.0 * outer_mul)));
                },
                Err(_) => {},
            }
            if i == 0 {
                return Err(MathError::SqrtFailed);
            }
            i = i - 1;
        }
    }

    fn saturating_add(self, other: Self) -> (r: Self)
        ensures
            r.0.0 == clamp(self.0.0 + other.0.0, i128::MIN as int, i128::MAX as int),
    {
        Dec(self.0.saturating_add(other.0))
    }

    fn saturating_sub(self, other: Self) -> (r: Self)
        ensures
            r.0.0 == clamp(self.0.0 - other.0.0, i128::MIN as int, i128::MAX as int),
    {
        Dec(self.0.saturating_sub(other.0))
    }

    fn saturating_mul(self, other: Self) -> (r: Self)
        ensures
            r.0.0 == (if i128::MIN <= tdiv(self.0.0 * other.0.0, pow10(18)) && tdiv(self.0.0 * other.0.0, pow10(18)) <= i128::MAX {
                tdiv(self.0.0 * other.0.0, pow10(18))
            } else if (self.0.0 < 0) == (other.0.0 < 0) {
                i128::MAX as int
            } else {
                i128::MIN as int
            }),
    {
        match self.checked_mul(other) {
            Ok(v) => v,
            Err(_) => {
                if (self.0.0 < 0) == (other.0.0 < 0) {
                    Dec(Int(i128::MAX))
                } else {
                    Dec(Int(i128::MIN))
                }
            },
        }
    }

    fn saturating_pow(self, exp: u32) -> (r: Self)
        ensures
            r.0.0 == (match dec_pow(self.0.0 as int, exp as nat, pow10(18), i128::MIN as int, i128::MAX as int) {
                Some(v) => v,
                None => if self.0.0 < 0 && exp % 2 == 1 { i128::MIN as int } else { i128::MAX as int },
            }),
    {
        match self.checked_pow(exp) {
            Ok(v) => v,
            Err(_) => {
                if self.0.0 < 0 && exp % 2 == 1 {
                    Dec(Int(i128::MIN))
                } else {
                    Dec(Int(i128::MAX))
                }
            },
        }
    }
}

} // verus!
