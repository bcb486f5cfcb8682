use vstd::prelude::*;
use crate::arith::{ceil_div, floor_div, lemma_pow10_18, lemma_pow10_24, lemma_pow10_6, lemma_round_from_tdiv, pow10, tdiv};
use crate::dec::Dec;
use crate::error::{MathError, MathResult};
use crate::int_types::Int;
use crate::is_zero::IsZero;
use crate::multiply_ratio::MultiplyRatio;
use crate::number::Number;

verus! {

/// Describes a number that can be expressed as the quotient of two integers.
pub trait Fraction<U>: Sized {
    fn numerator(&self) -> Int<U>;

    fn denominator() -> Int<U>;

    fn checked_inv(&self) -> MathResult<Self>;

    /// Replaces the value by its inverse; on an error it is left unchanged.
    fn checked_inv_assign(&mut self) -> (r: MathResult<()>)
        ensures
            r matches Ok(_) ==> call_ensures(Self::checked_inv, (&*old(self),), Ok::<Self, MathError>(*final(self))),
            r matches Err(e) ==> *final(self) == *old(self) && call_ensures(Self::checked_inv, (&*old(self),), Err::<Self, MathError>(e)),
    {
        match Self::checked_inv(&*self) {
            Ok(v) => {
                *self = v;
                Ok(())
            },
            Err(e) => Err(e),
        }
    }
}

/// Describes operations between a number and a decimal type.
pub trait MultiplyFraction<F, U>: Sized + Copy {
    fn checked_mul_dec(self, rhs: F) -> MathResult<Self>;

    fn checked_mul_dec_floor(self, rhs: F) -> MathResult<Self>;

    fn checked_mul_dec_ceil(self, rhs: F) -> MathResult<Self>;

    fn checked_div_dec(self, rhs: F) -> MathResult<Self>;

    fn checked_div_dec_floor(self, rhs: F) -> MathResult<Self>;

    fn checked_div_dec_ceil(self, rhs: F) -> MathResult<Self>;

    /// Replaces the value by its product with the decimal `rhs`, rounded towards zero; on an error it is left unchanged.
    fn checked_mul_dec_assign(&mut self, rhs: F) -> (r: MathResult<()>)
        ensures
            r matches Ok(_) ==> call_ensures(Self::checked_mul_dec, (*old(self), rhs), Ok::<Self, MathError>(*final(self))),
            r matches Err(e) ==> *final(self) == *old(self) && call_ensures(Self::checked_mul_dec, (*old(self), rhs), Err::<Self, MathError>(e)),
    {
        match Self::checked_mul_dec(*self, rhs) {
            Ok(v) => {
                *self = v;
                Ok(())
            },
            Err(e) => Err(e),
        }
    }

    /// Replaces the value by its product with the decimal `rhs`, rounded down; on an error it is left unchanged.
    fn checked_mul_dec_floor_assign(&mut self, rhs: F) -> (r: MathResult<()>)
        ensures
            r matches Ok(_) ==> call_ensures(Self::checked_mul_dec_floor, (*old(self), rhs), Ok::<Self, MathError>(*final(self))),
            r matches Err(e) ==> *final(self) == *old(self) && call_ensures(Self::checked_mul_dec_floor, (*old(self), rhs), Err::<Self, MathError>(e)),
    {
        match Self::checked_mul_dec_floor(*self, rhs) {
            Ok(v) => {
                *self = v;
                Ok(())
            },
            Err(e) => Err(e),
        }
    }

    /// Replaces the value by its product with the decimal `rhs`, rounded up; on an error it is left unchanged.
    fn checked_mul_dec_ceil_assign(&mut self, rhs: F) -> (r: MathResult<()>)
        ensures
            r matches Ok(_) ==> call_ensures(Self::checked_mul_dec_ceil, (*old(self), rhs), Ok::<Self, MathError>(*final(self))),
            r matches Err(e) ==> *final(self) == *old(self) && call_ensures(Self::checked_mul_dec_ceil, (*old(self), rhs), Err::<Self, MathError>(e)),
    {
        match Self::checked_mul_dec_ceil(*self, rhs) {
            Ok(v) => {
                *self = v;
                Ok(())
            },
            Err(e) => Err(e),
        }
    }

    /// Replaces the value by its quotient by the decimal `rhs`, rounded towards zero; on an error it is left unchanged.
    fn checked_div_dec_assign(&mut self, rhs: F) -> (r: MathResult<()>)
        ensures
            r matches Ok(_) ==> call_ensures(Self::checked_div_dec, (*old(self), rhs), Ok::<Self, MathError>(*final(self))),
            r matches Err(e) ==> *final(self) == *old(self) && call_ensures(Self::checked_div_dec, (*old(self), rhs), Err::<Self, MathError>(e)),
    {
        match Self::checked_div_dec(*self, rhs) {
            Ok(v) => {
                *self = v;
                Ok(())
            },
            Err(e) => Err(e),
        }
    }

    /// Replaces the value by its quotient by the decimal `rhs`, rounded down; on an error it is left unchanged.
    fn checked_div_dec_floor_assign(&mut self, rhs: F) -> (r: MathResult<()>)
        ensures
            r matches Ok(_) ==> call_ensures(Self::checked_div_dec_floor, (*old(self), rhs), Ok::<Self, MathError>(*final(self))),
            r matches Err(e) ==> *final(self) == *old(self) && call_ensures(Self::checked_div_dec_floor, (*old(self), rhs), Err::<Self, MathError>(e)),
    {
        match Self::checked_div_dec_floor(*self, rhs) {
            Ok(v) => {
                *self = v;
                Ok(())
            },
            Err(e) => Err(e),
        }
    }

    /// Replaces the value by its quotient by the decimal `rhs`, rounded up; on an error it is left unchanged.
    fn checked_div_dec_ceil_assign(&mut self, rhs: F) -> (r: MathResult<()>)
        ensures
            r matches Ok(_) ==> call_ensures(Self::checked_div_dec_ceil, (*old(self), rhs), Ok::<Self, MathError>(*final(self))),
            r matches Err(e) ==> *final(self) == *old(self) && call_ensures(Self::checked_div_dec_ceil, (*old(self), rhs), Err::<Self, MathError>(e)),
    {
        match Self::checked_div_dec_ceil(*self, rhs) {
            Ok(v) => {
                *self = v;
                Ok(())
            },
            Err(e) => Err(e),
        }
    }
}

impl Fraction<u128> for Dec<u128, 18> {
    fn numerator(&self) -> (r: Int<u128>)
        ensures
            r == self.0,
    {
        self.0
    }

    fn denominator() -> (r: Int<u128>)
        ensures
            r.0 == pow10(18),
    {
        proof {
            lemma_pow10_18();
        }
        Int(1_000_000_000_000_000_000)
    }

    /// One divided by `self`, rounded towards zero.
    fn checked_inv(&self) -> (r: MathResult<Self>)
        ensures
            r is Ok <==> self.0.0 != 0 && u128::MIN <= tdiv(pow10(18) * pow10(18), self.0.0 as int) && tdiv(pow10(18) * pow10(18), self.0.0 as int) <= u128::MAX,
            r matches Ok(v) ==> v.0.0 == tdiv(pow10(18) * pow10(18), self.0.0 as int),
            r matches Err(e) ==> (self.0.0 == 0 ==> e is DivisionByZero) && (self.0.0 != 0 ==> e is OverflowConversion),
    {
        proof {
            lemma_pow10_18();
        }
        Self::checked_from_ratio(Int(1_000_000_000_000_000_000), self.0)
    }
}

impl MultiplyFraction<Dec<u128, 18>, u128> for Int<u128> {
    fn checked_mul_dec(self, rhs: Dec<u128, 18>) -> (r: MathResult<Self>)
        ensures
            r is Ok <==> u128::MIN <= tdiv(self.0 * rhs.0.0, pow10(18)) && tdiv(self.0 * rhs.0.0, pow10(18)) <= u128::MAX,
            r matches Ok(v) ==> v.0 == tdiv(self.0 * rhs.0.0, pow10(18)),
            r matches Err(e) ==> e is OverflowConversion,
    {
        proof {
            lemma_pow10_18();
            lemma_round_from_tdiv(self.0 * rhs.0.0, pow10(18));
        }
        if self.is_zero() || rhs.0.is_zero() {
            return Ok(Int(0));
        }
        self.checked_multiply_ratio(rhs.0, Int(1_000_000_000_000_000_000))
    }

    fn checked_mul_dec_floor(self, rhs: Dec<u128, 18>) -> (r: MathResult<Self>)
        ensures
            r is Ok <==> u128::MIN <= floor_div(self.0 * rhs.0.0, pow10(18)) && floor_div(self.0 * rhs.0.0, pow10(18)) <= u128::MAX,
            r matches Ok(v) ==> v.0 == floor_div(self.0 * rhs.0.0, pow10(18)),
            r matches Err(e) ==> e is OverflowConversion,
    {
        proof {
            lemma_pow10_18();
            lemma_round_from_tdiv(self.0 * rhs.0.0, pow10(18));
        }
        if self.is_zero() || rhs.0.is_zero() {
            return Ok(Int(0));
        }
        self.checked_multiply_ratio_floor(rhs.0, Int(1_000_000_000_000_000_000))
    }

    fn checked_mul_dec_ceil(self, rhs: Dec<u128, 18>) -> (r: MathResult<Self>)
        ensures
            r is Ok <==> u128::MIN <= ceil_div(self.0 * rhs.0.0, pow10(18)) && ceil_div(self.0 * rhs.0.0, pow10(18)) <= u128::MAX,
            r matches Ok(v) ==> v.0 == ceil_div(self.0 * rhs.0.0, pow10(18)),
            r matches Err(e) ==> e is OverflowConversion,
    {
        proof {
            lemma_pow10_18();
            lemma_round_from_tdiv(self.0 * rhs.0.0, pow10(18));
        }
        if self.is_zero() || rhs.0.is_zero() {
            return Ok(Int(0));
        }
        self.checked_multiply_ratio_ceil(rhs.0, Int(1_000_000_000_000_000_000))
    }

    fn checked_div_dec(self, rhs: Dec<u128, 18>) -> (r: MathResult<Self>)
        ensures
            r is Ok <==> rhs.0.0 != 0 && u128::MIN <= tdiv(self.0 * pow10(18), rhs.0.0 as int) && tdiv(self.0 * pow10(18), rhs.0.0 as int) <= u128::MAX,
            r matches Ok(v) ==> v.0 == tdiv(self.0 * pow10(18), rhs.0.0 as int),
            r matches Err(e) ==> (rhs.0.0 == 0 ==> e is DivisionByZero) && (rhs.0.0 != 0 ==> e is OverflowConversion),
    {
        proof {
            lemma_pow10_18();
            if rhs.0.0 != 0 {
                lemma_round_from_tdiv(self.0 * pow10(18), rhs.0.0 as int);
            }
        }
        if rhs.0.is_zero() {
            return Err(MathError::division_by_zero(self.0));
        }
        if self.is_zero() {
            return Ok(Int(0));
        }
        self.checked_multiply_ratio(Int(1_000_000_000_000_000_000), rhs.0)
    }

    fn checked_div_dec_floor(self, rhs: Dec<u128, 18>) -> (r: MathResult<Self>)
        ensures
            r is Ok <==> rhs.0.0 != 0 && u128::MIN <= floor_div(self.0 * pow10(18), rhs.0.0 as int) && floor_div(self.0 * pow10(18), rhs.0.0 as int) <= u128::MAX,
            r matches Ok(v) ==> v.0 == floor_div(self.0 * pow10(18), rhs.0.0 as int),
            r matches Err(e) ==> (rhs.0.0 == 0 ==> e is DivisionByZero) && (rhs.0.0 != 0 ==> e is OverflowConversion),
    {
        proof {
            lemma_pow10_18();
            if rhs.0.0 != 0 {
                lemma_round_from_tdiv(self.0 * pow10(18), rhs.0.0 as int);
            }
        }
        if rhs.0.is_zero() {
            return Err(MathError::division_by_zero(self.0));
        }
        if self.is_zero() {
            return Ok(Int(0));
        }
        self.checked_multiply_ratio_floor(Int(1_000_000_000_000_000_000), rhs.0)
    }

    fn checked_div_dec_ceil(self, rhs: Dec<u128, 18>) -> (r: MathResult<Self>)
        ensures
            r is Ok <==> rhs.0.0 != 0 && u128::MIN <= ceil_div(self.0 * pow10(18), rhs.0.0 as int) && ceil_div(self.0 * pow10(18), rhs.0.0 as int) <= u128::MAX,
            r matches Ok(v) ==> v.0 == ceil_div(self.0 * pow10(18), rhs.0.0 as int),
            r matches Err(e) ==> (rhs.0.0 == 0 ==> e is DivisionByZero) && (rhs.0.0 != 0 ==> e is OverflowConversion),
    {
        proof {
            lemma_pow10_18();
            if rhs.0.0 != 0 {
                lemma_round_from_tdiv(self.0 * pow10(18), rhs.0.0 as int);
            }
        }
        if rhs.0.is_zero() {
            return Err(MathError::division_by_zero(self.0));
        }
        if self.is_zero() {
            return Ok(Int(0));
        }
        self.checked_multiply_ratio_ceil(Int(1_000_000_000_000_000_000), rhs.0)
    }
}

impl MultiplyFraction<Dec<u128, 18>, u128> for Dec<u128, 18> {
    fn checked_mul_dec(self, rhs: Dec<u128, 18>) -> (r: MathResult<Self>)
        ensures
            r is Ok <==> u128::MIN <= tdiv(self.0.0 * rhs.0.0, pow10(18)) && tdiv(self.0.0 * rhs.0.0, pow10(18)) <= u128::MAX,
            r matches Ok(v) ==> v.0.0 == tdiv(self.0.0 * rhs.0.0, pow10(18)),
            r matches Err(e) ==> e is OverflowMul,
    {
        self.checked_mul(rhs)
    }

    fn checked_mul_dec_floor(self, rhs: Dec<u128, 18>) -> (r: MathResult<Self>)
        ensures
            r is Ok <==> u128::MIN <= floor_div(self.0.0 * rhs.0.0, pow10(18)) && floor_div(self.0.0 * rhs.0.0, pow10(18)) <= u128::MAX,
            r matches Ok(v) ==> v.0.0 == floor_div(self.0.0 * rhs.0.0, pow10(18)),
            r matches Err(e) ==> e is OverflowConversion,
    {
        match self.0.checked_mul_dec_floor(rhs) {
            Ok(v) => Ok(Dec(v)),
            Err(e) => Err(e),
        }
    }

    fn checked_mul_dec_ceil(self, rhs: Dec<u128, 18>) -> (r: MathResult<Self>)
        ensures
            r is Ok <==> u128::MIN <= ceil_div(self.0.0 * rhs.0.0, pow10(18)) && ceil_div(self.0.0 * rhs.0.0, pow10(18)) <= u128::MAX,
            r matches Ok(v) ==> v.0.0 == ceil_div(self.0.0 * rhs.0.0, pow10(18)),
            r matches Err(e) ==> e is OverflowConversion,
    {
        match self.0.checked_mul_dec_ceil(rhs) {
            Ok(v) => Ok(Dec(v)),
            Err(e) => Err(e),
        }
    }

    fn checked_div_dec(self, rhs: Dec<u128, 18>) -> (r: MathResult<Self>)
        ensures
            r is Ok <==> rhs.0.0 != 0 && u128::MIN <= tdiv(self.0.0 * pow10(18), rhs.0.0 as int) && tdiv(self.0.0 * pow10(18), rhs.0.0 as int) <= u128::MAX,
            r matches Ok(v) ==> v.0.0 == tdiv(self.0.0 * pow10(18), rhs.0.0 as int),
            r matches Err(e) ==> (rhs.0.0 == 0 ==> e is DivisionByZero) && (rhs.0.0 != 0 ==> e is OverflowConversion),
    {
        self.checked_div(rhs)
    }

    fn checked_div_dec_floor(self, rhs: Dec<u128, 18>) -> (r: MathResult<Self>)
        ensures
            r is Ok <==> rhs.0.0 != 0 && u128::MIN <= floor_div(self.0.0 * pow10(18), rhs.0.0 as int) && floor_div(self.0.0 * pow10(18), rhs.0.0 as int) <= u128::MAX,
            r matches Ok(v) ==> v.0.0 == floor_div(self.0.0 * pow10(18), rhs.0.0 as int),
            r matches Err(e) ==> (rhs.0.0 == 0 ==> e is DivisionByZero) && (rhs.0.0 != 0 ==> e is OverflowConversion),
    {
        proof {
            lemma_pow10_18();
        }
        match self.0.checked_multiply_ratio_floor(Int(1_000_000_000_000_000_000), rhs.0) {
            Ok(v) => Ok(Dec(v)),
            Err(e) => Err(e),
        }
    }

    fn checked_div_dec_ceil(self, rhs: Dec<u128, 18>) -> (r: MathResult<Self>)
        ensures
            r is Ok <==> rhs.0.0 != 0 && u128::MIN <= ceil_div(self.0.0 * pow10(18), rhs.0.0 as int) && ceil_div(self.0.0 * pow10(18), rhs.0.0 as int) <= u128::MAX,
            r matches Ok(v) ==> v.0.0 == ceil_div(self.0.0 * pow10(18), rhs.0.0 as int),
            r matches Err(e) ==> (rhs.0.0 == 0 ==> e is DivisionByZero) && (rhs.0.0 != 0 ==> e is OverflowConversion),
    {
        proof {
            lemma_pow10_18();
        }
        match self.0.checked_multiply_ratio_ceil(Int(1_000_000_000_000_000_000), rhs.0) {
            Ok(v) => Ok(Dec(v)),
            Err(e) => Err(e),
        }
    }
}

impl Fraction<u128> for Dec<u128, 6> {
    fn numerator(&self) -> (r: Int<u128>)
        ensures
            r == self.0,
    {
        self.0
    }

    fn denominator() -> (r: Int<u128>)
        ensures
            r.0 == pow10(6),
    {
        proof {
            lemma_pow10_6();
        }
        Int(1_000_000)
    }

    /// One divided by `self`, rounded towards zero.
    fn checked_inv(&self) -> (r: MathResult<Self>)
        ensures
            r is Ok <==> self.0.0 != 0 && u128::MIN <= tdiv(pow10(6) * pow10(6), self.0.0 as int) && tdiv(pow10(6) * pow10(6), self.0.0 as int) <= u128::MAX,
            r matches Ok(v) ==> v.0.0 == tdiv(pow10(6) * pow10(6), self.0.0 as int),
            r matches Err(e) ==> (self.0.0 == 0 ==> e is DivisionByZero) && (self.0.0 != 0 ==> e is OverflowConversion),
    {
        proof {
            lemma_pow10_6();
        }
        Self::checked_from_ratio(Int(1_000_000), self.0)
    }
}

impl MultiplyFraction<Dec<u128, 6>, u128> for Int<u128> {
    fn checked_mul_dec(self, rhs: Dec<u128, 6>) -> (r: MathResult<Self>)
        ensures
            r is Ok <==> u128::MIN <= tdiv(self.0 * rhs.0.0, pow10(6)) && tdiv(self.0 * rhs.0.0, pow10(6)) <= u128::MAX,
            r matches Ok(v) ==> v.0 == tdiv(self.0 * rhs.0.0, pow10(6)),
            r matches Err(e) ==> e is OverflowConversion,
    {
        proof {
            lemma_pow10_6();
            lemma_round_from_tdiv(self.0 * rhs.0.0, pow10(6));
        }
        if self.is_zero() || rhs.0.is_zero() {
            return Ok(Int(0));
        }
        self.checked_multiply_ratio(rhs.0, Int(1_000_000))
    }

    fn checked_mul_dec_floor(self, rhs: Dec<u128, 6>) -> (r: MathResult<Self>)
        ensures
            r is Ok <==> u128::MIN <= floor_div(self.0 * rhs.0.0, pow10(6)) && floor_div(self.0 * rhs.0.0, pow10(6)) <= u128::MAX,
            r matches Ok(v) ==> v.0 == floor_div(self.0 * rhs.0.0, pow10(6)),
            r matches Err(e) ==> e is OverflowConversion,
    {
        proof {
            lemma_pow10_6();
            lemma_round_from_tdiv(self.0 * rhs.0.0, pow10(6));
        }
        if self.is_zero() || rhs.0.is_zero() {
            return Ok(Int(0));
        }
        self.checked_multiply_ratio_floor(rhs.0, Int(1_000_000))
    }

    fn checked_mul_dec_ceil(self, rhs: Dec<u128, 6>) -> (r: MathResult<Self>)
        ensures
            r is Ok <==> u128::MIN <= ceil_div(self.0 * rhs.0.0, pow10(6)) && ceil_div(self.0 * rhs.0.0, pow10(6)) <= u128::MAX,
            r matches Ok(v) ==> v.0 == ceil_div(self.0 * rhs.0.0, pow10(6)),
            r matches Err(e) ==> e is OverflowConversion,
    {
        proof {
            lemma_pow10_6();
            lemma_round_from_tdiv(self.0 * rhs.0.0, pow10(6));
        }
        if self.is_zero() || rhs.0.is_zero() {
            return Ok(Int(0));
        }
        self.checked_multiply_ratio_ceil(rhs.0, Int(1_000_000))
    }

    fn checked_div_dec(self, rhs: Dec<u128, 6>) -> (r: MathResult<Self>)
        ensures
            r is Ok <==> rhs.0.0 != 0 && u128::MIN <= tdiv(self.0 * pow10(6), rhs.0.0 as int) && tdiv(self.0 * pow10(6), rhs.0.0 as int) <= u128::MAX,
            r matches Ok(v) ==> v.0 == tdiv(self.0 * pow10(6), rhs.0.0 as int),
            r matches Err(e) ==> (rhs.0.0 == 0 ==> e is DivisionByZero) && (rhs.0.0 != 0 ==> e is OverflowConversion),
    {
        proof {
            lemma_pow10_6();
            if rhs.0.0 != 0 {
                lemma_round_from_tdiv(self.0 * pow10(6), rhs.0.0 as int);
            }
        }
        if rhs.0.is_zero() {
            return Err(MathError::division_by_zero(self.0));
        }
        if self.is_zero() {
            return Ok(Int(0));
        }
        self.checked_multiply_ratio(Int(1_000_000), rhs.0)
    }

    fn checked_div_dec_floor(self, rhs: Dec<u128, 6>) -> (r: MathResult<Self>)
        ensures
            r is Ok <==> rhs.0.0 != 0 && u128::MIN <= floor_div(self.0 * pow10(6), rhs.0.0 as int) && floor_div(self.0 * pow10(6), rhs.0.0 as int) <= u128::MAX,
            r matches Ok(v) ==> v.0 == floor_div(self.0 * pow10(6), rhs.0.0 as int),
            r matches Err(e) ==> (rhs.0.0 == 0 ==> e is DivisionByZero) && (rhs.0.0 != 0 ==> e is OverflowConversion),
    {
        proof {
            lemma_pow10_6();
            if rhs.0.0 != 0 {
                lemma_round_from_tdiv(self.0 * pow10(6), rhs.0.0 as int);
            }
        }
        if rhs.0.is_zero() {
            return Err(MathError::division_by_zero(self.0));
        }
        if self.is_zero() {
            return Ok(Int(0));
        }
        self.checked_multiply_ratio_floor(Int(1_000_000), rhs.0)
    }

    fn checked_div_dec_ceil(self, rhs: Dec<u128, 6>) -> (r: MathResult<Self>)
        ensures
            r is Ok <==> rhs.0.0 != 0 && u128::MIN <= ceil_div(self.0 * pow10(6), rhs.0.0 as int) && ceil_div(self.0 * pow10(6), rhs.0.0 as int) <= u128::MAX,
            r matches Ok(v) ==> v.0 == ceil_div(self.0 * pow10(6), rhs.0.0 as int),
            r matches Err(e) ==> (rhs.0.0 == 0 ==> e is DivisionByZero) && (rhs.0.0 != 0 ==> e is OverflowConversion),
    {
        proof {
            lemma_pow10_6();
            if rhs.0.0 != 0 {
                lemma_round_from_tdiv(self.0 * pow10(6), rhs.0.0 as int);
            }
        }
        if rhs.0.is_zero() {
            return Err(MathError::division_by_zero(self.0));
        }
        if self.is_zero() {
            return Ok(Int(0));
        }
        self.checked_multiply_ratio_ceil(Int(1_000_000), rhs.0)
    }
}

impl MultiplyFraction<Dec<u128, 6>, u128> for Dec<u128, 6> {
    fn checked_mul_dec(self, rhs: Dec<u128, 6>) -> (r: MathResult<Self>)
        ensures
            r is Ok <==> u128::MIN <= tdiv(self.0.0 * rhs.0.0, pow10(6)) && tdiv(self.0.0 * rhs.0.0, pow10(6)) <= u128::MAX,
            r matches Ok(v) ==> v.0.0 == tdiv(self.0.0 * rhs.0.0, pow10(6)),
            r matches Err(e) ==> e is OverflowMul,
    {
        self.checked_mul(rhs)
    }

    fn checked_mul_dec_floor(self, rhs: Dec<u128, 6>) -> (r: MathResult<Self>)
        ensures
            r is Ok <==> u128::MIN <= floor_div(self.0.0 * rhs.0.0, pow10(6)) && floor_div(self.0.0 * rhs.0.0, pow10(6)) <= u128::MAX,
            r matches Ok(v) ==> v.0.0 == floor_div(self.0.0 * rhs.0.0, pow10(6)),
            r matches Err(e) ==> e is OverflowConversion,
    {
        match self.0.checked_mul_dec_floor(rhs) {
            Ok(v) => Ok(Dec(v)),
            Err(e) => Err(e),
        }
    }

    fn checked_mul_dec_ceil(self, rhs: Dec<u128, 6>) -> (r: MathResult<Self>)
        ensures
            r is Ok <==> u128::MIN <= ceil_div(self.0.0 * rhs.0.0, pow10(6)) && ceil_div(self.0.0 * rhs.0.0, pow10(6)) <= u128::MAX,
            r matches Ok(v) ==> v.0.0 == ceil_div(self.0.0 * rhs.0.0, pow10(6)),
            r matches Err(e) ==> e is OverflowConversion,
    {
        match self.0.checked_mul_dec_ceil(rhs) {
            Ok(v) => Ok(Dec(v)),
            Err(e) => Err(e),
        }
    }

    fn checked_div_dec(self, rhs: Dec<u128, 6>) -> (r: MathResult<Self>)
        ensures
            r is Ok <==> rhs.0.0 != 0 && u128::MIN <= tdiv(self.0.0 * pow10(6), rhs.0.0 as int) && tdiv(self.0.0 * pow10(6), rhs.0.0 as int) <= u128::MAX,
            r matches Ok(v) ==> v.0.0 == tdiv(self.0.0 * pow10(6), rhs.0.0 as int),
            r matches Err(e) ==> (rhs.0.0 == 0 ==> e is DivisionByZero) && (rhs.0.0 != 0 ==> e is OverflowConversion),
    {
        self.checked_div(rhs)
    }

    fn checked_div_dec_floor(self, rhs: Dec<u128, 6>) -> (r: MathResult<Self>)
        ensures
            r is Ok <==> rhs.0.0 != 0 && u128::MIN <= floor_div(self.0.0 * pow10(6), rhs.0.0 as int) && floor_div(self.0.0 * pow10(6), rhs.0.0 as int) <= u128::MAX,
            r matches Ok(v) ==> v.0.0 == floor_div(self.0.0 * pow10(6), rhs.0.0 as int),
            r matches Err(e) ==> (rhs.0.0 == 0 ==> e is DivisionByZero) && (rhs.0.0 != 0 ==> e is OverflowConversion),
    {
        proof {
            lemma_pow10_6();
        }
        match self.0.checked_multiply_ratio_floor(Int(1_000_000), rhs.0) {
            Ok(v) => Ok(Dec(v)),
            Err(e) => Err(e),
        }
    }

    fn checked_div_dec_ceil(self, rhs: Dec<u128, 6>) -> (r: MathResult<Self>)
        ensures
            r is Ok <==> rhs.0.0 != 0 && u128::MIN <= ceil_div(self.0.0 * pow10(6), rhs.0.0 as int) && ceil_div(self.0.0 * pow10(6), rhs.0.0 as int) <= u128::MAX,
            r matches Ok(v) ==> v.0.0 == ceil_div(self.0.0 * pow10(6), rhs.0.0 as int),
            r matches Err(e) ==> (rhs.0.0 == 0 ==> e is DivisionByZero) && (rhs.0.0 != 0 ==> e is OverflowConversion),
    {
        proof {
            lemma_pow10_6();
        }
        match self.0.checked_multiply_ratio_ceil(Int(1_000_000), rhs.0) {
            Ok(v) => Ok(Dec(v)),
            Err(e) => Err(e),
        }
    }
}

impl Fraction<u128> for Dec<u128, 24> {
    fn numerator(&self) -> (r: Int<u128>)
        ensures
            r == self.0,
    {
        self.0
    }

    fn denominator() -> (r: Int<u128>)
        ensures
            r.0 == pow10(24),
    {
        proof {
            lemma_pow10_24();
        }
        Int(1_000_000_000_000_000_000_000_000)
    }

    /// One divided by `self`, rounded towards zero.
    fn checked_inv(&self) -> (r: MathResult<Self>)
        ensures
            r is Ok <==> self.0.0 != 0 && u128::MIN <= tdiv(pow10(24) * pow10(24), self.0.0 as int) && tdiv(pow10(24) * pow10(24), self.0.0 as int) <= u128::MAX,
            r matches Ok(v) ==> v.0.0 == tdiv(pow10(24) * pow10(24), self.0.0 as int),
            r matches Err(e) ==> (self.0.0 == 0 ==> e is DivisionByZero) && (self.0.0 != 0 ==> e is OverflowConversion),
    {
        proof {
            lemma_pow10_24();
        }
        Self::checked_from_ratio(Int(1_000_000_000_000_000_000_000_000), self.0)
    }
}

impl MultiplyFraction<Dec<u128, 24>, u128> for Int<u128> {
    fn checked_mul_dec(self, rhs: Dec<u128, 24>) -> (r: MathResult<Self>)
        ensures
            r is Ok <==> u128::MIN <= tdiv(self.0 * rhs.0.0, pow10(24)) && tdiv(self.0 * rhs.0.0, pow10(24)) <= u128::MAX,
            r matches Ok(v) ==> v.0 == tdiv(self.0 * rhs.0.0, pow10(24)),
            r matches Err(e) ==> e is OverflowConversion,
    {
        proof {
            lemma_pow10_24();
            lemma_round_from_tdiv(self.0 * rhs.0.0, pow10(24));
        }
        if self.is_zero() || rhs.0.is_zero() {
            return Ok(Int(0));
        }
        self.checked_multiply_ratio(rhs.0, Int(1_000_000_000_000_000_000_000_000))
    }

    fn checked_mul_dec_floor(self, rhs: Dec<u128, 24>) -> (r: MathResult<Self>)
        ensures
            r is Ok <==> u128::MIN <= floor_div(self.0 * rhs.0.0, pow10(24)) && floor_div(self.0 * rhs.0.0, pow10(24)) <= u128::MAX,
            r matches Ok(v) ==> v.0 == floor_div(self.0 * rhs.0.0, pow10(24)),
            r matches Err(e) ==> e is OverflowConversion,
    {
        proof {
            lemma_pow10_24();
            lemma_round_from_tdiv(self.0 * rhs.0.0, pow10(24));
        }
        if self.is_zero() || rhs.0.is_zero() {
            return Ok(Int(0));
        }
        self.checked_multiply_ratio_floor(rhs.0, Int(1_000_000_000_000_000_000_000_000))
    }

    fn checked_mul_dec_ceil(self, rhs: Dec<u128, 24>) -> (r: MathResult<Self>)
        ensures
            r is Ok <==> u128::MIN <= ceil_div(self.0 * rhs.0.0, pow10(24)) && ceil_div(self.0 * rhs.0.0, pow10(24)) <= u128::MAX,
            r matches Ok(v) ==> v.0 == ceil_div(self.0 * rhs.0.0, pow10(24)),
            r matches Err(e) ==> e is OverflowConversion,
    {
        proof {
            lemma_pow10_24();
            lemma_round_from_tdiv(self.0 * rhs.0.0, pow10(24));
        }
        if self.is_zero() || rhs.0.is_zero() {
            return Ok(Int(0));
        }
        self.checked_multiply_ratio_ceil(rhs.0, Int(1_000_000_000_000_000_000_000_000))
    }

    fn checked_div_dec(self, rhs: Dec<u128, 24>) -> (r: MathResult<Self>)
        ensures
            r is Ok <==> rhs.0.0 != 0 && u128::MIN <= tdiv(self.0 * pow10(24), rhs.0.0 as int) && tdiv(self.0 * pow10(24), rhs.0.0 as int) <= u128::MAX,
            r matches Ok(v) ==> v.0 == tdiv(self.0 * pow10(24), rhs.0.0 as int),
            r matches Err(e) ==> (rhs.0.0 == 0 ==> e is DivisionByZero) && (rhs.0.0 != 0 ==> e is OverflowConversion),
    {
        proof {
            lemma_pow10_24();
            if rhs.0.0 != 0 {
                lemma_round_from_tdiv(self.0 * pow10(24), rhs.0.0 as int);
            }
        }
        if rhs.0.is_zero() {
            return Err(MathError::division_by_zero(self.0));
        }
        if self.is_zero() {
            return Ok(Int(0));
        }
        self.checked_multiply_ratio(Int(1_000_000_000_000_000_000_000_000), rhs.0)
    }

    fn checked_div_dec_floor(self, rhs: Dec<u128, 24>) -> (r: MathResult<Self>)
        ensures
            r is Ok <==> rhs.0.0 != 0 && u128::MIN <= floor_div(self.0 * pow10(24), rhs.0.0 as int) && floor_div(self.0 * pow10(24), rhs.0.0 as int) <= u128::MAX,
            r matches Ok(v) ==> v.0 == floor_div(self.0 * pow10(24), rhs.0.0 as int),
            r matches Err(e) ==> (rhs.0.0 == 0 ==> e is DivisionByZero) && (rhs.0.0 != 0 ==> e is OverflowConversion),
    {
        proof {
            lemma_pow10_24();
            if rhs.0.0 != 0 {
                lemma_round_from_tdiv(self.0 * pow10(24), rhs.0.0 as int);
            }
        }
        if rhs.0.is_zero() {
            return Err(MathError::division_by_zero(self.0));
        }
        if self.is_zero() {
            return Ok(Int(0));
        }
        self.checked_multiply_ratio_floor(Int(1_000_000_000_000_000_000_000_000), rhs.0)
    }

    fn checked_div_dec_ceil(self, rhs: Dec<u128, 24>) -> (r: MathResult<Self>)
        ensures
            r is Ok <==> rhs.0.0 != 0 && u128::MIN <= ceil_div(self.0 * pow10(24), rhs.0.0 as int) && ceil_div(self.0 * pow10(24), rhs.0.0 as int) <= u128::MAX,
            r matches Ok(v) ==> v.0 == ceil_div(self.0 * pow10(24), rhs.0.0 as int),
            r matches Err(e) ==> (rhs.0.0 == 0 ==> e is DivisionByZero) && (rhs.0.0 != 0 ==> e is OverflowConversion),
    {
        proof {
            lemma_pow10_24();
            if rhs.0.0 != 0 {
                lemma_round_from_tdiv(self.0 * pow10(24), rhs.0.0 as int);
            }
        }
        if rhs.0.is_zero() {
            return Err(MathError::division_by_zero(self.0));
        }
        if self.is_zero() {
            return Ok(Int(0));
        }
        self.checked_multiply_ratio_ceil(Int(1_000_000_000_000_000_000_000_000), rhs.0)
    }
}

impl MultiplyFraction<Dec<u128, 24>, u128> for Dec<u128, 24> {
    fn checked_mul_dec(self, rhs: Dec<u128, 24>) -> (r: MathResult<Self>)
        ensures
            r is Ok <==> u128::MIN <= tdiv(self.0.0 * rhs.0.0, pow10(24)) && tdiv(self.0.0 * rhs.0.0, pow10(24)) <= u128::MAX,
            r matches Ok(v) ==> v.0.0 == tdiv(self.0.0 * rhs.0.0, pow10(24)),
            r matches Err(e) ==> e is OverflowMul,
    {
        self.checked_mul(rhs)
    }

    fn checked_mul_dec_floor(self, rhs: Dec<u128, 24>) -> (r: MathResult<Self>)
        ensures
            r is Ok <==> u128::MIN <= floor_div(self.0.0 * rhs.0.0, pow10(24)) && floor_div(self.0.0 * rhs.0.0, pow10(24)) <= u128::MAX,
            r matches Ok(v) ==> v.0.0 == floor_div(self.0.0 * rhs.0.0, pow10(24)),
            r matches Err(e) ==> e is OverflowConversion,
    {
        match self.0.checked_mul_dec_floor(rhs) {
            Ok(v) => Ok(Dec(v)),
            Err(e) => Err(e),
        }
    }

    fn checked_mul_dec_ceil(self, rhs: Dec<u128, 24>) -> (r: MathResult<Self>)
        ensures
            r is Ok <==> u128::MIN <= ceil_div(self.0.0 * rhs.0.0, pow10(24)) && ceil_div(self.0.0 * rhs.0.0, pow10(24)) <= u128::MAX,
            r matches Ok(v) ==> v.0.0 == ceil_div(self.0.0 * rhs.0.0, pow10(24)),
            r matches Err(e) ==> e is OverflowConversion,
    {
        match self.0.checked_mul_dec_ceil(rhs) {
            Ok(v) => Ok(Dec(v)),
            Err(e) => Err(e),
        }
    }

    fn checked_div_dec(self, rhs: Dec<u128, 24>) -> (r: MathResult<Self>)
        ensures
            r is Ok <==> rhs.0.0 != 0 && u128::MIN <= tdiv(self.0.0 * pow10(24), rhs.0.0 as int) && tdiv(self.0.0 * pow10(24), rhs.0.0 as int) <= u128::MAX,
            r matches Ok(v) ==> v.0.0 == tdiv(self.0.0 * pow10(24), rhs.0.0 as int),
            r matches Err(e) ==> (rhs.0.0 == 0 ==> e is DivisionByZero) && (rhs.0.0 != 0 ==> e is OverflowConversion),
    {
        self.checked_div(rhs)
    }

    fn checked_div_dec_floor(self, rhs: Dec<u128, 24>) -> (r: MathResult<Self>)
        ensures
            r is Ok <==> rhs.0.0 != 0 && u128::MIN <= floor_div(self.0.0 * pow10(24), rhs.0.0 as int) && floor_div(self.0.0 * pow10(24), rhs.0.0 as int) <= u128::MAX,
            r matches Ok(v) ==> v.0.0 == floor_div(self.0.0 * pow10(24), rhs.0.0 as int),
            r matches Err(e) ==> (rhs.0.0 == 0 ==> e is DivisionByZero) && (rhs.0.0 != 0 ==> e is OverflowConversion),
    {
        proof {
            lemma_pow10_24();
        }
        match self.0.checked_multiply_ratio_floor(Int(1_000_000_000_000_000_000_000_000), rhs.0) {
            Ok(v) => Ok(Dec(v)),
            Err(e) => Err(e),
        }
    }

    fn checked_div_dec_ceil(self, rhs: Dec<u128, 24>) -> (r: MathResult<Self>)
        ensures
            r is Ok <==> rhs.0.0 != 0 && u128::MIN <= ceil_div(self.0.0 * pow10(24), rhs.0.0 as int) && ceil_div(self.0.0 * pow10(24), rhs.0.0 as int) <= u128::MAX,
            r matches Ok(v) ==> v.0.0 == ceil_div(self.0.0 * pow10(24), rhs.0.0 as int),
            r matches Err(e) ==> (rhs.0.0 == 0 ==> e is DivisionByZero) && (rhs.0.0 != 0 ==> e is OverflowConversion),
    {
        proof {
            lemma_pow10_24();
        }
        match self.0.checked_multiply_ratio_ceil(Int(1_000_000_000_000_000_000_000_000), rhs.0) {
            Ok(v) => Ok(Dec(v)),
            Err(e) => Err(e),
        }
    }
}

impl Fraction<i128> for Dec<i128, 18> {
    fn numerator(&self) -> (r: Int<i128>)
        ensures
            r == self.0,
    {
        self.0
    }

    fn denominator() -> (r: Int<i128>)
        ensures
            r.0 == pow10(18),
    {
        proof {
            lemma_pow10_18();
        }
        Int(1_000_000_000_000_000_000)
    }

    /// One divided by `self`, rounded towards zero.
    fn checked_inv(&self) -> (r: MathResult<Self>)
        ensures
            r is Ok <==> self.0.0 != 0 && i128::MIN <= tdiv(pow10(18) * pow10(18), self.0.0 as int) && tdiv(pow10(18) * pow10(18), self.0.0 as int) <= i128::MAX,
            r matches Ok(v) ==> v.0.0 == tdiv(pow10(18) * pow10(18), self.0.0 as int),
            r matches Err(e) ==> (self.0.0 == 0 ==> e is DivisionByZero) && (self.0.0 != 0 ==> e is OverflowConversion),
    {
        proof {
            lemma_pow10_18();
        }
        Self::checked_from_ratio(Int(1_000_000_000_000_000_000), self.0)
    }
}

impl MultiplyFraction<Dec<i128, 18>, i128> for Int<i128> {
    fn checked_mul_dec(self, rhs: Dec<i128, 18>) -> (r: MathResult<Self>)
        ensures
            r is Ok <==> i128::MIN <= tdiv(self.0 * rhs.0.0, pow10(18)) && tdiv(self.0 * rhs.0.0, pow10(18)) <= i128::MAX,
            r matches Ok(v) ==> v.0 == tdiv(self.0 * rhs.0.0, pow10(18)),
            r matches Err(e) ==> e is OverflowConversion,
    {
        proof {
            lemma_pow10_18();
            lemma_round_from_tdiv(self.0 * rhs.0.0, pow10(18));
        }
        if self.is_zero() || rhs.0.is_zero() {
            return Ok(Int(0));
        }
        self.checked_multiply_ratio(rhs.0, Int(1_000_000_000_000_000_000))
    }

    fn checked_mul_dec_floor(self, rhs: Dec<i128, 18>) -> (r: MathResult<Self>)
        ensures
            r is Ok <==> i128::MIN <= floor_div(self.0 * rhs.0.0, pow10(18)) && floor_div(self.0 * rhs.0.0, pow10(18)) <= i128::MAX,
            r matches Ok(v) ==> v.0 == floor_div(self.0 * rhs.0.0, pow10(18)),
            r matches Err(e) ==> e is OverflowConversion,
    {
        proof {
            lemma_pow10_18();
            lemma_round_from_tdiv(self.0 * rhs.0.0, pow10(18));
        }
        if self.is_zero() || rhs.0.is_zero() {
            return Ok(Int(0));
        }
        self.checked_multiply_ratio_floor(rhs.0, Int(1_000_000_000_000_000_000))
    }

    fn checked_mul_dec_ceil(self, rhs: Dec<i128, 18>) -> (r: MathResult<Self>)
        ensures
            r is Ok <==> i128::MIN <= ceil_div(self.0 * rhs.0.0, pow10(18)) && ceil_div(self.0 * rhs.0.0, pow10(18)) <= i128::MAX,
            r matches Ok(v) ==> v.0 == ceil_div(self.0 * rhs.0.0, pow10(18)),
            r matches Err(e) ==> e is OverflowConversion,
    {
        proof {
            lemma_pow10_18();
            lemma_round_from_tdiv(self.0 * rhs.0.0, pow10(18));
        }
        if self.is_zero() || rhs.0.is_zero() {
            return Ok(Int(0));
        }
        self.checked_multiply_ratio_ceil(rhs.0, Int(1_000_000_000_000_000_000))
    }

    fn checked_div_dec(self, rhs: Dec<i128, 18>) -> (r: MathResult<Self>)
        ensures
            r is Ok <==> rhs.0.0 != 0 && i128::MIN <= tdiv(self.0 * pow10(18), rhs.0.0 as int) && tdiv(self.0 * pow10(18), rhs.0.0 as int) <= i128::MAX,
            r matches Ok(v) ==> v.0 == tdiv(self.0 * pow10(18), rhs.0.0 as int),
            r matches Err(e) ==> (rhs.0.0 == 0 ==> e is DivisionByZero) && (rhs.0.0 != 0 ==> e is OverflowConversion),
    {
        proof {
            lemma_pow10_18();
            if rhs.0.0 != 0 {
                lemma_round_from_tdiv(self.0 * pow10(18), rhs.0.0 as int);
            }
        }
        if rhs.0.is_zero() {
            return Err(MathError::division_by_zero(self.0));
        }
        if self.is_zero() {
            return Ok(Int(0));
        }
        self.checked_multiply_ratio(Int(1_000_000_000_000_000_000), rhs.0)
    }

    fn checked_div_dec_floor(self, rhs: Dec<i128, 18>) -> (r: MathResult<Self>)
        ensures
            r is Ok <==> rhs.0.0 != 0 && i128::MIN <= floor_div(self.0 * pow10(18), rhs.0.0 as int) && floor_div(self.0 * pow10(18), rhs.0.0 as int) <= i128::MAX,
            r matches Ok(v) ==> v.0 == floor_div(self.0 * pow10(18), rhs.0.0 as int),
            r matches Err(e) ==> (rhs.0.0 == 0 ==> e is DivisionByZero) && (rhs.0.0 != 0 ==> e is OverflowConversion),
    {
        proof {
            lemma_pow10_18();
            if rhs.0.0 != 0 {
                lemma_round_from_tdiv(self.0 * pow10(18), rhs.0.0 as int);
            }
        }
        if rhs.0.is_zero() {
            return Err(MathError::division_by_zero(self.0));
        }
        if self.is_zero() {
            return Ok(Int(0));
        }
        self.checked_multiply_ratio_floor(Int(1_000_000_000_000_000_000), rhs.0)
    }

    fn checked_div_dec_ceil(self, rhs: Dec<i128, 18>) -> (r: MathResult<Self>)
        ensures
            r is Ok <==> rhs.0.0 != 0 && i128::MIN <= ceil_div(self.0 * pow10(18), rhs.0.0 as int) && ceil_div(self.0 * pow10(18), rhs.0.0 as int) <= i128::MAX,
            r matches Ok(v) ==> v.0 == ceil_div(self.0 * pow10(18), rhs.0.0 as int),
            r matches Err(e) ==> (rhs.0.0 == 0 ==> e is DivisionByZero) && (rhs.0.0 != 0 ==> e is OverflowConversion),
    {
        proof {
            lemma_pow10_18();
            if rhs.0.0 != 0 {
                lemma_round_from_tdiv(self.0 * pow10(18), rhs.0.0 as int);
            }
        }
        if rhs.0.is_zero() {
            return Err(MathError::division_by_zero(self.0));
        }
        if self.is_zero() {
            return Ok(Int(0));
        }
        self.checked_multiply_ratio_ceil(Int(1_000_000_000_000_000_000), rhs.0)
    }
}

impl MultiplyFraction<Dec<i128, 18>, i128> for Dec<i128, 18> {
    fn checked_mul_dec(self, rhs: Dec<i128, 18>) -> (r: MathResult<Self>)
        ensures
            r is Ok <==> i128::MIN <= tdiv(self.0.0 * rhs.0.0, pow10(18)) && tdiv(self.0.0 * rhs.0.0, pow10(18)) <= i128::MAX,
            r matches Ok(v) ==> v.0.0 == tdiv(self.0.0 * rhs.0.0, pow10(18)),
            r matches Err(e) ==> e is OverflowMul,
    {
        self.checked_mul(rhs)
    }

    fn checked_mul_dec_floor(self, rhs: Dec<i128, 18>) -> (r: MathResult<Self>)
        ensures
            r is Ok <==> i128::MIN <= floor_div(self.0.0 * rhs.0.0, pow10(18)) && floor_div(self.0.0 * rhs.0.0, pow10(18)) <= i128::MAX,
            r matches Ok(v) ==> v.0.0 == floor_div(self.0.0 * rhs.0.0, pow10(18)),
            r matches Err(e) ==> e is OverflowConversion,
    {
        match self.0.checked_mul_dec_floor(rhs) {
            Ok(v) => Ok(Dec(v)),
            Err(e) => Err(e),
        }
    }

    fn checked_mul_dec_ceil(self, rhs: Dec<i128, 18>) -> (r: MathResult<Self>)
        ensures
            r is Ok <==> i128::MIN <= ceil_div(self.0.0 * rhs.0.0, pow10(18)) && ceil_div(self.0.0 * rhs.0.0, pow10(18)) <= i128::MAX,
            r matches Ok(v) ==> v.0.0 == ceil_div(self.0.0 * rhs.0.0, pow10(18)),
            r matches Err(e) ==> e is OverflowConversion,
    {
        match self.0.checked_mul_dec_ceil(rhs) {
            Ok(v) => Ok(Dec(v)),
            Err(e) => Err(e),
        }
    }

    fn checked_div_dec(self, rhs: Dec<i128, 18>) -> (r: MathResult<Self>)
        ensures
            r is Ok <==> rhs.0.0 != 0 && i128::MIN <= tdiv(self.0.0 * pow10(18), rhs.0.0 as int) && tdiv(self.0.0 * pow10(18), rhs.0.0 as int) <= i128::MAX,
            r matches Ok(v) ==> v.0.0 == tdiv(self.0.0 * pow10(18), rhs.0.0 as int),
            r matches Err(e) ==> (rhs.0.0 == 0 ==> e is DivisionByZero) && (rhs.0.0 != 0 ==> e is OverflowConversion),
    {
        self.checked_div(rhs)
    }

    fn checked_div_dec_floor(self, rhs: Dec<i128, 18>) -> (r: MathResult<Self>)
        ensures
            r is Ok <==> rhs.0.0 != 0 && i128::MIN <= floor_div(self.0.0 * pow10(18), rhs.0.0 as int) && floor_div(self.0.0 * pow10(18), rhs.0.0 as int) <= i128::MAX,
            r matches Ok(v) ==> v.0.0 == floor_div(self.0.0 * pow10(18), rhs.0.0 as int),
            r matches Err(e) ==> (rhs.0.0 == 0 ==> e is DivisionByZero) && (rhs.0.0 != 0 ==> e is OverflowConversion),
    {
        proof {
            lemma_pow10_18();
        }
        match self.0.checked_multiply_ratio_floor(Int(1_000_000_000_000_000_000), rhs.0) {
            Ok(v) => Ok(Dec(v)),
            Err(e) => Err(e),
        }
    }

    fn checked_div_dec_ceil(self, rhs: Dec<i128, 18>) -> (r: MathResult<Self>)
        ensures
            r is Ok <==> rhs.0.0 != 0 && i128::MIN <= ceil_div(self.0.0 * pow10(18), rhs.0.0 as int) && ceil_div(self.0.0 * pow10(18), rhs.0.0 as int) <= i128::MAX,
            r matches Ok(v) ==> v.0.0 == ceil_div(self.0.0 * pow10(18), rhs.0.0 as int),
            r matches Err(e) ==> (rhs.0.0 == 0 ==> e is DivisionByZero) && (rhs.0.0 != 0 ==> e is OverflowConversion),
    {
        proof {
            lemma_pow10_18();
        }
        match self.0.checked_multiply_ratio_ceil(Int(1_000_000_000_000_000_000), rhs.0) {
            Ok(v) => Ok(Dec(v)),
            Err(e) => Err(e),
        }
    }
}

} // verus!
