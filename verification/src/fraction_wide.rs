use vstd::prelude::*;
use crate::arith::{ceil_div, floor_div, lemma_pow10_18, lemma_round_from_tdiv, lemma_tdiv_trem, pow10, tdiv};
use crate::dec::Dec;
use crate::decimal::Decimal;
use crate::error::{MathError, MathResult};
use crate::fraction::{Fraction, MultiplyFraction};
use crate::int_types::Int;
use crate::is_zero::IsZero;
use crate::multiply_ratio::MultiplyRatio;
use crate::number::Number;
use crate::number_const::NumberConst;
use crate::wide::{fits_i256, fits_u256, lemma_i256_range, lemma_u256_range, I256, U256};

verus! {

impl Decimal for Dec<U256, 18> {
    /// The greatest whole number not above `self`.
    fn checked_floor(self) -> (r: MathResult<Self>)
        ensures
            r is Ok <==> fits_u256(floor_div(self.0.0.value(), pow10(18)) * pow10(18)),
            r matches Ok(v) ==> v.0.0.value() == floor_div(self.0.0.value(), pow10(18)) * pow10(18),
            r matches Err(e) ==> e is OverflowSub,
    {
        let ghost a = self.0.0.value();
        let ghost p = pow10(18);
        proof {
            lemma_pow10_18();
            lemma_tdiv_trem(a, p);
            lemma_round_from_tdiv(a, p);
            lemma_u256_range(self.0.0);
            assert((tdiv(a, p) - 1) * p == tdiv(a, p) * p - p) by (nonlinear_arith);
            assert(tdiv(a, p) * p == p * tdiv(a, p)) by (nonlinear_arith);
        }
        let precision = Int::<U256>::new_from_u128(1_000_000_000_000_000_000);
        let rem = match self.0.checked_rem(precision) {
            Ok(v) => v,
            Err(_) => {
                return Ok(self);
            },
        };
        if !rem.0.is_zero() {
            match self.0.checked_sub(rem) {
                Ok(v) => Ok(Dec(v)),
                Err(e) => Err(e),
            }
        } else {
            Ok(self)
        }
    }

    /// The least whole number not below `self`.
    fn checked_ceil(self) -> (r: MathResult<Self>)
        ensures
            r is Ok <==> fits_u256(ceil_div(self.0.0.value(), pow10(18)) * pow10(18)),
            r matches Ok(v) ==> v.0.0.value() == ceil_div(self.0.0.value(), pow10(18)) * pow10(18),
            r matches Err(e) ==> e is OverflowAdd,
    {
        let ghost a = self.0.0.value();
        let ghost p = pow10(18);
        proof {
            lemma_pow10_18();
            lemma_tdiv_trem(a, p);
            lemma_round_from_tdiv(a, p);
            lemma_u256_range(self.0.0);
            assert((tdiv(a, p) + 1) * p == tdiv(a, p) * p + p) by (nonlinear_arith);
            assert(tdiv(a, p) * p == p * tdiv(a, p)) by (nonlinear_arith);
        }
        let precision = Int::<U256>::new_from_u128(1_000_000_000_000_000_000);
        let rem = match self.0.checked_rem(precision) {
            Ok(v) => v,
            Err(_) => {
                return Ok(self);
            },
        };
        if !rem.0.is_zero() {
            let step = match precision.checked_sub(rem) {
                Ok(v) => v,
                Err(_) => {
                    return Ok(self);
                },
            };
            match self.0.checked_add(step) {
                Ok(v) => Ok(Dec(v)),
                Err(e) => Err(e),
            }
        } else {
            Ok(self)
        }
    }
}

impl Fraction<U256> for Dec<U256, 18> {
    fn numerator(&self) -> (r: Int<U256>)
        ensures
            r == self.0,
    {
        self.0
    }

    fn denominator() -> (r: Int<U256>)
        ensures
            r.0.value() == pow10(18),
    {
        proof {
            lemma_pow10_18();
        }
        Int::<U256>::new_from_u128(1_000_000_000_000_000_000)
    }

    /// One divided by `self`, rounded towards zero.
    fn checked_inv(&self) -> (r: MathResult<Self>)
        ensures
            r is Ok <==> self.0.0.value() != 0 && fits_u256(tdiv(pow10(18) * pow10(18), self.0.0.value())),
            r matches Ok(v) ==> v.0.0.value() == tdiv(pow10(18) * pow10(18), self.0.0.value()),
            r matches Err(e) ==> (self.0.0.value() == 0 ==> e is DivisionByZero) && (self.0.0.value() != 0 ==> e is OverflowConversion),
    {
        proof {
            lemma_pow10_18();
        }
        Self::checked_from_ratio(Int::<U256>::new_from_u128(1_000_000_000_000_000_000), self.0)
    }
}

impl MultiplyFraction<Dec<U256, 18>, U256> for Int<U256> {
    fn checked_mul_dec(self, rhs: Dec<U256, 18>) -> (r: MathResult<Self>)
        ensures
            r is Ok <==> fits_u256(tdiv(self.0.value() * rhs.0.0.value(), pow10(18))),
            r matches Ok(v) ==> v.0.value() == tdiv(self.0.value() * rhs.0.0.value(), pow10(18)),
            r matches Err(e) ==> e is OverflowConversion,
    {
        proof {
            lemma_pow10_18();
            lemma_round_from_tdiv(self.0.value() * rhs.0.0.value(), pow10(18));
        }
        if self.is_zero() || rhs.0.is_zero() {
            assert(self.0.value() * rhs.0.0.value() == 0) by (nonlinear_arith)
                requires
                    self.0.value() == 0 || rhs.0.0.value() == 0,
            ;
            return Ok(Int::<U256>::ZERO());
        }
        self.checked_multiply_ratio(rhs.0, Int::<U256>::new_from_u128(1_000_000_000_000_000_000))
    }

    fn checked_mul_dec_floor(self, rhs: Dec<U256, 18>) -> (r: MathResult<Self>)
        ensures
            r is Ok <==> fits_u256(floor_div(self.0.value() * rhs.0.0.value(), pow10(18))),
            r matches Ok(v) ==> v.0.value() == floor_div(self.0.value() * rhs.0.0.value(), pow10(18)),
            r matches Err(e) ==> e is OverflowConversion,
    {
        proof {
            lemma_pow10_18();
            lemma_round_from_tdiv(self.0.value() * rhs.0.0.value(), pow10(18));
        }
        if self.is_zero() || rhs.0.is_zero() {
            assert(self.0.value() * rhs.0.0.value() == 0) by (nonlinear_arith)
                requires
                    self.0.value() == 0 || rhs.0.0.value() == 0,
            ;
            return Ok(Int::<U256>::ZERO());
        }
        self.checked_multiply_ratio_floor(rhs.0, Int::<U256>::new_from_u128(1_000_000_000_000_000_000))
    }

    fn checked_mul_dec_ceil(self, rhs: Dec<U256, 18>) -> (r: MathResult<Self>)
        ensures
            r is Ok <==> fits_u256(ceil_div(self.0.value() * rhs.0.0.value(), pow10(18))),
            r matches Ok(v) ==> v.0.value() == ceil_div(self.0.value() * rhs.0.0.value(), pow10(18)),
            r matches Err(e) ==> e is OverflowConversion,
    {
        proof {
            lemma_pow10_18();
            lemma_round_from_tdiv(self.0.value() * rhs.0.0.value(), pow10(18));
        }
        if self.is_zero() || rhs.0.is_zero() {
            assert(self.0.value() * rhs.0.0.value() == 0) by (nonlinear_arith)
                requires
                    self.0.value() == 0 || rhs.0.0.value() == 0,
            ;
            return Ok(Int::<U256>::ZERO());
        }
        self.checked_multiply_ratio_ceil(rhs.0, Int::<U256>::new_from_u128(1_000_000_000_000_000_000))
    }

    fn checked_div_dec(self, rhs: Dec<U256, 18>) -> (r: MathResult<Self>)
        ensures
            r is Ok <==> rhs.0.0.value() != 0 && fits_u256(tdiv(self.0.value() * pow10(18), rhs.0.0.value())),
            r matches Ok(v) ==> v.0.value() == tdiv(self.0.value() * pow10(18), rhs.0.0.value()),
            r matches Err(e) ==> (rhs.0.0.value() == 0 ==> e is DivisionByZero) && (rhs.0.0.value() != 0 ==> e is OverflowConversion),
    {
        proof {
            lemma_pow10_18();
            if rhs.0.0.value() != 0 {
                lemma_round_from_tdiv(self.0.value() * pow10(18), rhs.0.0.value());
            }
        }
        if rhs.0.is_zero() {
            return Err(MathError::division_by_zero(self.0));
        }
        if self.is_zero() {
            return Ok(Int::<U256>::ZERO());
        }
        self.checked_multiply_ratio(Int::<U256>::new_from_u128(1_000_000_000_000_000_000), rhs.0)
    }

    fn checked_div_dec_floor(self, rhs: Dec<U256, 18>) -> (r: MathResult<Self>)
        ensures
            r is Ok <==> rhs.0.0.value() != 0 && fits_u256(floor_div(self.0.value() * pow10(18), rhs.0.0.value())),
            r matches Ok(v) ==> v.0.value() == floor_div(self.0.value() * pow10(18), rhs.0.0.value()),
            r matches Err(e) ==> (rhs.0.0.value() == 0 ==> e is DivisionByZero) && (rhs.0.0.value() != 0 ==> e is OverflowConversion),
    {
        proof {
            lemma_pow10_18();
            if rhs.0.0.value() != 0 {
                lemma_round_from_tdiv(self.0.value() * pow10(18), rhs.0.0.value());
            }
        }
        if rhs.0.is_zero() {
            return Err(MathError::division_by_zero(self.0));
        }
        if self.is_zero() {
            return Ok(Int::<U256>::ZERO());
        }
        self.checked_multiply_ratio_floor(Int::<U256>::new_from_u128(1_000_000_000_000_000_000), rhs.0)
    }

    fn checked_div_dec_ceil(self, rhs: Dec<U256, 18>) -> (r: MathResult<Self>)
        ensures
            r is Ok <==> rhs.0.0.value() != 0 && fits_u256(ceil_div(self.0.value() * pow10(18), rhs.0.0.value())),
            r matches Ok(v) ==> v.0.value() == ceil_div(self.0.value() * pow10(18), rhs.0.0.value()),
            r matches Err(e) ==> (rhs.0.0.value() == 0 ==> e is DivisionByZero) && (rhs.0.0.value() != 0 ==> e is OverflowConversion),
    {
        proof {
            lemma_pow10_18();
            if rhs.0.0.value() != 0 {
                lemma_round_from_tdiv(self.0.value() * pow10(18), rhs.0.0.value());
            }
        }
        if rhs.0.is_zero() {
            return Err(MathError::division_by_zero(self.0));
        }
        if self.is_zero() {
            return Ok(Int::<U256>::ZERO());
        }
        self.checked_multiply_ratio_ceil(Int::<U256>::new_from_u128(1_000_000_000_000_000_000), rhs.0)
    }
}

impl MultiplyFraction<Dec<U256, 18>, U256> for Dec<U256, 18> {
    fn checked_mul_dec(self, rhs: Dec<U256, 18>) -> (r: MathResult<Self>)
        ensures
            r is Ok <==> fits_u256(tdiv(self.0.0.value() * rhs.0.0.value(), pow10(18))),
            r matches Ok(v) ==> v.0.0.value() == tdiv(self.0.0.value() * rhs.0.0.value(), pow10(18)),
            r matches Err(e) ==> e is OverflowMul,
    {
        self.checked_mul(rhs)
    }

    fn checked_mul_dec_floor(self, rhs: Dec<U256, 18>) -> (r: MathResult<Self>)
        ensures
            r is Ok <==> fits_u256(floor_div(self.0.0.value() * rhs.0.0.value(), pow10(18))),
            r matches Ok(v) ==> v.0.0.value() == floor_div(self.0.0.value() * rhs.0.0.value(), pow10(18)),
            r matches Err(e) ==> e is OverflowConversion,
    {
        match self.0.checked_mul_dec_floor(rhs) {
            Ok(v) => Ok(Dec(v)),
            Err(e) => Err(e),
        }
    }

    fn checked_mul_dec_ceil(self, rhs: Dec<U256, 18>) -> (r: MathResult<Self>)
        ensures
            r is Ok <==> fits_u256(ceil_div(self.0.0.value() * rhs.0.0.value(), pow10(18))),
            r matches Ok(v) ==> v.0.0.value() == ceil_div(self.0.0.value() * rhs.0.0.value(), pow10(18)),
            r matches Err(e) ==> e is OverflowConversion,
    {
        match self.0.checked_mul_dec_ceil(rhs) {
            Ok(v) => Ok(Dec(v)),
            Err(e) => Err(e),
        }
    }

    fn checked_div_dec(self, rhs: Dec<U256, 18>) -> (r: MathResult<Self>)
        ensures
            r is Ok <==> rhs.0.0.value() != 0 && fits_u256(tdiv(self.0.0.value() * pow10(18), rhs.0.0.value())),
            r matches Ok(v) ==> v.0.0.value() == tdiv(self.0.0.value() * pow10(18), rhs.0.0.value()),
            r matches Err(e) ==> (rhs.0.0.value() == 0 ==> e is DivisionByZero) && (rhs.0.0.value() != 0 ==> e is OverflowConversion),
    {
        self.checked_div(rhs)
    }

    fn checked_div_dec_floor(self, rhs: Dec<U256, 18>) -> (r: MathResult<Self>)
        ensures
            r is Ok <==> rhs.0.0.value() != 0 && fits_u256(floor_div(self.0.0.value() * pow10(18), rhs.0.0.value())),
            r matches Ok(v) ==> v.0.0.value() == floor_div(self.0.0.value() * pow10(18), rhs.0.0.value()),
            r matches Err(e) ==> (rhs.0.0.value() == 0 ==> e is DivisionByZero) && (rhs.0.0.value() != 0 ==> e is OverflowConversion),
    {
        proof {
            lemma_pow10_18();
        }
        match self.0.checked_multiply_ratio_floor(Int::<U256>::new_from_u128(1_000_000_000_000_000_000), rhs.0) {
            Ok(v) => Ok(Dec(v)),
            Err(e) => Err(e),
        }
    }

    fn checked_div_dec_ceil(self, rhs: Dec<U256, 18>) -> (r: MathResult<Self>)
        ensures
            r is Ok <==> rhs.0.0.value() != 0 && fits_u256(ceil_div(self.0.0.value() * pow10(18), rhs.0.0.value())),
            r matches Ok(v) ==> v.0.0.value() == ceil_div(self.0.0.value() * pow10(18), rhs.0.0.value()),
            r matches Err(e) ==> (rhs.0.0.value() == 0 ==> e is DivisionByZero) && (rhs.0.0.value() != 0 ==> e is OverflowConversion),
    {
        proof {
            lemma_pow10_18();
        }
        match self.0.checked_multiply_ratio_ceil(Int::<U256>::new_from_u128(1_000_000_000_000_000_000), rhs.0) {
            Ok(v) => Ok(Dec(v)),
            Err(e) => Err(e),
        }
    }
}

impl Decimal for Dec<I256, 18> {
    /// The greatest whole number not above `self`.
    fn checked_floor(self) -> (r: MathResult<Self>)
        ensures
            r is Ok <==> fits_i256(floor_div(self.0.0.value(), pow10(18)) * pow10(18)),
            r matches Ok(v) ==> v.0.0.value() == floor_div(self.0.0.value(), pow10(18)) * pow10(18),
            r matches Err(e) ==> e is OverflowSub,
    {
        let ghost a = self.0.0.value();
        let ghost p = pow10(18);
        proof {
            lemma_pow10_18();
            lemma_tdiv_trem(a, p);
            lemma_round_from_tdiv(a, p);
            lemma_i256_range(self.0.0);
            assert((tdiv(a, p) - 1) * p == tdiv(a, p) * p - p) by (nonlinear_arith);
            assert(tdiv(a, p) * p == p * tdiv(a, p)) by (nonlinear_arith);
        }
        let precision = Int::<I256>::new_from_i128(1_000_000_000_000_000_000);
        let rem = match self.0.checked_rem(precision) {
            Ok(v) => v,
            Err(_) => {
                return Ok(self);
            },
        };
        if rem.0.is_negative() {
            let step = match precision.checked_add(rem) {
                Ok(v) => v,
                Err(_) => {
                    return Ok(self);
                },
            };
            match self.0.checked_sub(step) {
                Ok(v) => Ok(Dec(v)),
                Err(e) => Err(e),
            }
        } else if rem.0.is_positive() {
            match self.0.checked_sub(rem) {
                Ok(v) => Ok(Dec(v)),
                Err(e) => Err(e),
            }
        } else {
            Ok(self)
        }
    }

    /// The least whole number not below `self`.
    fn checked_ceil(self) -> (r: MathResult<Self>)
        ensures
            r is Ok <==> fits_i256(ceil_div(self.0.0.value(), pow10(18)) * pow10(18)),
            r matches Ok(v) ==> v.0.0.value() == ceil_div(self.0.0.value(), pow10(18)) * pow10(18),
            r matches Err(e) ==> e is OverflowAdd,
    {
        let ghost a = self.0.0.value();
        let ghost p = pow10(18);
        proof {
            lemma_pow10_18();
            lemma_tdiv_trem(a, p);
            lemma_round_from_tdiv(a, p);
            lemma_i256_range(self.0.0);
            assert((tdiv(a, p) + 1) * p == tdiv(a, p) * p + p) by (nonlinear_arith);
            assert(tdiv(a, p) * p == p * tdiv(a, p)) by (nonlinear_arith);
        }
        let precision = Int::<I256>::new_from_i128(1_000_000_000_000_000_000);
        let rem = match self.0.checked_rem(precision) {
            Ok(v) => v,
            Err(_) => {
                return Ok(self);
            },
        };
        if rem.0.is_negative() {
            match self.0.checked_sub(rem) {
                Ok(v) => Ok(Dec(v)),
                Err(_) => Ok(self),
            }
        } else if rem.0.is_positive() {
            let step = match precision.checked_sub(rem) {
                Ok(v) => v,
                Err(_) => {
                    return Ok(self);
                },
            };
            match self.0.checked_add(step) {
                Ok(v) => Ok(Dec(v)),
                Err(e) => Err(e),
            }
        } else {
            Ok(self)
        }
    }
}

impl Fraction<I256> for Dec<I256, 18> {
    fn numerator(&self) -> (r: Int<I256>)
        ensures
            r == self.0,
    {
        self.0
    }

    fn denominator() -> (r: Int<I256>)
        ensures
            r.0.value() == pow10(18),
    {
        proof {
            lemma_pow10_18();
        }
        Int::<I256>::new_from_i128(1_000_000_000_000_000_000)
    }

    /// One divided by `self`, rounded towards zero.
    fn checked_inv(&self) -> (r: MathResult<Self>)
        ensures
            r is Ok <==> self.0.0.value() != 0 && fits_i256(tdiv(pow10(18) * pow10(18), self.0.0.value())),
            r matches Ok(v) ==> v.0.0.value() == tdiv(pow10(18) * pow10(18), self.0.0.value()),
            r matches Err(e) ==> (self.0.0.value() == 0 ==> e is DivisionByZero) && (self.0.0.value() != 0 ==> e is OverflowConversion),
    {
        proof {
            lemma_pow10_18();
        }
        Self::checked_from_ratio(Int::<I256>::new_from_i128(1_000_000_000_000_000_000), self.0)
    }
}

impl MultiplyFraction<Dec<I256, 18>, I256> for Int<I256> {
    fn checked_mul_dec(self, rhs: Dec<I256, 18>) -> (r: MathResult<Self>)
        ensures
            r is Ok <==> fits_i256(tdiv(self.0.value() * rhs.0.0.value(), pow10(18))),
            r matches Ok(v) ==> v.0.value() == tdiv(self.0.value() * rhs.0.0.value(), pow10(18)),
            r matches Err(e) ==> e is OverflowConversion,
    {
        proof {
            lemma_pow10_18();
            lemma_round_from_tdiv(self.0.value() * rhs.0.0.value(), pow10(18));
        }
        if self.is_zero() || rhs.0.is_zero() {
            assert(self.0.value() * rhs.0.0.value() == 0) by (nonlinear_arith)
                requires
                    self.0.value() == 0 || rhs.0.0.value() == 0,
            ;
            return Ok(Int::<I256>::ZERO());
        }
        self.checked_multiply_ratio(rhs.0, Int::<I256>::new_from_i128(1_000_000_000_000_000_000))
    }

    fn checked_mul_dec_floor(self, rhs: Dec<I256, 18>) -> (r: MathResult<Self>)
        ensures
            r is Ok <==> fits_i256(floor_div(self.0.value() * rhs.0.0.value(), pow10(18))),
            r matches Ok(v) ==> v.0.value() == floor_div(self.0.value() * rhs.0.0.value(), pow10(18)),
            r matches Err(e) ==> e is OverflowConversion,
    {
        proof {
            lemma_pow10_18();
            lemma_round_from_tdiv(self.0.value() * rhs.0.0.value(), pow10(18));
        }
        if self.is_zero() || rhs.0.is_zero() {
            assert(self.0.value() * rhs.0.0.value() == 0) by (nonlinear_arith)
                requires
                    self.0.value() == 0 || rhs.0.0.value() == 0,
            ;
            return Ok(Int::<I256>::ZERO());
        }
        self.checked_multiply_ratio_floor(rhs.0, Int::<I256>::new_from_i128(1_000_000_000_000_000_000))
    }

    fn checked_mul_dec_ceil(self, rhs: Dec<I256, 18>) -> (r: MathResult<Self>)
        ensures
            r is Ok <==> fits_i256(ceil_div(self.0.value() * rhs.0.0.value(), pow10(18))),
            r matches Ok(v) ==> v.0.value() == ceil_div(self.0.value() * rhs.0.0.value(), pow10(18)),
            r matches Err(e) ==> e is OverflowConversion,
    {
        proof {
            lemma_pow10_18();
            lemma_round_from_tdiv(self.0.value() * rhs.0.0.value(), pow10(18));
        }
        if self.is_zero() || rhs.0.is_zero() {
            assert(self.0.value() * rhs.0.0.value() == 0) by (nonlinear_arith)
                requires
                    self.0.value() == 0 || rhs.0.0.value() == 0,
            ;
            return Ok(Int::<I256>::ZERO());
        }
        self.checked_multiply_ratio_ceil(rhs.0, Int::<I256>::new_from_i128(1_000_000_000_000_000_000))
    }

    fn checked_div_dec(self, rhs: Dec<I256, 18>) -> (r: MathResult<Self>)
        ensures
            r is Ok <==> rhs.0.0.value() != 0 && fits_i256(tdiv(self.0.value() * pow10(18), rhs.0.0.value())),
            r matches Ok(v) ==> v.0.value() == tdiv(self.0.value() * pow10(18), rhs.0.0.value()),
            r matches Err(e) ==> (rhs.0.0.value() == 0 ==> e is DivisionByZero) && (rhs.0.0.value() != 0 ==> e is OverflowConversion),
    {
        proof {
            lemma_pow10_18();
            if rhs.0.0.value() != 0 {
                lemma_round_from_tdiv(self.0.value() * pow10(18), rhs.0.0.value());
            }
        }
        if rhs.0.is_zero() {
            return Err(MathError::division_by_zero(self.0));
        }
        if self.is_zero() {
            return Ok(Int::<I256>::ZERO());
        }
        self.checked_multiply_ratio(Int::<I256>::new_from_i128(1_000_000_000_000_000_000), rhs.0)
    }

    fn checked_div_dec_floor(self, rhs: Dec<I256, 18>) -> (r: MathResult<Self>)
        ensures
            r is Ok <==> rhs.0.0.value() != 0 && fits_i256(floor_div(self.0.value() * pow10(18), rhs.0.0.value())),
            r matches Ok(v) ==> v.0.value() == floor_div(self.0.value() * pow10(18), rhs.0.0.value()),
            r matches Err(e) ==> (rhs.0.0.value() == 0 ==> e is DivisionByZero) && (rhs.0.0.value() != 0 ==> e is OverflowConversion),
    {
        proof {
            lemma_pow10_18();
            if rhs.0.0.value() != 0 {
                lemma_round_from_tdiv(self.0.value() * pow10(18), rhs.0.0.value());
            }
        }
        if rhs.0.is_zero() {
            return Err(MathError::division_by_zero(self.0));
        }
        if self.is_zero() {
            return Ok(Int::<I256>::ZERO());
        }
        self.checked_multiply_ratio_floor(Int::<I256>::new_from_i128(1_000_000_000_000_000_000), rhs.0)
    }

    fn checked_div_dec_ceil(self, rhs: Dec<I256, 18>) -> (r: MathResult<Self>)
        ensures
            r is Ok <==> rhs.0.0.value() != 0 && fits_i256(ceil_div(self.0.value() * pow10(18), rhs.0.0.value())),
            r matches Ok(v) ==> v.0.value() == ceil_div(self.0.value() * pow10(18), rhs.0.0.value()),
            r matches Err(e) ==> (rhs.0.0.value() == 0 ==> e is DivisionByZero) && (rhs.0.0.value() != 0 ==> e is OverflowConversion),
    {
        proof {
            lemma_pow10_18();
            if rhs.0.0.value() != 0 {
                lemma_round_from_tdiv(self.0.value() * pow10(18), rhs.0.0.value());
            }
        }
        if rhs.0.is_zero() {
            return Err(MathError::division_by_zero(self.0));
        }
        if self.is_zero() {
            return Ok(Int::<I256>::ZERO());
        }
        self.checked_multiply_ratio_ceil(Int::<I256>::new_from_i128(1_000_000_000_000_000_000), rhs.0)
    }
}

impl MultiplyFraction<Dec<I256, 18>, I256> for Dec<I256, 18> {
    fn checked_mul_dec(self, rhs: Dec<I256, 18>) -> (r: MathResult<Self>)
        ensures
            r is Ok <==> fits_i256(tdiv(self.0.0.value() * rhs.0.0.value(), pow10(18))),
            r matches Ok(v) ==> v.0.0.value() == tdiv(self.0.0.value() * rhs.0.0.value(), pow10(18)),
            r matches Err(e) ==> e is OverflowMul,
    {
        self.checked_mul(rhs)
    }

    fn checked_mul_dec_floor(self, rhs: Dec<I256, 18>) -> (r: MathResult<Self>)
        ensures
            r is Ok <==> fits_i256(floor_div(self.0.0.value() * rhs.0.0.value(), pow10(18))),
            r matches Ok(v) ==> v.0.0.value() == floor_div(self.0.0.value() * rhs.0.0.value(), pow10(18)),
            r matches Err(e) ==> e is OverflowConversion,
    {
        match self.0.checked_mul_dec_floor(rhs) {
            Ok(v) => Ok(Dec(v)),
            Err(e) => Err(e),
        }
    }

    fn checked_mul_dec_ceil(self, rhs: Dec<I256, 18>) -> (r: MathResult<Self>)
        ensures
            r is Ok <==> fits_i256(ceil_div(self.0.0.value() * rhs.0.0.value(), pow10(18))),
            r matches Ok(v) ==> v.0.0.value() == ceil_div(self.0.0.value() * rhs.0.0.value(), pow10(18)),
            r matches Err(e) ==> e is OverflowConversion,
    {
        match self.0.checked_mul_dec_ceil(rhs) {
            Ok(v) => Ok(Dec(v)),
            Err(e) => Err(e),
        }
    }

    fn checked_div_dec(self, rhs: Dec<I256, 18>) -> (r: MathResult<Self>)
        ensures
            r is Ok <==> rhs.0.0.value() != 0 && fits_i256(tdiv(self.0.0.value() * pow10(18), rhs.0.0.value())),
            r matches Ok(v) ==> v.0.0.value() == tdiv(self.0.0.value() * pow10(18), rhs.0.0.value()),
            r matches Err(e) ==> (rhs.0.0.value() == 0 ==> e is DivisionByZero) && (rhs.0.0.value() != 0 ==> e is OverflowConversion),
    {
        self.checked_div(rhs)
    }

    fn checked_div_dec_floor(self, rhs: Dec<I256, 18>) -> (r: MathResult<Self>)
        ensures
            r is Ok <==> rhs.0.0.value() != 0 && fits_i256(floor_div(self.0.0.value() * pow10(18), rhs.0.0.value())),
            r matches Ok(v) ==> v.0.0.value() == floor_div(self.0.0.value() * pow10(18), rhs.0.0.value()),
            r matches Err(e) ==> (rhs.0.0.value() == 0 ==> e is DivisionByZero) && (rhs.0.0.value() != 0 ==> e is OverflowConversion),
    {
        proof {
            lemma_pow10_18();
        }
        match self.0.checked_multiply_ratio_floor(Int::<I256>::new_from_i128(1_000_000_000_000_000_000), rhs.0) {
            Ok(v) => Ok(Dec(v)),
            Err(e) => Err(e),
        }
    }

    fn checked_div_dec_ceil(self, rhs: Dec<I256, 18>) -> (r: MathResult<Self>)
        ensures
            r is Ok <==> rhs.0.0.value() != 0 && fits_i256(ceil_div(self.0.0.value() * pow10(18), rhs.0.0.value())),
            r matches Ok(v) ==> v.0.0.value() == ceil_div(self.0.0.value() * pow10(18), rhs.0.0.value()),
            r matches Err(e) ==> (rhs.0.0.value() == 0 ==> e is DivisionByZero) && (rhs.0.0.value() != 0 ==> e is OverflowConversion),
    {
        proof {
            lemma_pow10_18();
        }
        match self.0.checked_multiply_ratio_ceil(Int::<I256>::new_from_i128(1_000_000_000_000_000_000), rhs.0) {
            Ok(v) => Ok(Dec(v)),
            Err(e) => Err(e),
        }
    }
}

} // verus!
