use vstd::prelude::*;
use crate::arith::{ceil_div, floor_div, lemma_full_mul_fits, lemma_pow2_256, lemma_round_from_tdiv, lemma_tdiv_shrinks, lemma_tdiv_trem, tdiv, trem};
use crate::error::{MathError, MathResult};
use crate::int_types::Int;
use crate::next::NextNumber;
use crate::number::Number;
use crate::number_const::NumberConst;
use crate::prev::PrevNumber;
use crate::sign::Sign;
use crate::wide::{I256, U256, lemma_i256_injective, lemma_i256_range, lemma_u256_injective, lemma_u256_range};

verus! {

/// Describes operations where a number is multiplied by a numerator then
/// immediately divided by a denominator.
///
/// This is different from applying a multiplication and a division
/// sequentially, because the multiplication part can overflow.
pub trait MultiplyRatio: Sized + Copy {
    /// In case the result is non-integer, it is _truncated_; in other words,
    /// _rounded towards zero_:
    /// - positive result: `5 * 3 / 2 = 7.5 => 7`
    /// - negative result: `-5 * 3 / 2 = -7.5 => -7`
    fn checked_multiply_ratio(self, numerator: Self, denominator: Self) -> MathResult<Self>;

    /// In case the result is non-integer, it is _floored_; in other words,
    /// _rounded towards negative infinity_:
    /// - positive result: `5 * 3 / 2 = 7.5 => 7`
    /// - negative result: `-5 * 3 / 2 = -7.5 => -8`
    fn checked_multiply_ratio_floor(self, numerator: Self, denominator: Self) -> MathResult<Self>;

    /// In case the result is non-integer, it is _ceiled_; in other words,
    /// _rounded towards positive infinity_:
    /// - positive result: `5 * 3 / 2 = 7.5 => 8`
    /// - negative result: `-5 * 3 / 2 = -7.5 => -7`
    fn checked_multiply_ratio_ceil(self, numerator: Self, denominator: Self) -> MathResult<Self>;

    /// Replaces the value by `self * numerator / denominator`, rounded towards zero; on an error it is left unchanged.
    fn checked_multiply_ratio_assign(&mut self, numerator: Self, denominator: Self) -> (r: MathResult<()>)
        ensures
            r matches Ok(_) ==> call_ensures(Self::checked_multiply_ratio, (*old(self), numerator, denominator), Ok::<Self, MathError>(*final(self))),
            r matches Err(e) ==> *final(self) == *old(self) && call_ensures(Self::checked_multiply_ratio, (*old(self), numerator, denominator), Err::<Self, MathError>(e)),
    {
        match Self::checked_multiply_ratio(*self, numerator, denominator) {
            Ok(v) => {
                *self = v;
                Ok(())
            },
            Err(e) => Err(e),
        }
    }

    /// Replaces the value by `self * numerator / denominator`, rounded down; on an error it is left unchanged.
    fn checked_multiply_ratio_floor_assign(&mut self, numerator: Self, denominator: Self) -> (r: MathResult<()>)
        ensures
            r matches Ok(_) ==> call_ensures(Self::checked_multiply_ratio_floor, (*old(self), numerator, denominator), Ok::<Self, MathError>(*final(self))),
            r matches Err(e) ==> *final(self) == *old(self) && call_ensures(Self::checked_multiply_ratio_floor, (*old(self), numerator, denominator), Err::<Self, MathError>(e)),
    {
        match Self::checked_multiply_ratio_floor(*self, numerator, denominator) {
            Ok(v) => {
                *self = v;
                Ok(())
            },
            Err(e) => Err(e),
        }
    }

    /// Replaces the value by `self * numerator / denominator`, rounded up; on an error it is left unchanged.
    fn checked_multiply_ratio_ceil_assign(&mut self, numerator: Self, denominator: Self) -> (r: MathResult<()>)
        ensures
            r matches Ok(_) ==> call_ensures(Self::checked_multiply_ratio_ceil, (*old(self), numerator, denominator), Ok::<Self, MathError>(*final(self))),
            r matches Err(e) ==> *final(self) == *old(self) && call_ensures(Self::checked_multiply_ratio_ceil, (*old(self), numerator, denominator), Err::<Self, MathError>(e)),
    {
        match Self::checked_multiply_ratio_ceil(*self, numerator, denominator) {
            Ok(v) => {
                *self = v;
                Ok(())
            },
            Err(e) => Err(e),
        }
    }
}

impl MultiplyRatio for Int<u64> {
    fn checked_multiply_ratio(self, numerator: Self, denominator: Self) -> (r: MathResult<Self>)
        ensures
            r is Ok <==> denominator.0 != 0 && u64::MIN <= tdiv(self.0 * numerator.0, denominator.0 as int) && tdiv(self.0 * numerator.0, denominator.0 as int) <= u64::MAX,
            r matches Ok(v) ==> v.0 == tdiv(self.0 * numerator.0, denominator.0 as int),
            r matches Err(e) ==> (denominator.0 == 0 ==> e is DivisionByZero) && (denominator.0 != 0 ==> e is OverflowConversion),
    {
        let dividend = match self.checked_full_mul(numerator) {
            Ok(p) => p,
            Err(e) => {
                return Err(e);
            },
        };
        let den = denominator.into_next();
        proof {
            lemma_full_mul_fits(self.0 as int, numerator.0 as int, u64::MIN as int, u64::MAX as int);
            
            if denominator.0 != 0 {
                lemma_tdiv_shrinks(self.0 * numerator.0, denominator.0 as int);
                lemma_tdiv_trem(self.0 * numerator.0, denominator.0 as int);
                
                lemma_round_from_tdiv(self.0 * numerator.0, denominator.0 as int);
            }
        }
        let res = match dividend.checked_div(den) {
            Ok(q) => q,
            Err(e) => {
                return Err(e);
            },
        };
        res.checked_into_prev()
    }

    fn checked_multiply_ratio_floor(self, numerator: Self, denominator: Self) -> (r: MathResult<Self>)
        ensures
            r is Ok <==> denominator.0 != 0 && u64::MIN <= floor_div(self.0 * numerator.0, denominator.0 as int) && floor_div(self.0 * numerator.0, denominator.0 as int) <= u64::MAX,
            r matches Ok(v) ==> v.0 == floor_div(self.0 * numerator.0, denominator.0 as int),
            r matches Err(e) ==> (denominator.0 == 0 ==> e is DivisionByZero) && (denominator.0 != 0 ==> e is OverflowConversion),
    {
        let dividend = match self.checked_full_mul(numerator) {
            Ok(p) => p,
            Err(e) => {
                return Err(e);
            },
        };
        let den = denominator.into_next();
        proof {
            lemma_full_mul_fits(self.0 as int, numerator.0 as int, u64::MIN as int, u64::MAX as int);
            
            if denominator.0 != 0 {
                lemma_tdiv_shrinks(self.0 * numerator.0, denominator.0 as int);
                lemma_tdiv_trem(self.0 * numerator.0, denominator.0 as int);
                
                lemma_round_from_tdiv(self.0 * numerator.0, denominator.0 as int);
            }
        }
        let mut res = match dividend.checked_div(den) {
            Ok(q) => q,
            Err(e) => {
                return Err(e);
            },
        };
        proof {{
            assert(res.0 * den.0 == self.0 * numerator.0 - trem(self.0 * numerator.0, denominator.0 as int)) by (nonlinear_arith)
                requires
                    res.0 == tdiv(self.0 * numerator.0, denominator.0 as int),
                    den.0 == denominator.0,
                    self.0 * numerator.0 == denominator.0 * tdiv(self.0 * numerator.0, denominator.0 as int) + trem(self.0 * numerator.0, denominator.0 as int),
            ;
        }}
        let exact = match res.checked_mul(den) {
            Ok(m) => {
                proof {
                    
                }
                m == dividend
            },
            Err(e) => {
                return Err(e);
            },
        };
        if (self.is_positive() == numerator.is_positive()) != den.is_positive() && !exact {
            res = match res.checked_sub(<Int<u128> as NumberConst>::ONE()) {
                Ok(v) => v,
                Err(e) => {
                    return Err(e);
                },
            };
        }
        res.checked_into_prev()
    }

    fn checked_multiply_ratio_ceil(self, numerator: Self, denominator: Self) -> (r: MathResult<Self>)
        ensures
            r is Ok <==> denominator.0 != 0 && u64::MIN <= ceil_div(self.0 * numerator.0, denominator.0 as int) && ceil_div(self.0 * numerator.0, denominator.0 as int) <= u64::MAX,
            r matches Ok(v) ==> v.0 == ceil_div(self.0 * numerator.0, denominator.0 as int),
            r matches Err(e) ==> (denominator.0 == 0 ==> e is DivisionByZero) && (denominator.0 != 0 ==> e is OverflowConversion),
    {
        let dividend = match self.checked_full_mul(numerator) {
            Ok(p) => p,
            Err(e) => {
                return Err(e);
            },
        };
        let den = denominator.into_next();
        proof {
            lemma_full_mul_fits(self.0 as int, numerator.0 as int, u64::MIN as int, u64::MAX as int);
            
            if denominator.0 != 0 {
                lemma_tdiv_shrinks(self.0 * numerator.0, denominator.0 as int);
                lemma_tdiv_trem(self.0 * numerator.0, denominator.0 as int);
                
                lemma_round_from_tdiv(self.0 * numerator.0, denominator.0 as int);
            }
        }
        let mut res = match dividend.checked_div(den) {
            Ok(q) => q,
            Err(e) => {
                return Err(e);
            },
        };
        proof {{
            assert(res.0 * den.0 == self.0 * numerator.0 - trem(self.0 * numerator.0, denominator.0 as int)) by (nonlinear_arith)
                requires
                    res.0 == tdiv(self.0 * numerator.0, denominator.0 as int),
                    den.0 == denominator.0,
                    self.0 * numerator.0 == denominator.0 * tdiv(self.0 * numerator.0, denominator.0 as int) + trem(self.0 * numerator.0, denominator.0 as int),
            ;
        }}
        let exact = match res.checked_mul(den) {
            Ok(m) => {
                proof {
                    
                }
                m == dividend
            },
            Err(e) => {
                return Err(e);
            },
        };
        if (self.is_positive() == numerator.is_positive()) == den.is_positive() && !exact {
            res = match res.checked_add(<Int<u128> as NumberConst>::ONE()) {
                Ok(v) => v,
                Err(e) => {
                    return Err(e);
                },
            };
        }
        res.checked_into_prev()
    }

}

impl MultiplyRatio for Int<u128> {
    fn checked_multiply_ratio(self, numerator: Self, denominator: Self) -> (r: MathResult<Self>)
        ensures
            r is Ok <==> denominator.0 != 0 && u128::MIN <= tdiv(self.0 * numerator.0, denominator.0 as int) && tdiv(self.0 * numerator.0, denominator.0 as int) <= u128::MAX,
            r matches Ok(v) ==> v.0 == tdiv(self.0 * numerator.0, denominator.0 as int),
            r matches Err(e) ==> (denominator.0 == 0 ==> e is DivisionByZero) && (denominator.0 != 0 ==> e is OverflowConversion),
    {
        let dividend = match self.checked_full_mul(numerator) {
            Ok(p) => p,
            Err(e) => {
                return Err(e);
            },
        };
        let den = denominator.into_next();
        proof {
            lemma_full_mul_fits(self.0 as int, numerator.0 as int, u128::MIN as int, u128::MAX as int);
            lemma_u256_range(dividend.0);
            if denominator.0 != 0 {
                lemma_tdiv_shrinks(self.0 * numerator.0, denominator.0 as int);
                lemma_tdiv_trem(self.0 * numerator.0, denominator.0 as int);
                lemma_pow2_256();
                lemma_round_from_tdiv(self.0 * numerator.0, denominator.0 as int);
            }
        }
        let res = match dividend.checked_div(den) {
            Ok(q) => q,
            Err(e) => {
                return Err(e);
            },
        };
        res.checked_into_prev()
    }

    fn checked_multiply_ratio_floor(self, numerator: Self, denominator: Self) -> (r: MathResult<Self>)
        ensures
            r is Ok <==> denominator.0 != 0 && u128::MIN <= floor_div(self.0 * numerator.0, denominator.0 as int) && floor_div(self.0 * numerator.0, denominator.0 as int) <= u128::MAX,
            r matches Ok(v) ==> v.0 == floor_div(self.0 * numerator.0, denominator.0 as int),
            r matches Err(e) ==> (denominator.0 == 0 ==> e is DivisionByZero) && (denominator.0 != 0 ==> e is OverflowConversion),
    {
        let dividend = match self.checked_full_mul(numerator) {
            Ok(p) => p,
            Err(e) => {
                return Err(e);
            },
        };
        let den = denominator.into_next();
        proof {
            lemma_full_mul_fits(self.0 as int, numerator.0 as int, u128::MIN as int, u128::MAX as int);
            lemma_u256_range(dividend.0);
            if denominator.0 != 0 {
                lemma_tdiv_shrinks(self.0 * numerator.0, denominator.0 as int);
                lemma_tdiv_trem(self.0 * numerator.0, denominator.0 as int);
                lemma_pow2_256();
                lemma_round_from_tdiv(self.0 * numerator.0, denominator.0 as int);
            }
        }
        let mut res = match dividend.checked_div(den) {
            Ok(q) => q,
            Err(e) => {
                return Err(e);
            },
        };
        proof {{
            assert(res.0.value() * den.0.value() == self.0 * numerator.0 - trem(self.0 * numerator.0, denominator.0 as int)) by (nonlinear_arith)
                requires
                    res.0.value() == tdiv(self.0 * numerator.0, denominator.0 as int),
                    den.0.value() == denominator.0,
                    self.0 * numerator.0 == denominator.0 * tdiv(self.0 * numerator.0, denominator.0 as int) + trem(self.0 * numerator.0, denominator.0 as int),
            ;
        }}
        let exact = match res.checked_mul(den) {
            Ok(m) => {
                proof {
                    if m.0.value() == dividend.0.value() { lemma_u256_injective(m.0, dividend.0); }
                }
                m == dividend
            },
            Err(e) => {
                return Err(e);
            },
        };
        if (self.is_positive() == numerator.is_positive()) != den.is_positive() && !exact {
            res = match res.checked_sub(<Int<U256> as NumberConst>::ONE()) {
                Ok(v) => v,
                Err(e) => {
                    return Err(e);
                },
            };
        }
        res.checked_into_prev()
    }

    fn checked_multiply_ratio_ceil(self, numerator: Self, denominator: Self) -> (r: MathResult<Self>)
        ensures
            r is Ok <==> denominator.0 != 0 && u128::MIN <= ceil_div(self.0 * numerator.0, denominator.0 as int) && ceil_div(self.0 * numerator.0, denominator.0 as int) <= u128::MAX,
            r matches Ok(v) ==> v.0 == ceil_div(self.0 * numerator.0, denominator.0 as int),
            r matches Err(e) ==> (denominator.0 == 0 ==> e is DivisionByZero) && (denominator.0 != 0 ==> e is OverflowConversion),
    {
        let dividend = match self.checked_full_mul(numerator) {
            Ok(p) => p,
            Err(e) => {
                return Err(e);
            },
        };
        let den = denominator.into_next();
        proof {
            lemma_full_mul_fits(self.0 as int, numerator.0 as int, u128::MIN as int, u128::MAX as int);
            lemma_u256_range(dividend.0);
            if denominator.0 != 0 {
                lemma_tdiv_shrinks(self.0 * numerator.0, denominator.0 as int);
                lemma_tdiv_trem(self.0 * numerator.0, denominator.0 as int);
                lemma_pow2_256();
                lemma_round_from_tdiv(self.0 * numerator.0, denominator.0 as int);
            }
        }
        let mut res = match dividend.checked_div(den) {
            Ok(q) => q,
            Err(e) => {
                return Err(e);
            },
        };
        proof {{
            assert(res.0.value() * den.0.value() == self.0 * numerator.0 - trem(self.0 * numerator.0, denominator.0 as int)) by (nonlinear_arith)
                requires
                    res.0.value() == tdiv(self.0 * numerator.0, denominator.0 as int),
                    den.0.value() == denominator.0,
                    self.0 * numerator.0 == denominator.0 * tdiv(self.0 * numerator.0, denominator.0 as int) + trem(self.0 * numerator.0, denominator.0 as int),
            ;
        }}
        let exact = match res.checked_mul(den) {
            Ok(m) => {
                proof {
                    if m.0.value() == dividend.0.value() { lemma_u256_injective(m.0, dividend.0); }
                }
                m == dividend
            },
            Err(e) => {
                return Err(e);
            },
        };
        if (self.is_positive() == numerator.is_positive()) == den.is_positive() && !exact {
            res = match res.checked_add(<Int<U256> as NumberConst>::ONE()) {
                Ok(v) => v,
                Err(e) => {
                    return Err(e);
                },
            };
        }
        res.checked_into_prev()
    }

}

impl MultiplyRatio for Int<i64> {
    fn checked_multiply_ratio(self, numerator: Self, denominator: Self) -> (r: MathResult<Self>)
        ensures
            r is Ok <==> denominator.0 != 0 && i64::MIN <= tdiv(self.0 * numerator.0, denominator.0 as int) && tdiv(self.0 * numerator.0, denominator.0 as int) <= i64::MAX,
            r matches Ok(v) ==> v.0 == tdiv(self.0 * numerator.0, denominator.0 as int),
            r matches Err(e) ==> (denominator.0 == 0 ==> e is DivisionByZero) && (denominator.0 != 0 ==> e is OverflowConversion),
    {
        let dividend = match self.checked_full_mul(numerator) {
            Ok(p) => p,
            Err(e) => {
                return Err(e);
            },
        };
        let den = denominator.into_next();
        proof {
            lemma_full_mul_fits(self.0 as int, numerator.0 as int, i64::MIN as int, i64::MAX as int);
            
            if denominator.0 != 0 {
                lemma_tdiv_shrinks(self.0 * numerator.0, denominator.0 as int);
                lemma_tdiv_trem(self.0 * numerator.0, denominator.0 as int);
                
                lemma_round_from_tdiv(self.0 * numerator.0, denominator.0 as int);
            }
        }
        let res = match dividend.checked_div(den) {
            Ok(q) => q,
            Err(e) => {
                return Err(e);
            },
        };
        res.checked_into_prev()
    }

    fn checked_multiply_ratio_floor(self, numerator: Self, denominator: Self) -> (r: MathResult<Self>)
        ensures
            r is Ok <==> denominator.0 != 0 && i64::MIN <= floor_div(self.0 * numerator.0, denominator.0 as int) && floor_div(self.0 * numerator.0, denominator.0 as int) <= i64::MAX,
            r matches Ok(v) ==> v.0 == floor_div(self.0 * numerator.0, denominator.0 as int),
            r matches Err(e) ==> (denominator.0 == 0 ==> e is DivisionByZero) && (denominator.0 != 0 ==> e is OverflowConversion),
    {
        let dividend = match self.checked_full_mul(numerator) {
            Ok(p) => p,
            Err(e) => {
                return Err(e);
            },
        };
        let den = denominator.into_next();
        proof {
            lemma_full_mul_fits(self.0 as int, numerator.0 as int, i64::MIN as int, i64::MAX as int);
            
            if denominator.0 != 0 {
                lemma_tdiv_shrinks(self.0 * numerator.0, denominator.0 as int);
                lemma_tdiv_trem(self.0 * numerator.0, denominator.0 as int);
                
                lemma_round_from_tdiv(self.0 * numerator.0, denominator.0 as int);
            }
        }
        let mut res = match dividend.checked_div(den) {
            Ok(q) => q,
            Err(e) => {
                return Err(e);
            },
        };
        proof {{
            assert(res.0 * den.0 == self.0 * numerator.0 - trem(self.0 * numerator.0, denominator.0 as int)) by (nonlinear_arith)
                requires
                    res.0 == tdiv(self.0 * numerator.0, denominator.0 as int),
                    den.0 == denominator.0,
                    self.0 * numerator.0 == denominator.0 * tdiv(self.0 * numerator.0, denominator.0 as int) + trem(self.0 * numerator.0, denominator.0 as int),
            ;
        }}
        let exact = match res.checked_mul(den) {
            Ok(m) => {
                proof {
                    
                }
                m == dividend
            },
            Err(e) => {
                return Err(e);
            },
        };
        if (self.is_positive() == numerator.is_positive()) != den.is_positive() && !exact {
            res = match res.checked_sub(<Int<i128> as NumberConst>::ONE()) {
                Ok(v) => v,
                Err(e) => {
                    return Err(e);
                },
            };
        }
        res.checked_into_prev()
    }

    fn checked_multiply_ratio_ceil(self, numerator: Self, denominator: Self) -> (r: MathResult<Self>)
        ensures
            r is Ok <==> denominator.0 != 0 && i64::MIN <= ceil_div(self.0 * numerator.0, denominator.0 as int) && ceil_div(self.0 * numerator.0, denominator.0 as int) <= i64::MAX,
            r matches Ok(v) ==> v.0 == ceil_div(self.0 * numerator.0, denominator.0 as int),
            r matches Err(e) ==> (denominator.0 == 0 ==> e is DivisionByZero) && (denominator.0 != 0 ==> e is OverflowConversion),
    {
        let dividend = match self.checked_full_mul(numerator) {
            Ok(p) => p,
            Err(e) => {
                return Err(e);
            },
        };
        let den = denominator.into_next();
        proof {
            lemma_full_mul_fits(self.0 as int, numerator.0 as int, i64::MIN as int, i64::MAX as int);
            
            if denominator.0 != 0 {
                lemma_tdiv_shrinks(self.0 * numerator.0, denominator.0 as int);
                lemma_tdiv_trem(self.0 * numerator.0, denominator.0 as int);
                
                lemma_round_from_tdiv(self.0 * numerator.0, denominator.0 as int);
            }
        }
        let mut res = match dividend.checked_div(den) {
            Ok(q) => q,
            Err(e) => {
                return Err(e);
            },
        };
        proof {{
            assert(res.0 * den.0 == self.0 * numerator.0 - trem(self.0 * numerator.0, denominator.0 as int)) by (nonlinear_arith)
                requires
                    res.0 == tdiv(self.0 * numerator.0, denominator.0 as int),
                    den.0 == denominator.0,
                    self.0 * numerator.0 == denominator.0 * tdiv(self.0 * numerator.0, denominator.0 as int) + trem(self.0 * numerator.0, denominator.0 as int),
            ;
        }}
        let exact = match res.checked_mul(den) {
            Ok(m) => {
                proof {
                    
                }
                m == dividend
            },
            Err(e) => {
                return Err(e);
            },
        };
        if (self.is_positive() == numerator.is_positive()) == den.is_positive() && !exact {
            res = match res.checked_add(<Int<i128> as NumberConst>::ONE()) {
                Ok(v) => v,
                Err(e) => {
                    return Err(e);
                },
            };
        }
        res.checked_into_prev()
    }

}

impl MultiplyRatio for Int<i128> {
    fn checked_multiply_ratio(self, numerator: Self, denominator: Self) -> (r: MathResult<Self>)
        ensures
            r is Ok <==> denominator.0 != 0 && i128::MIN <= tdiv(self.0 * numerator.0, denominator.0 as int) && tdiv(self.0 * numerator.0, denominator.0 as int) <= i128::MAX,
            r matches Ok(v) ==> v.0 == tdiv(self.0 * numerator.0, denominator.0 as int),
            r matches Err(e) ==> (denominator.0 == 0 ==> e is DivisionByZero) && (denominator.0 != 0 ==> e is OverflowConversion),
    {
        let dividend = match self.checked_full_mul(numerator) {
            Ok(p) => p,
            Err(e) => {
                return Err(e);
            },
        };
        let den = denominator.into_next();
        proof {
            lemma_full_mul_fits(self.0 as int, numerator.0 as int, i128::MIN as int, i128::MAX as int);
            lemma_i256_range(dividend.0);
            if denominator.0 != 0 {
                lemma_tdiv_shrinks(self.0 * numerator.0, denominator.0 as int);
                lemma_tdiv_trem(self.0 * numerator.0, denominator.0 as int);
                lemma_pow2_256();
                lemma_round_from_tdiv(self.0 * numerator.0, denominator.0 as int);
            }
        }
        let res = match dividend.checked_div(den) {
            Ok(q) => q,
            Err(e) => {
                return Err(e);
            },
        };
        res.checked_into_prev()
    }

    fn checked_multiply_ratio_floor(self, numerator: Self, denominator: Self) -> (r: MathResult<Self>)
        ensures
            r is Ok <==> denominator.0 != 0 && i128::MIN <= floor_div(self.0 * numerator.0, denominator.0 as int) && floor_div(self.0 * numerator.0, denominator.0 as int) <= i128::MAX,
            r matches Ok(v) ==> v.0 == floor_div(self.0 * numerator.0, denominator.0 as int),
            r matches Err(e) ==> (denominator.0 == 0 ==> e is DivisionByZero) && (denominator.0 != 0 ==> e is OverflowConversion),
    {
        let dividend = match self.checked_full_mul(numerator) {
            Ok(p) => p,
            Err(e) => {
                return Err(e);
            },
        };
        let den = denominator.into_next();
        proof {
            lemma_full_mul_fits(self.0 as int, numerator.0 as int, i128::MIN as int, i128::MAX as int);
            lemma_i256_range(dividend.0);
            if denominator.0 != 0 {
                lemma_tdiv_shrinks(self.0 * numerator.0, denominator.0 as int);
                lemma_tdiv_trem(self.0 * numerator.0, denominator.0 as int);
                lemma_pow2_256();
                lemma_round_from_tdiv(self.0 * numerator.0, denominator.0 as int);
            }
        }
        let mut res = match dividend.checked_div(den) {
            Ok(q) => q,
            Err(e) => {
                return Err(e);
            },
        };
        proof {{
            assert(res.0.value() * den.0.value() == self.0 * numerator.0 - trem(self.0 * numerator.0, denominator.0 as int)) by (nonlinear_arith)
                requires
                    res.0.value() == tdiv(self.0 * numerator.0, denominator.0 as int),
                    den.0.value() == denominator.0,
                    self.0 * numerator.0 == denominator.0 * tdiv(self.0 * numerator.0, denominator.0 as int) + trem(self.0 * numerator.0, denominator.0 as int),
            ;
        }}
        let exact = match res.checked_mul(den) {
            Ok(m) => {
                proof {
                    if m.0.value() == dividend.0.value() { lemma_i256_injective(m.0, dividend.0); }
                }
                m == dividend
            },
            Err(e) => {
                return Err(e);
            },
        };
        if (self.is_positive() == numerator.is_positive()) != den.is_positive() && !exact {
            res = match res.checked_sub(<Int<I256> as NumberConst>::ONE()) {
                Ok(v) => v,
                Err(e) => {
                    return Err(e);
                },
            };
        }
        res.checked_into_prev()
    }

    fn checked_multiply_ratio_ceil(self, numerator: Self, denominator: Self) -> (r: MathResult<Self>)
        ensures
            r is Ok <==> denominator.0 != 0 && i128::MIN <= ceil_div(self.0 * numerator.0, denominator.0 as int) && ceil_div(self.0 * numerator.0, denominator.0 as int) <= i128::MAX,
            r matches Ok(v) ==> v.0 == ceil_div(self.0 * numerator.0, denominator.0 as int),
            r matches Err(e) ==> (denominator.0 == 0 ==> e is DivisionByZero) && (denominator.0 != 0 ==> e is OverflowConversion),
    {
        let dividend = match self.checked_full_mul(numerator) {
            Ok(p) => p,
            Err(e) => {
                return Err(e);
            },
        };
        let den = denominator.into_next();
        proof {
            lemma_full_mul_fits(self.0 as int, numerator.0 as int, i128::MIN as int, i128::MAX as int);
            lemma_i256_range(dividend.0);
            if denominator.0 != 0 {
                lemma_tdiv_shrinks(self.0 * numerator.0, denominator.0 as int);
                lemma_tdiv_trem(self.0 * numerator.0, denominator.0 as int);
                lemma_pow2_256();
                lemma_round_from_tdiv(self.0 * numerator.0, denominator.0 as int);
            }
        }
        let mut res = match dividend.checked_div(den) {
            Ok(q) => q,
            Err(e) => {
                return Err(e);
            },
        };
        proof {{
            assert(res.0.value() * den.0.value() == self.0 * numerator.0 - trem(self.0 * numerator.0, denominator.0 as int)) by (nonlinear_arith)
                requires
                    res.0.value() == tdiv(self.0 * numerator.0, denominator.0 as int),
                    den.0.value() == denominator.0,
                    self.0 * numerator.0 == denominator.0 * tdiv(self.0 * numerator.0, denominator.0 as int) + trem(self.0 * numerator.0, denominator.0 as int),
            ;
        }}
        let exact = match res.checked_mul(den) {
            Ok(m) => {
                proof {
                    if m.0.value() == dividend.0.value() { lemma_i256_injective(m.0, dividend.0); }
                }
                m == dividend
            },
            Err(e) => {
                return Err(e);
            },
        };
        if (self.is_positive() == numerator.is_positive()) == den.is_positive() && !exact {
            res = match res.checked_add(<Int<I256> as NumberConst>::ONE()) {
                Ok(v) => v,
                Err(e) => {
                    return Err(e);
                },
            };
        }
        res.checked_into_prev()
    }

}

} // verus!
