use vstd::prelude::*;
use crate::arith::{ceil_div, floor_div, lemma_round_from_tdiv, lemma_tdiv_shrinks, lemma_tdiv_trem, tdiv, trem};
use crate::error::{MathError, MathResult};
use crate::int_types::Int;
use crate::multiply_ratio::MultiplyRatio;
use crate::wide::{fits_i256, fits_u256, lemma_i256_range, lemma_u256_range, I256, U256};
use crate::wide512::{
    b256, i512_checked_add, i512_checked_div, i512_checked_mul, i512_checked_rem, i512_checked_sub, i512_text,
    u512_checked_add, u512_checked_div, u512_checked_mul, u512_checked_rem, u512_text, I512, U512,
};

verus! {

/// How a ratio is rounded.
enum Rounding {
    TowardsZero,
    Down,
    Up,
}

/// The ratio `a * n / d` of 256-bit unsigned numbers, rounded as asked, when
/// `d` is not zero and the result fits.
fn u256_ratio(a: U256, n: U256, d: U256, rounding: Rounding) -> (r: MathResult<U256>)
    ensures
        r is Ok <==> d.value() != 0 && fits_u256(match rounding {
            Rounding::TowardsZero => tdiv(a.value() * n.value(), d.value()),
            Rounding::Down => floor_div(a.value() * n.value(), d.value()),
            Rounding::Up => ceil_div(a.value() * n.value(), d.value()),
        }),
        r matches Ok(v) ==> v.value() == (match rounding {
            Rounding::TowardsZero => tdiv(a.value() * n.value(), d.value()),
            Rounding::Down => floor_div(a.value() * n.value(), d.value()),
            Rounding::Up => ceil_div(a.value() * n.value(), d.value()),
        }),
        r matches Err(e) ==> (d.value() == 0 ==> e is DivisionByZero) && (d.value() != 0 ==> e is OverflowConversion),
{
    proof {
        lemma_u256_range(a);
        lemma_u256_range(n);
        lemma_u256_range(d);
        assert(0 <= a.value() * n.value() < b256() * b256()) by (nonlinear_arith)
            requires 0 <= a.value() < b256(), 0 <= n.value() < b256();
    }
    let x = U512::from_u256(a);
    let y = U512::from_u256(n);
    let z = U512::from_u256(d);
    let product = match u512_checked_mul(x, y) {
        Some(p) => p,
        None => {
            return Err(MathError::overflow_mul(a, n));
        },
    };
    let ghost p = product.value();
    let q = match u512_checked_div(product, z) {
        Some(q) => q,
        None => {
            return Err(MathError::division_by_zero(product));
        },
    };
    proof {
        lemma_tdiv_trem(p, d.value());
        lemma_round_from_tdiv(p, d.value());
        lemma_tdiv_shrinks(p, d.value());
        assert(tdiv(p, d.value()) == p / d.value());
        assert(trem(p, d.value()) == p % d.value());
    }
    let q = match rounding {
        Rounding::Up => {
            let rem = match u512_checked_rem(product, z) {
                Some(m) => m,
                None => {
                    return Err(MathError::division_by_zero(product));
                },
            };
            if rem.lo.is_zero() && rem.hi.is_zero() {
                q
            } else {
                proof {
                    assert(rem.value() != 0) by (nonlinear_arith)
                        requires rem.value() == rem.lo.value() + rem.hi.value() * b256(), rem.lo.value() > 0 || rem.hi.value() > 0,
                            rem.lo.value() >= 0, rem.hi.value() >= 0;
                }
                match u512_checked_add(q, U512::one()) {
                    Some(v) => v,
                    None => {
                        return Err(MathError::overflow_add(q, U512::one()));
                    },
                }
            }
        },
        _ => q,
    };
    match q.checked_into_u256() {
        Some(v) => Ok(v),
        None => Err(MathError::overflow_conversion::<U512, U256>(q)),
    }
}

/// The ratio `a * n / d` of 256-bit signed numbers, rounded as asked, when
/// `d` is not zero and the result fits.
fn i256_ratio(a: I256, n: I256, d: I256, rounding: Rounding) -> (r: MathResult<I256>)
    ensures
        r is Ok <==> d.value() != 0 && fits_i256(match rounding {
            Rounding::TowardsZero => tdiv(a.value() * n.value(), d.value()),
            Rounding::Down => floor_div(a.value() * n.value(), d.value()),
            Rounding::Up => ceil_div(a.value() * n.value(), d.value()),
        }),
        r matches Ok(v) ==> v.value() == (match rounding {
            Rounding::TowardsZero => tdiv(a.value() * n.value(), d.value()),
            Rounding::Down => floor_div(a.value() * n.value(), d.value()),
            Rounding::Up => ceil_div(a.value() * n.value(), d.value()),
        }),
        r matches Err(e) ==> (d.value() == 0 ==> e is DivisionByZero) && (d.value() != 0 ==> e is OverflowConversion),
{
    proof {
        lemma_i256_range(a);
        lemma_i256_range(n);
        lemma_i256_range(d);
        let h = b256() / 2;
        assert(-(b256() * b256() / 4) <= a.value() * n.value() <= b256() * b256() / 4) by (nonlinear_arith)
            requires -h <= a.value() < h, -h <= n.value() < h, h * 2 == b256(), h > 0;
    }
    let x = I512::from_i256(a);
    let y = I512::from_i256(n);
    let z = I512::from_i256(d);
    let product = match i512_checked_mul(x, y) {
        Some(p) => p,
        None => {
            return Err(MathError::overflow_mul(a, n));
        },
    };
    let ghost p = product.value();
    let q = match i512_checked_div(product, z) {
        Some(q) => q,
        None => {
            return Err(MathError::division_by_zero(product));
        },
    };
    proof {
        lemma_tdiv_trem(p, d.value());
        lemma_round_from_tdiv(p, d.value());
        lemma_tdiv_shrinks(p, d.value());
    }
    let q = match rounding {
        Rounding::TowardsZero => q,
        _ => {
            let rem = match i512_checked_rem(product, z) {
                Some(m) => m,
                None => {
                    return Err(MathError::division_by_zero(product));
                },
            };
            let same_sign = product.is_negative() == z.is_negative();
            let up = match rounding {
                Rounding::Up => true,
                _ => false,
            };
            if rem.is_zero() || same_sign != up {
                q
            } else if up {
                match i512_checked_add(q, I512::one()) {
                    Some(v) => v,
                    None => {
                        return Err(MathError::overflow_add(q, I512::one()));
                    },
                }
            } else {
                match i512_checked_sub(q, I512::one()) {
                    Some(v) => v,
                    None => {
                        return Err(MathError::overflow_sub(q, I512::one()));
                    },
                }
            }
        },
    };
    match q.checked_into_i256() {
        Some(v) => Ok(v),
        None => Err(MathError::overflow_conversion::<I512, I256>(q)),
    }
}

impl MultiplyRatio for Int<U256> {
    fn checked_multiply_ratio(self, numerator: Self, denominator: Self) -> (r: MathResult<Self>)
        ensures
            r is Ok <==> denominator.0.value() != 0 && fits_u256(tdiv(self.0.value() * numerator.0.value(), denominator.0.value())),
            r matches Ok(v) ==> v.0.value() == tdiv(self.0.value() * numerator.0.value(), denominator.0.value()),
            r matches Err(e) ==> (denominator.0.value() == 0 ==> e is DivisionByZero) && (denominator.0.value() != 0 ==> e is OverflowConversion),
    {
        match u256_ratio(self.0, numerator.0, denominator.0, Rounding::TowardsZero) {
            Ok(v) => Ok(Int(v)),
            Err(e) => Err(e),
        }
    }

    fn checked_multiply_ratio_floor(self, numerator: Self, denominator: Self) -> (r: MathResult<Self>)
        ensures
            r is Ok <==> denominator.0.value() != 0 && fits_u256(floor_div(self.0.value() * numerator.0.value(), denominator.0.value())),
            r matches Ok(v) ==> v.0.value() == floor_div(self.0.value() * numerator.0.value(), denominator.0.value()),
            r matches Err(e) ==> (denominator.0.value() == 0 ==> e is DivisionByZero) && (denominator.0.value() != 0 ==> e is OverflowConversion),
    {
        match u256_ratio(self.0, numerator.0, denominator.0, Rounding::Down) {
            Ok(v) => Ok(Int(v)),
            Err(e) => Err(e),
        }
    }

    fn checked_multiply_ratio_ceil(self, numerator: Self, denominator: Self) -> (r: MathResult<Self>)
        ensures
            r is Ok <==> denominator.0.value() != 0 && fits_u256(ceil_div(self.0.value() * numerator.0.value(), denominator.0.value())),
            r matches Ok(v) ==> v.0.value() == ceil_div(self.0.value() * numerator.0.value(), denominator.0.value()),
            r matches Err(e) ==> (denominator.0.value() == 0 ==> e is DivisionByZero) && (denominator.0.value() != 0 ==> e is OverflowConversion),
    {
        match u256_ratio(self.0, numerator.0, denominator.0, Rounding::Up) {
            Ok(v) => Ok(Int(v)),
            Err(e) => Err(e),
        }
    }
}

impl MultiplyRatio for Int<I256> {
    fn checked_multiply_ratio(self, numerator: Self, denominator: Self) -> (r: MathResult<Self>)
        ensures
            r is Ok <==> denominator.0.value() != 0 && fits_i256(tdiv(self.0.value() * numerator.0.value(), denominator.0.value())),
            r matches Ok(v) ==> v.0.value() == tdiv(self.0.value() * numerator.0.value(), denominator.0.value()),
            r matches Err(e) ==> (denominator.0.value() == 0 ==> e is DivisionByZero) && (denominator.0.value() != 0 ==> e is OverflowConversion),
    {
        match i256_ratio(self.0, numerator.0, denominator.0, Rounding::TowardsZero) {
            Ok(v) => Ok(Int(v)),
            Err(e) => Err(e),
        }
    }

    fn checked_multiply_ratio_floor(self, numerator: Self, denominator: Self) -> (r: MathResult<Self>)
        ensures
            r is Ok <==> denominator.0.value() != 0 && fits_i256(floor_div(self.0.value() * numerator.0.value(), denominator.0.value())),
            r matches Ok(v) ==> v.0.value() == floor_div(self.0.value() * numerator.0.value(), denominator.0.value()),
            r matches Err(e) ==> (denominator.0.value() == 0 ==> e is DivisionByZero) && (denominator.0.value() != 0 ==> e is OverflowConversion),
    {
        match i256_ratio(self.0, numerator.0, denominator.0, Rounding::Down) {
            Ok(v) => Ok(Int(v)),
            Err(e) => Err(e),
        }
    }

    fn checked_multiply_ratio_ceil(self, numerator: Self, denominator: Self) -> (r: MathResult<Self>)
        ensures
            r is Ok <==> denominator.0.value() != 0 && fits_i256(ceil_div(self.0.value() * numerator.0.value(), denominator.0.value())),
            r matches Ok(v) ==> v.0.value() == ceil_div(self.0.value() * numerator.0.value(), denominator.0.value()),
            r matches Err(e) ==> (denominator.0.value() == 0 ==> e is DivisionByZero) && (denominator.0.value() != 0 ==> e is OverflowConversion),
    {
        match i256_ratio(self.0, numerator.0, denominator.0, Rounding::Up) {
            Ok(v) => Ok(Int(v)),
            Err(e) => Err(e),
        }
    }
}

} // verus!
