use vstd::prelude::*;
use crate::display::int_text_of;
use crate::arith::{abs, clamp, floor_div, ilog, is_isqrt, lemma_ilog_bounds, lemma_log10_below, lemma_log_below, lemma_pow2_256, lemma_pow2_512, lemma_pow_monotone, lemma_pow_positive, lemma_sqrt_first_estimate, lemma_sqrt_step, pow, tdiv, trem, wrap};
use crate::error::{MathError, MathResult};
use crate::int_types::Int;
use crate::integer::Integer;
use crate::is_zero::IsZero;
use crate::number::Number;
use crate::number_const::NumberConst;
use crate::sign::Sign;
use crate::wide512::{
    b256, fits_i512, fits_u512, i512_checked_add, i512_checked_div, i512_checked_mul, i512_checked_rem, i512_checked_sub, i512_div_defined,
    i512_max, i512_min, lemma_i512_range, lemma_u512_range, u512_checked_add, u512_checked_div, u512_checked_mul, u512_checked_rem,
    u512_checked_sub, u512_max, u512_min, I512, U512,
};
use crate::wide512_ops::{
    i512_checked_ilog10, i512_checked_ilog2, i512_checked_pow, i512_checked_shl, i512_checked_shr, i512_saturating_add, i512_saturating_mul,
    i512_saturating_pow, i512_saturating_sub, i512_wrapping_add, i512_wrapping_mul, i512_wrapping_pow, i512_wrapping_sub, u512_checked_ilog10,
    u512_checked_ilog2, u512_checked_pow, u512_checked_shl, u512_checked_shr, u512_saturating_add, u512_saturating_mul, u512_saturating_pow,
    u512_saturating_sub, u512_wrapping_add, u512_wrapping_mul, u512_wrapping_pow, u512_wrapping_sub,
};

verus! {

impl Number for Int<U512> {
    fn checked_add(self, other: Self) -> (r: MathResult<Self>)
        ensures
            r is Ok <==> fits_u512(self.0.value() + other.0.value()),
            r matches Ok(v) ==> v.0.value() == self.0.value() + other.0.value(),
            r matches Err(e) ==> e is OverflowAdd,
    {
        match u512_checked_add(self.0, other.0) {
            Some(v) => Ok(Int(v)),
            None => Err(MathError::overflow_add(self.0, other.0)),
        }
    }

    fn checked_sub(self, other: Self) -> (r: MathResult<Self>)
        ensures
            r is Ok <==> fits_u512(self.0.value() - other.0.value()),
            r matches Ok(v) ==> v.0.value() == self.0.value() - other.0.value(),
            r matches Err(e) ==> e is OverflowSub,
    {
        match u512_checked_sub(self.0, other.0) {
            Some(v) => Ok(Int(v)),
            None => Err(MathError::overflow_sub(self.0, other.0)),
        }
    }

    fn checked_mul(self, other: Self) -> (r: MathResult<Self>)
        ensures
            r is Ok <==> fits_u512(self.0.value() * other.0.value()),
            r matches Ok(v) ==> v.0.value() == self.0.value() * other.0.value(),
            r matches Err(e) ==> e is OverflowMul,
    {
        match u512_checked_mul(self.0, other.0) {
            Some(v) => Ok(Int(v)),
            None => Err(MathError::overflow_mul(self.0, other.0)),
        }
    }

    fn checked_div(self, other: Self) -> (r: MathResult<Self>)
        ensures
            r is Ok <==> other.0.value() != 0,
            r matches Ok(v) ==> v.0.value() == self.0.value() / other.0.value(),
            r matches Err(e) ==> e is DivisionByZero,
    {
        match u512_checked_div(self.0, other.0) {
            Some(v) => Ok(Int(v)),
            None => Err(MathError::division_by_zero(self.0)),
        }
    }

    fn checked_rem(self, other: Self) -> (r: MathResult<Self>)
        ensures
            r is Ok <==> other.0.value() != 0,
            r matches Ok(v) ==> v.0.value() == self.0.value() % other.0.value(),
            r matches Err(e) ==> e is DivisionByZero,
    {
        match u512_checked_rem(self.0, other.0) {
            Some(v) => Ok(Int(v)),
            None => Err(MathError::division_by_zero(self.0)),
        }
    }

    fn checked_pow(self, exp: u32) -> (r: MathResult<Self>)
        ensures
            r is Ok <==> fits_u512(pow(self.0.value(), exp as nat)),
            r matches Ok(v) ==> v.0.value() == pow(self.0.value(), exp as nat),
            r matches Err(e) ==> e is OverflowPow,
    {
        match u512_checked_pow(self.0, exp) {
            Some(v) => Ok(Int(v)),
            None => Err(MathError::overflow_pow(self.0, exp)),
        }
    }

    /// The floored square root, by the Babylonian method.
    fn checked_sqrt(self) -> (r: MathResult<Self>)
        ensures
            r is Ok <==> self.0.value() >= 0,
            r matches Ok(v) ==> is_isqrt(self.0.value(), v.0.value()),
            r matches Err(e) ==> e matches MathError::NegativeSqrt { a: x } && x@ == int_text_of(self.0.value()),
    {
        let n = self.0;
        if n.is_zero() {
            assert(is_isqrt(n.value(), 0)) by (nonlinear_arith)
                requires
                    n.value() == 0,
            ;
            return Ok(Int(U512::zero()));
        }
        proof {
            lemma_u512_range(n);
        }
        let lg = match u512_checked_ilog2(n) {
            Some(k) => k,
            None => {
                return Err(MathError::negative_sqrt(n));
            },
        };
        proof {
            lemma_ilog_bounds(2, n.value());
            lemma_pow2_512();
            lemma_log_below(ilog(2, n.value()), n.value(), 512);
            assert(lg as nat == ilog(2, n.value()));
            lemma_sqrt_first_estimate(n.value(), lg as nat);
            lemma_pow_monotone(2, (lg / 2 + 1) as nat, 256);
            lemma_pow_positive(2, (lg / 2 + 1) as nat);
            lemma_pow2_256();
        }
        let two = U512::from_u128(2);
        let mut x0 = match u512_checked_pow(two, lg / 2 + 1) {
            Some(p) => p,
            None => {
                return Err(MathError::negative_sqrt(n));
            },
        };
        proof {
            assert(x0.value() * x0.value() > n.value());
            assert((x0.value() + 1) * (x0.value() + 1) > n.value()) by (nonlinear_arith)
                requires
                    x0.value() * x0.value() > n.value(),
                    x0.value() >= 0,
            ;
        }
        let mut x1 = match u512_sqrt_step(n, x0) {
            Some(v) => v,
            None => {
                return Err(MathError::negative_sqrt(n));
            },
        };
        while x1.lt(&x0)
            invariant
                n.value() > 0,
                1 <= x0.value() <= b256(),
                (x0.value() + 1) * (x0.value() + 1) > n.value(),
                x1.value() == (x0.value() + n.value() / x0.value()) / 2,
                (x1.value() + 1) * (x1.value() + 1) > n.value(),
                x1.value() >= x0.value() ==> x0.value() * x0.value() <= n.value(),
            decreases x0.value(),
        {
            x0 = x1;
            proof {
                assert(x0.value() >= 1) by (nonlinear_arith)
                    requires
                        (x0.value() + 1) * (x0.value() + 1) > n.value(),
                        n.value() > 0,
                        x0.value() >= 0,
                ;
            }
            x1 = match u512_sqrt_step(n, x0) {
                Some(v) => v,
                None => {
                    return Err(MathError::negative_sqrt(n));
                },
            };
        }
        Ok(Int(x0))
    }

    fn saturating_add(self, other: Self) -> (r: Self)
        ensures
            r.0.value() == clamp(self.0.value() + other.0.value(), u512_min(), u512_max()),
    {
        Int(u512_saturating_add(self.0, other.0))
    }

    fn saturating_sub(self, other: Self) -> (r: Self)
        ensures
            r.0.value() == clamp(self.0.value() - other.0.value(), u512_min(), u512_max()),
    {
        Int(u512_saturating_sub(self.0, other.0))
    }

    fn saturating_mul(self, other: Self) -> (r: Self)
        ensures
            r.0.value() == clamp(self.0.value() * other.0.value(), u512_min(), u512_max()),
    {
        Int(u512_saturating_mul(self.0, other.0))
    }

    fn saturating_pow(self, exp: u32) -> (r: Self)
        ensures
            r.0.value() == clamp(pow(self.0.value(), exp as nat), u512_min(), u512_max()),
    {
        Int(u512_saturating_pow(self.0, exp))
    }
}

/// One Babylonian step, `(x + n / x) / 2`, on a positive estimate that is not
/// below the floored root.
fn u512_sqrt_step(n: U512, x: U512) -> (r: Option<U512>)
    requires
        n.value() > 0,
        1 <= x.value() <= b256(),
        (x.value() + 1) * (x.value() + 1) > n.value(),
    ensures
        r matches Some(v) && v.value() == (x.value() + n.value() / x.value()) / 2
            && (v.value() + 1) * (v.value() + 1) > n.value()
            && (v.value() >= x.value() ==> x.value() * x.value() <= n.value()),
{
    proof {
        lemma_sqrt_step(n.value(), x.value());
        lemma_u512_range(n);
        assert(n.value() / x.value() >= 0) by (nonlinear_arith)
            requires n.value() > 0, x.value() >= 1;
    }
    let q = match u512_checked_div(n, x) {
        Some(q) => q,
        None => {
            return None;
        },
    };
    let s = match u512_checked_add(x, q) {
        Some(s) => s,
        None => {
            return None;
        },
    };
    u512_checked_div(s, U512::from_u128(2))
}

impl Number for Int<I512> {
    fn checked_add(self, other: Self) -> (r: MathResult<Self>)
        ensures
            r is Ok <==> fits_i512(self.0.value() + other.0.value()),
            r matches Ok(v) ==> v.0.value() == self.0.value() + other.0.value(),
            r matches Err(e) ==> e is OverflowAdd,
    {
        match i512_checked_add(self.0, other.0) {
            Some(v) => Ok(Int(v)),
            None => Err(MathError::overflow_add(self.0, other.0)),
        }
    }

    fn checked_sub(self, other: Self) -> (r: MathResult<Self>)
        ensures
            r is Ok <==> fits_i512(self.0.value() - other.0.value()),
            r matches Ok(v) ==> v.0.value() == self.0.value() - other.0.value(),
            r matches Err(e) ==> e is OverflowSub,
    {
        match i512_checked_sub(self.0, other.0) {
            Some(v) => Ok(Int(v)),
            None => Err(MathError::overflow_sub(self.0, other.0)),
        }
    }

    fn checked_mul(self, other: Self) -> (r: MathResult<Self>)
        ensures
            r is Ok <==> fits_i512(self.0.value() * other.0.value()),
            r matches Ok(v) ==> v.0.value() == self.0.value() * other.0.value(),
            r matches Err(e) ==> e is OverflowMul,
    {
        match i512_checked_mul(self.0, other.0) {
            Some(v) => Ok(Int(v)),
            None => Err(MathError::overflow_mul(self.0, other.0)),
        }
    }

    fn checked_div(self, other: Self) -> (r: MathResult<Self>)
        ensures
            r is Ok <==> i512_div_defined(self.0.value(), other.0.value()),
            r matches Ok(v) ==> v.0.value() == tdiv(self.0.value(), other.0.value()),
            r matches Err(e) ==> e is DivisionByZero,
    {
        match i512_checked_div(self.0, other.0) {
            Some(v) => Ok(Int(v)),
            None => Err(MathError::division_by_zero(self.0)),
        }
    }

    fn checked_rem(self, other: Self) -> (r: MathResult<Self>)
        ensures
            r is Ok <==> i512_div_defined(self.0.value(), other.0.value()),
            r matches Ok(v) ==> v.0.value() == trem(self.0.value(), other.0.value()),
            r matches Err(e) ==> e is DivisionByZero,
    {
        match i512_checked_rem(self.0, other.0) {
            Some(v) => Ok(Int(v)),
            None => Err(MathError::division_by_zero(self.0)),
        }
    }

    fn checked_pow(self, exp: u32) -> (r: MathResult<Self>)
        ensures
            r is Ok <==> fits_i512(pow(self.0.value(), exp as nat)),
            r matches Ok(v) ==> v.0.value() == pow(self.0.value(), exp as nat),
            r matches Err(e) ==> e is OverflowPow,
    {
        match i512_checked_pow(self.0, exp) {
            Some(v) => Ok(Int(v)),
            None => Err(MathError::overflow_pow(self.0, exp)),
        }
    }

    /// The floored square root, by the Babylonian method.
    fn checked_sqrt(self) -> (r: MathResult<Self>)
        ensures
            r is Ok <==> self.0.value() >= 0,
            r matches Ok(v) ==> is_isqrt(self.0.value(), v.0.value()),
            r matches Err(e) ==> e matches MathError::NegativeSqrt { a: x } && x@ == int_text_of(self.0.value()),
    {
        let n = self.0;
        if n.is_zero() {
            assert(is_isqrt(n.value(), 0)) by (nonlinear_arith)
                requires
                    n.value() == 0,
            ;
            return Ok(Int(I512::zero()));
        }
        if n.is_negative() {
            return Err(MathError::negative_sqrt(n));
        }
        proof {
            lemma_i512_range(n);
        }
        let lg = match i512_checked_ilog2(n) {
            Some(k) => k,
            None => {
                return Err(MathError::negative_sqrt(n));
            },
        };
        proof {
            lemma_ilog_bounds(2, n.value());
            lemma_pow2_512();
            lemma_log_below(ilog(2, n.value()), n.value(), 512);
            assert(lg as nat == ilog(2, n.value()));
            lemma_sqrt_first_estimate(n.value(), lg as nat);
            lemma_pow_monotone(2, (lg / 2 + 1) as nat, 256);
            lemma_pow_positive(2, (lg / 2 + 1) as nat);
            lemma_pow2_256();
        }
        let two = I512::from_i128(2);
        let mut x0 = match i512_checked_pow(two, lg / 2 + 1) {
            Some(p) => p,
            None => {
                return Err(MathError::negative_sqrt(n));
            },
        };
        proof {
            assert(x0.value() * x0.value() > n.value());
            assert((x0.value() + 1) * (x0.value() + 1) > n.value()) by (nonlinear_arith)
                requires
                    x0.value() * x0.value() > n.value(),
                    x0.value() >= 0,
            ;
        }
        let mut x1 = match i512_sqrt_step(n, x0) {
            Some(v) => v,
            None => {
                return Err(MathError::negative_sqrt(n));
            },
        };
        while x1.lt(&x0)
            invariant
                n.value() > 0,
                1 <= x0.value() <= b256(),
                (x0.value() + 1) * (x0.value() + 1) > n.value(),
                x1.value() == (x0.value() + n.value() / x0.value()) / 2,
                (x1.value() + 1) * (x1.value() + 1) > n.value(),
                x1.value() >= x0.value() ==> x0.value() * x0.value() <= n.value(),
            decreases x0.value(),
        {
            x0 = x1;
            proof {
                assert(x0.value() >= 1) by (nonlinear_arith)
                    requires
                        (x0.value() + 1) * (x0.value() + 1) > n.value(),
                        n.value() > 0,
                        x0.value() >= 0,
                ;
            }
            x1 = match i512_sqrt_step(n, x0) {
                Some(v) => v,
                None => {
                    return Err(MathError::negative_sqrt(n));
                },
            };
        }
        Ok(Int(x0))
    }

    fn saturating_add(self, other: Self) -> (r: Self)
        ensures
            r.0.value() == clamp(self.0.value() + other.0.value(), i512_min(), i512_max()),
    {
        Int(i512_saturating_add(self.0, other.0))
    }

    fn saturating_sub(self, other: Self) -> (r: Self)
        ensures
            r.0.value() == clamp(self.0.value() - other.0.value(), i512_min(), i512_max()),
    {
        Int(i512_saturating_sub(self.0, other.0))
    }

    fn saturating_mul(self, other: Self) -> (r: Self)
        ensures
            r.0.value() == clamp(self.0.value() * other.0.value(), i512_min(), i512_max()),
    {
        Int(i512_saturating_mul(self.0, other.0))
    }

    fn saturating_pow(self, exp: u32) -> (r: Self)
        ensures
            r.0.value() == clamp(pow(self.0.value(), exp as nat), i512_min(), i512_max()),
    {
        Int(i512_saturating_pow(self.0, exp))
    }
}

/// One Babylonian step, `(x + n / x) / 2`, on a positive estimate that is not
/// below the floored root.
fn i512_sqrt_step(n: I512, x: I512) -> (r: Option<I512>)
    requires
        n.value() > 0,
        1 <= x.value() <= b256(),
        (x.value() + 1) * (x.value() + 1) > n.value(),
    ensures
        r matches Some(v) && v.value() == (x.value() + n.value() / x.value()) / 2
            && (v.value() + 1) * (v.value() + 1) > n.value()
            && (v.value() >= x.value() ==> x.value() * x.value() <= n.value()),
{
    proof {
        lemma_sqrt_step(n.value(), x.value());
        lemma_i512_range(n);
        assert(n.value() / x.value() >= 0) by (nonlinear_arith)
            requires n.value() > 0, x.value() >= 1;
    }
    let q = match i512_checked_div(n, x) {
        Some(q) => q,
        None => {
            return None;
        },
    };
    let s = match i512_checked_add(x, q) {
        Some(s) => s,
        None => {
            return None;
        },
    };
    i512_checked_div(s, I512::from_i128(2))
}

impl Integer for Int<U512> {
    fn checked_ilog2(self) -> (r: MathResult<u32>)
        ensures
            r is Ok <==> self.0.value() > 0,
            r matches Ok(k) ==> pow(2, k as nat) <= self.0.value() && self.0.value() < pow(2, (k + 1) as nat),
            r matches Err(e) ==> e is ZeroLog,
    {
        match u512_checked_ilog2(self.0) {
            Some(k) => {
                proof {
                    lemma_u512_range(self.0);
                    lemma_ilog_bounds(2, self.0.value());
                    lemma_pow2_512();
                    lemma_log_below(ilog(2, self.0.value()), self.0.value(), 512);
                }
                Ok(k)
            },
            None => Err(MathError::zero_log()),
        }
    }

    fn checked_ilog10(self) -> (r: MathResult<u32>)
        ensures
            r is Ok <==> self.0.value() > 0,
            r matches Ok(k) ==> pow(10, k as nat) <= self.0.value() && self.0.value() < pow(10, (k + 1) as nat),
            r matches Err(e) ==> e is ZeroLog,
    {
        match u512_checked_ilog10(self.0) {
            Some(k) => {
                proof {
                    lemma_u512_range(self.0);
                    lemma_ilog_bounds(10, self.0.value());
                    lemma_pow2_512();
                    lemma_log10_below(ilog(10, self.0.value()), self.0.value(), 512);
                }
                Ok(k)
            },
            None => Err(MathError::zero_log()),
        }
    }

    fn checked_shl(self, other: u32) -> (r: MathResult<Self>)
        ensures
            r is Ok <==> other < 512,
            r matches Ok(v) ==> v.0.value() == wrap(self.0.value() * pow(2, other as nat), b256() * b256(), false),
            r matches Err(e) ==> e is OverflowShl,
    {
        match u512_checked_shl(self.0, other) {
            Some(v) => Ok(Int(v)),
            None => Err(MathError::overflow_shl(self.0, other)),
        }
    }

    fn checked_shr(self, other: u32) -> (r: MathResult<Self>)
        ensures
            r is Ok <==> other < 512,
            r matches Ok(v) ==> v.0.value() == self.0.value() / pow(2, other as nat),
            r matches Err(e) ==> e is OverflowShr,
    {
        match u512_checked_shr(self.0, other) {
            Some(v) => Ok(Int(v)),
            None => Err(MathError::overflow_shr(self.0, other)),
        }
    }

    fn wrapping_add(self, other: Self) -> (r: Self)
        ensures
            r.0.value() == wrap(self.0.value() + other.0.value(), b256() * b256(), false),
    {
        Int(u512_wrapping_add(self.0, other.0))
    }

    fn wrapping_sub(self, other: Self) -> (r: Self)
        ensures
            r.0.value() == wrap(self.0.value() - other.0.value(), b256() * b256(), false),
    {
        Int(u512_wrapping_sub(self.0, other.0))
    }

    fn wrapping_mul(self, other: Self) -> (r: Self)
        ensures
            r.0.value() == wrap(self.0.value() * other.0.value(), b256() * b256(), false),
    {
        Int(u512_wrapping_mul(self.0, other.0))
    }

    fn wrapping_pow(self, exp: u32) -> (r: Self)
        ensures
            r.0.value() == wrap(pow(self.0.value(), exp as nat), b256() * b256(), false),
    {
        Int(u512_wrapping_pow(self.0, exp))
    }
}

impl Integer for Int<I512> {
    fn checked_ilog2(self) -> (r: MathResult<u32>)
        ensures
            r is Ok <==> self.0.value() > 0,
            r matches Ok(k) ==> pow(2, k as nat) <= self.0.value() && self.0.value() < pow(2, (k + 1) as nat),
            r matches Err(e) ==> e is ZeroLog,
    {
        match i512_checked_ilog2(self.0) {
            Some(k) => {
                proof {
                    lemma_i512_range(self.0);
                    lemma_ilog_bounds(2, self.0.value());
                    lemma_pow2_512();
                    lemma_log_below(ilog(2, self.0.value()), self.0.value(), 512);
                }
                Ok(k)
            },
            None => Err(MathError::zero_log()),
        }
    }

    fn checked_ilog10(self) -> (r: MathResult<u32>)
        ensures
            r is Ok <==> self.0.value() > 0,
            r matches Ok(k) ==> pow(10, k as nat) <= self.0.value() && self.0.value() < pow(10, (k + 1) as nat),
            r matches Err(e) ==> e is ZeroLog,
    {
        match i512_checked_ilog10(self.0) {
            Some(k) => {
                proof {
                    lemma_i512_range(self.0);
                    lemma_ilog_bounds(10, self.0.value());
                    lemma_pow2_512();
                    lemma_log10_below(ilog(10, self.0.value()), self.0.value(), 512);
                }
                Ok(k)
            },
            None => Err(MathError::zero_log()),
        }
    }

    fn checked_shl(self, other: u32) -> (r: MathResult<Self>)
        ensures
            r is Ok <==> other < 512,
            r matches Ok(v) ==> v.0.value() == wrap(self.0.value() * pow(2, other as nat), b256() * b256(), true),
            r matches Err(e) ==> e is OverflowShl,
    {
        match i512_checked_shl(self.0, other) {
            Some(v) => Ok(Int(v)),
            None => Err(MathError::overflow_shl(self.0, other)),
        }
    }

    fn checked_shr(self, other: u32) -> (r: MathResult<Self>)
        ensures
            r is Ok <==> other < 512,
            r matches Ok(v) ==> v.0.value() == floor_div(self.0.value(), pow(2, other as nat)),
            r matches Err(e) ==> e is OverflowShr,
    {
        match i512_checked_shr(self.0, other) {
            Some(v) => Ok(Int(v)),
            None => Err(MathError::overflow_shr(self.0, other)),
        }
    }

    fn wrapping_add(self, other: Self) -> (r: Self)
        ensures
            r.0.value() == wrap(self.0.value() + other.0.value(), b256() * b256(), true),
    {
        Int(i512_wrapping_add(self.0, other.0))
    }

    fn wrapping_sub(self, other: Self) -> (r: Self)
        ensures
            r.0.value() == wrap(self.0.value() - other.0.value(), b256() * b256(), true),
    {
        Int(i512_wrapping_sub(self.0, other.0))
    }

    fn wrapping_mul(self, other: Self) -> (r: Self)
        ensures
            r.0.value() == wrap(self.0.value() * other.0.value(), b256() * b256(), true),
    {
        Int(i512_wrapping_mul(self.0, other.0))
    }

    fn wrapping_pow(self, exp: u32) -> (r: Self)
        ensures
            r.0.value() == wrap(pow(self.0.value(), exp as nat), b256() * b256(), true),
    {
        Int(i512_wrapping_pow(self.0, exp))
    }
}

impl IsZero for Int<U512> {
    fn is_zero(&self) -> (r: bool)
        ensures
            r == (self.0.value() == 0),
    {
        self.0.is_zero()
    }

    fn is_non_zero(&self) -> (r: bool)
        ensures
            r == (self.0.value() != 0),
    {
        !self.0.is_zero()
    }
}

impl IsZero for Int<I512> {
    fn is_zero(&self) -> (r: bool)
        ensures
            r == (self.0.value() == 0),
    {
        self.0.is_zero()
    }

    fn is_non_zero(&self) -> (r: bool)
        ensures
            r == (self.0.value() != 0),
    {
        !self.0.is_zero()
    }
}

impl Sign for Int<U512> {
    fn checked_abs(self) -> (r: MathResult<Self>)
        ensures
            r == Ok::<Self, MathError>(self),
    {
        Ok(self)
    }

    fn is_negative(&self) -> (r: bool)
        ensures
            r == (self.0.value() < 0),
    {
        proof {
            lemma_u512_range(self.0);
        }
        false
    }

    fn is_positive(&self) -> (r: bool)
        ensures
            r == (self.0.value() > 0),
    {
        proof {
            lemma_u512_range(self.0);
        }
        !self.0.is_zero()
    }

    fn is_non_negative(&self) -> (r: bool)
        ensures
            r == (self.0.value() >= 0),
    {
        proof {
            lemma_u512_range(self.0);
        }
        true
    }

    fn is_non_positive(&self) -> (r: bool)
        ensures
            r == (self.0.value() <= 0),
    {
        proof {
            lemma_u512_range(self.0);
        }
        self.0.is_zero()
    }

    fn checked_neg(self) -> (r: MathResult<Self>)
        ensures
            r is Ok <==> self.0.value() == 0,
            r matches Ok(v) ==> v.0.value() == 0,
            r matches Err(e) ==> e is InvalidNegation,
    {
        proof {
            lemma_u512_range(self.0);
        }
        if self.0.is_zero() {
            Ok(self)
        } else {
            Err(MathError::InvalidNegation)
        }
    }
}

impl Sign for Int<I512> {
    fn checked_abs(self) -> (r: MathResult<Self>)
        ensures
            r is Ok <==> self.0.value() != i512_min(),
            r matches Ok(v) ==> v.0.value() == abs(self.0.value()),
            r matches Err(e) ==> e is OverflowConversion,
    {
        if self.0.is_negative() {
            match i512_checked_sub(I512::zero(), self.0) {
                Some(v) => Ok(Int(v)),
                None => Err(MathError::overflow_conversion::<I512, I512>(self.0)),
            }
        } else {
            Ok(self)
        }
    }

    fn is_negative(&self) -> (r: bool)
        ensures
            r == (self.0.value() < 0),
    {
        self.0.is_negative()
    }

    fn is_positive(&self) -> (r: bool)
        ensures
            r == (self.0.value() > 0),
    {
        self.0.is_positive()
    }

    fn is_non_negative(&self) -> (r: bool)
        ensures
            r == (self.0.value() >= 0),
    {
        !self.0.is_negative()
    }

    fn is_non_positive(&self) -> (r: bool)
        ensures
            r == (self.0.value() <= 0),
    {
        !self.0.is_positive()
    }

    fn checked_neg(self) -> (r: MathResult<Self>)
        ensures
            r is Ok <==> self.0.value() != i512_min(),
            r matches Ok(v) ==> v.0.value() == -self.0.value(),
            r matches Err(e) ==> e is OverflowNegation,
    {
        match i512_checked_sub(I512::zero(), self.0) {
            Some(v) => Ok(Int(v)),
            None => Err(MathError::overflow_negation(self.0)),
        }
    }
}

impl NumberConst for Int<U512> {
    fn MIN() -> (r: Self)
        ensures
            r.0.value() == u512_min(),
    {
        Int(U512::zero())
    }

    fn MAX() -> (r: Self)
        ensures
            r.0.value() == u512_max(),
    {
        Int(U512::max())
    }

    fn ONE() -> (r: Self)
        ensures
            r.0.value() == 1,
    {
        Int(U512::one())
    }

    fn TEN() -> (r: Self)
        ensures
            r.0.value() == 10,
    {
        Int(U512::from_u128(10))
    }

    fn ZERO() -> (r: Self)
        ensures
            r.0.value() == 0,
    {
        Int(U512::zero())
    }
}

impl NumberConst for Int<I512> {
    fn MIN() -> (r: Self)
        ensures
            r.0.value() == i512_min(),
    {
        Int(I512::min())
    }

    fn MAX() -> (r: Self)
        ensures
            r.0.value() == i512_max(),
    {
        Int(I512::max())
    }

    fn ONE() -> (r: Self)
        ensures
            r.0.value() == 1,
    {
        Int(I512::one())
    }

    fn TEN() -> (r: Self)
        ensures
            r.0.value() == 10,
    {
        Int(I512::from_i128(10))
    }

    fn ZERO() -> (r: Self)
        ensures
            r.0.value() == 0,
    {
        Int(I512::zero())
    }
}

} // verus!
