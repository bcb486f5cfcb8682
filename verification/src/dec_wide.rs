use vstd::prelude::*;
use crate::arith::{abs, ceil_div, clamp, floor_div, is_isqrt, lemma_pow100_is_pow10, lemma_pow10_18, lemma_pow10_24, lemma_pow10_bounds, lemma_pow_monotone, lemma_pow_positive, pow, pow10, tdiv, trem};
use crate::dec::{dec_pow_failure, dec_pow_loop_failure, dec_pow, dec_pow_loop, dec_sqrt_scale, lemma_dec_sqrt_scale, pow10_i128, pow10_u128, Dec};
use crate::error::{MathError, MathResult};
use crate::display::{dec_display, nat_text};
use crate::fixed_point::FixedPoint;
use crate::int_types::Int;
use crate::is_zero::IsZero;
use crate::multiply_ratio::MultiplyRatio;
use crate::number::Number;
use crate::number_const::NumberConst;
use crate::sign::Sign;
use crate::wide::{fits_i256, fits_u256, i256_max, i256_min, lemma_i256_range, lemma_u256_range, u256_checked_mul, i256_checked_mul, u256_max, u256_min, I256, U256};

verus! {

/// 256-bit unsigned fixed-point number with 18 decimal places.
pub type Udec256 = Dec<U256, 18>;

/// 256-bit signed fixed-point number with 18 decimal places.
pub type Dec256 = Dec<I256, 18>;

/// `2^128`.
pub(crate) open spec fn b128() -> int {
    0x1_0000_0000_0000_0000_0000_0000_0000_0000int
}

/// The floored root of a 256-bit value is below `2^128`.
proof fn lemma_root_bound_256(n: int, root: int)
    requires
        is_isqrt(n, root),
        n < b128() * b128(),
    ensures
        root < b128(),
{
    if root >= b128() {
        assert(root * root >= b128() * b128()) by (nonlinear_arith)
            requires root >= b128();
    }
}

/// A 128-bit magnitude times a power of ten up to `10^38` fits in both
/// 256-bit ranges.
proof fn lemma_scaled_fits(x: int, p: int)
    requires
        -b128() <= x <= b128(),
        1 <= p <= 100000000000000000000000000000000000000,
    ensures
        fits_i256(x * p),
        x >= 0 ==> fits_u256(x * p),
{
    assert(-b128() * 100000000000000000000000000000000000000 <= x * p <= b128() * 100000000000000000000000000000000000000) by (nonlinear_arith)
        requires
            -b128() <= x <= b128(),
            1 <= p <= 100000000000000000000000000000000000000,
    ;
}

impl<const S: u32> Dec<U256, S> {
    /// `x * 10^k` as a 256-bit inner integer.
    fn scaled(x: u128, k: u32) -> (r: Self)
        requires
            k <= 38,
        ensures
            r.0.0.value() == x * pow10(k as nat),
    {
        proof {
            lemma_pow10_bounds(k as nat);
            lemma_scaled_fits(x as int, pow10(k as nat));
        }
        let a = U256::from_u128(x);
        let f = U256::from_u128(pow10_u128(k));
        match u256_checked_mul(a, f) {
            Some(v) => Dec(Int(v)),
            None => Dec(Int(U256::zero())),
        }
    }

    /// `x` whole units.
    pub fn new(x: u128) -> (r: Self)
        requires
            S <= 38,
        ensures
            r.0.0.value() == x * pow10(S as nat),
    {
        Self::scaled(x, S)
    }

    /// `x` hundredths.
    pub fn new_percent(x: u128) -> (r: Self)
        requires
            2 <= S <= 38,
        ensures
            r.0.0.value() == x * pow10((S - 2) as nat),
    {
        Self::scaled(x, S - 2)
    }

    /// `x` thousandths.
    pub fn new_permille(x: u128) -> (r: Self)
        requires
            3 <= S <= 38,
        ensures
            r.0.0.value() == x * pow10((S - 3) as nat),
    {
        Self::scaled(x, S - 3)
    }

    /// `x` basis points (ten-thousandths).
    pub fn new_bps(x: u128) -> (r: Self)
        requires
            4 <= S <= 38,
        ensures
            r.0.0.value() == x * pow10((S - 4) as nat),
    {
        Self::scaled(x, S - 4)
    }

    /// The decimal closest to `numerator / denominator`, rounded towards
    /// zero.
    pub fn checked_from_ratio(numerator: Int<U256>, denominator: Int<U256>) -> (r: MathResult<Self>)
        requires
            S <= 38,
        ensures
            r is Ok <==> denominator.0.value() != 0 && fits_u256(tdiv(numerator.0.value() * pow10(S as nat), denominator.0.value())),
            r matches Ok(v) ==> v.0.0.value() == tdiv(numerator.0.value() * pow10(S as nat), denominator.0.value()),
            r matches Err(e) ==> (denominator.0.value() == 0 ==> e is DivisionByZero) && (denominator.0.value() != 0 ==> e is OverflowConversion),
    {
        let precision = Self::scaled(1, S).0;
        match numerator.checked_multiply_ratio(precision, denominator) {
            Ok(v) => Ok(Dec(v)),
            Err(e) => Err(e),
        }
    }

    /// The decimal closest to `numerator / denominator`, rounded up.
    pub fn checked_from_ratio_ceil(numerator: Int<U256>, denominator: Int<U256>) -> (r: MathResult<Self>)
        requires
            S <= 38,
        ensures
            r is Ok <==> denominator.0.value() != 0 && fits_u256(ceil_div(numerator.0.value() * pow10(S as nat), denominator.0.value())),
            r matches Ok(v) ==> v.0.0.value() == ceil_div(numerator.0.value() * pow10(S as nat), denominator.0.value()),
            r matches Err(e) ==> (denominator.0.value() == 0 ==> e is DivisionByZero) && (denominator.0.value() != 0 ==> e is OverflowConversion),
    {
        let precision = Self::scaled(1, S).0;
        match numerator.checked_multiply_ratio_ceil(precision, denominator) {
            Ok(v) => Ok(Dec(v)),
            Err(e) => Err(e),
        }
    }

    /// The decimal closest to `numerator / denominator`, rounded down.
    pub fn checked_from_ratio_floor(numerator: Int<U256>, denominator: Int<U256>) -> (r: MathResult<Self>)
        requires
            S <= 38,
        ensures
            r is Ok <==> denominator.0.value() != 0 && fits_u256(floor_div(numerator.0.value() * pow10(S as nat), denominator.0.value())),
            r matches Ok(v) ==> v.0.0.value() == floor_div(numerator.0.value() * pow10(S as nat), denominator.0.value()),
            r matches Err(e) ==> (denominator.0.value() == 0 ==> e is DivisionByZero) && (denominator.0.value() != 0 ==> e is OverflowConversion),
    {
        let precision = Self::scaled(1, S).0;
        match numerator.checked_multiply_ratio_floor(precision, denominator) {
            Ok(v) => Ok(Dec(v)),
            Err(e) => Err(e),
        }
    }
}

impl<const S: u32> IsZero for Dec<U256, S> {
    fn is_zero(&self) -> (r: bool)
        ensures
            r == (self.0.0.value() == 0),
    {
        self.0.is_zero()
    }

    fn is_non_zero(&self) -> (r: bool)
        ensures
            r == (self.0.0.value() != 0),
    {
        !self.is_zero()
    }
}

impl<const S: u32> Sign for Dec<U256, S> {
    fn checked_abs(self) -> (r: MathResult<Self>)
        ensures
            r is Ok,
            r matches Ok(v) ==> v.0.0.value() == abs(self.0.0.value()),
            r matches Err(e) ==> e is OverflowConversion,
    {
        proof {
            lemma_u256_range(self.0.0);
        }
        match self.0.checked_abs() {
            Ok(v) => Ok(Dec(v)),
            Err(e) => Err(e),
        }
    }

    fn is_negative(&self) -> (r: bool)
        ensures
            r == (self.0.0.value() < 0),
    {
        self.0.is_negative()
    }

    fn is_positive(&self) -> (r: bool)
        ensures
            r == (self.0.0.value() > 0),
    {
        self.0.is_positive()
    }

    fn is_non_negative(&self) -> (r: bool)
        ensures
            r == (self.0.0.value() >= 0),
    {
        !self.is_negative()
    }

    fn is_non_positive(&self) -> (r: bool)
        ensures
            r == (self.0.0.value() <= 0),
    {
        !self.is_positive()
    }

    fn checked_neg(self) -> (r: MathResult<Self>)
        ensures
            r is Ok <==> self.0.0.value() == 0,
            r matches Ok(v) ==> v.0.0.value() == -self.0.0.value(),
            r matches Err(e) ==> e is InvalidNegation,
    {
        match self.0.checked_neg() {
            Ok(v) => Ok(Dec(v)),
            Err(e) => Err(e),
        }
    }
}

impl FixedPoint<U256> for Dec<U256, 18> {
    fn PRECISION() -> (r: Int<U256>)
        ensures
            r.0.value() == pow10(18),
    {
        proof {
            lemma_pow10_18();
        }
        Int(U256::from_u128(1_000_000_000_000_000_000))
    }

    fn TICK() -> (r: Self)
        ensures
            r.0.0.value() == 1,
    {
        Dec(Int(U256::one()))
    }
}

impl NumberConst for Dec<U256, 18> {
    fn MIN() -> (r: Self)
        ensures
            r.0.0.value() == u256_min(),
    {
        Dec(Int::<U256>::MIN())
    }

    fn MAX() -> (r: Self)
        ensures
            r.0.0.value() == u256_max(),
    {
        Dec(Int::<U256>::MAX())
    }

    /// One whole unit.
    fn ONE() -> (r: Self)
        ensures
            r.0.0.value() == pow10(18),
    {
        proof {
            lemma_pow10_18();
        }
        Dec(Int(U256::from_u128(1_000_000_000_000_000_000)))
    }

    /// Ten whole units.
    fn TEN() -> (r: Self)
        ensures
            r.0.0.value() == 10 * pow10(18),
    {
        proof {
            lemma_pow10_18();
        }
        Dec(Int(U256::from_u128(1_000_000_000_000_000_0000)))
    }

    fn ZERO() -> (r: Self)
        ensures
            r.0.0.value() == 0,
    {
        Dec(Int(U256::zero()))
    }
}

impl Number for Dec<U256, 18> {
    fn checked_add(self, other: Self) -> (r: MathResult<Self>)
        ensures
            r is Ok <==> fits_u256(self.0.0.value() + other.0.0.value()),
            r matches Ok(v) ==> v.0.0.value() == self.0.0.value() + other.0.0.value(),
            r matches Err(e) ==> e is OverflowAdd,
    {
        match self.0.checked_add(other.0) {
            Ok(v) => Ok(Dec(v)),
            Err(e) => Err(e),
        }
    }

    fn checked_sub(self, other: Self) -> (r: MathResult<Self>)
        ensures
            r is Ok <==> fits_u256(self.0.0.value() - other.0.0.value()),
            r matches Ok(v) ==> v.0.0.value() == self.0.0.value() - other.0.0.value(),
            r matches Err(e) ==> e is OverflowSub,
    {
        match self.0.checked_sub(other.0) {
            Ok(v) => Ok(Dec(v)),
            Err(e) => Err(e),
        }
    }

    /// The product, rounded towards zero.
    fn checked_mul(self, other: Self) -> (r: MathResult<Self>)
        ensures
            r is Ok <==> fits_u256(tdiv(self.0.0.value() * other.0.0.value(), pow10(18))),
            r matches Ok(v) ==> v.0.0.value() == tdiv(self.0.0.value() * other.0.0.value(), pow10(18)),
            r matches Err(e) ==> e matches MathError::OverflowMul { a: x, b: y } && x@ == dec_display(self.0.0.value(), 18)
                && y@ == dec_display(other.0.0.value(), 18),
    {
        proof {
            lemma_pow10_18();
        }
        let precision = Int(U256::from_u128(1_000_000_000_000_000_000));
        match self.0.checked_multiply_ratio(other.0, precision) {
            Ok(v) => Ok(Dec(v)),
            Err(_) => Err(MathError::overflow_mul(self, other)),
        }
    }

    /// The quotient, rounded towards zero.
    fn checked_div(self, other: Self) -> (r: MathResult<Self>)
        ensures
            r is Ok <==> other.0.0.value() != 0 && fits_u256(tdiv(self.0.0.value() * pow10(18), other.0.0.value())),
            r matches Ok(v) ==> v.0.0.value() == tdiv(self.0.0.value() * pow10(18), other.0.0.value()),
            r matches Err(e) ==> (other.0.0.value() == 0 ==> e is DivisionByZero) && (other.0.0.value() != 0 ==> e is OverflowConversion),
    {
        Self::checked_from_ratio(self.0, other.0)
    }

    fn checked_rem(self, other: Self) -> (r: MathResult<Self>)
        ensures
            r is Ok <==> other.0.0.value() != 0,
            r matches Ok(v) ==> v.0.0.value() == self.0.0.value() % other.0.0.value(),
            r matches Err(e) ==> e is DivisionByZero,
    {
        match self.0.checked_rem(other.0) {
            Ok(v) => Ok(Dec(v)),
            Err(e) => Err(e),
        }
    }

    /// The power by squaring and multiplying, each product rounded towards
    /// zero.
    fn checked_pow(self, exp: u32) -> (r: MathResult<Self>)
        ensures
            r is Ok <==> dec_pow(self.0.0.value(), exp as nat, pow10(18), u256_min(), u256_max()) is Some,
            r matches Ok(v) ==> dec_pow(self.0.0.value(), exp as nat, pow10(18), u256_min(), u256_max()) == Some(v.0.0.value()),
            r matches Err(e) ==> e matches MathError::OverflowPow { a: x, b: y } && x@ == dec_display(dec_pow_failure(self.0.0.value(), exp as nat, pow10(18), u256_min(), u256_max()).0, 18)
                && y@ == nat_text(dec_pow_failure(self.0.0.value(), exp as nat, pow10(18), u256_min(), u256_max()).1 as int),
    {
        proof {
            lemma_pow10_18();
        }
        if exp == 0 {
            return Ok(Dec(Int(U256::from_u128(1_000_000_000_000_000_000))));
        }
        let mut x = self;
        let mut y: Self = Dec(Int(U256::from_u128(1_000_000_000_000_000_000)));
        let mut e = exp;
        while e > 1
            invariant
                e >= 1,
                pow10(18) == 1_000_000_000_000_000_000,
                dec_pow(self.0.0.value(), exp as nat, pow10(18), u256_min(), u256_max()) == dec_pow_loop(x.0.0.value(), y.0.0.value(), e as nat, pow10(18), u256_min(), u256_max()),
                dec_pow_failure(self.0.0.value(), exp as nat, pow10(18), u256_min(), u256_max()) == dec_pow_loop_failure(x.0.0.value(), y.0.0.value(), e as nat, pow10(18), u256_min(), u256_max()),
            decreases e,
        {
            if e % 2 == 0 {
                x = match x.checked_mul(x) {
                    Ok(v) => v,
                    Err(_) => {
                        return Err(MathError::overflow_pow(x, e));
                    },
                };
                e = e / 2;
            } else {
                y = match x.checked_mul(y) {
                    Ok(v) => v,
                    Err(_) => {
                        return Err(MathError::overflow_pow(x, e));
                    },
                };
                x = match x.checked_mul(x) {
                    Ok(v) => v,
                    Err(_) => {
                        return Err(MathError::overflow_pow(x, e));
                    },
                };
                e = (e - 1) / 2;
            }
        }
        match x.checked_mul(y) {
            Ok(v) => Ok(v),
            Err(_) => Err(MathError::overflow_pow(x, e)),
        }
    }

    /// The square root: the inner integer is scaled up by the largest power
    /// of a hundred that keeps it in range, its floored root taken, and the
    /// result scaled to 18 decimal places.
    fn checked_sqrt(self) -> (r: MathResult<Self>)
        ensures
            r is Ok <==> self.0.0.value() >= 0,
            r matches Ok(v) ==> ({
                let k = dec_sqrt_scale(self.0.0.value(), 9, u256_max());
                let m = pow10((9 - k) as nat);
                v.0.0.value() % m == 0 && is_isqrt(self.0.0.value() * pow(100, k), v.0.0.value() / m)
            }),
            r matches Err(e) ==> e matches MathError::NegativeSqrt { a: x } && x@ == dec_display(self.0.0.value(), 18),
    {
        let ghost a = self.0.0.value();
        proof {
            lemma_pow10_18();
            lemma_u256_range(self.0.0);
            lemma_dec_sqrt_scale(a, 9, u256_max());
        }
        let mut i: u32 = 9;
        loop
            invariant
                a == self.0.0.value(),
                0 <= a <= u256_max(),
                i <= 9,
                dec_sqrt_scale(a, 9, u256_max()) <= i,
                forall|j: nat| dec_sqrt_scale(a, 9, u256_max()) < j <= 9 ==> #[trigger] (a * pow(100, j)) > u256_max(),
                a * pow(100, dec_sqrt_scale(a, 9, u256_max())) <= u256_max(),
            decreases i,
        {
            let inner_mul = pow10_u128(2 * i);
            proof {
                lemma_pow100_is_pow10(i as nat);
                assert((2 * i) as nat == 2 * (i as nat));
                assert(inner_mul == pow(100, i as nat));
                lemma_pow_positive(100, i as nat);
            }
            match self.0.checked_mul(Int(U256::from_u128(inner_mul))) {
                Ok(inner) => {
                    proof {
                        assert(inner.0.value() == a * pow(100, i as nat));
                        assert(inner.0.value() >= 0) by (nonlinear_arith)
                            requires inner.0.value() == a * pow(100, i as nat), a >= 0, pow(100, i as nat) > 0;
                        lemma_pow10_24();
                        lemma_pow_monotone(10, 9, 12);
                        lemma_pow10_bounds((9 - i) as nat);
                        lemma_pow_monotone(10, (9 - i) as nat, 9);
                    }
                    let root = match inner.checked_sqrt() {
                        Ok(root) => root,
                        Err(e) => {
                            return Err(e);
                        },
                    };
                    let outer_mul = pow10_u128(9 - i);
                    proof {
                        lemma_u256_range(inner.0);
                        lemma_root_bound_256(inner.0.value(), root.0.value());
                        assert(0 <= root.0.value() * outer_mul <= b128() * 1_000_000_000_000) by (nonlinear_arith)
                            requires
                                0 <= root.0.value() <= b128(),
                                1 <= outer_mul <= pow10(9),
                                pow10(9) <= 1_000_000_000_000,
                        ;
                    }
                    let scaled = match root.checked_mul(Int(U256::from_u128(outer_mul))) {
                        Ok(v) => v,
                        Err(_) => {
                            return Err(MathError::SqrtFailed);
                        },
                    };
                    proof {
                        assert((root.0.value() * outer_mul) % (outer_mul as int) == 0
                            && (root.0.value() * outer_mul) / (outer_mul as int) == root.0.value()) by (nonlinear_arith)
                            requires
                                outer_mul >= 1,
                                root.0.value() >= 0,
                        ;
                    }
                    return Ok(Dec(scaled));
                },
                Err(_) => {},
            }
            if i == 0 {
                return Err(MathError::SqrtFailed);
            }
            i = i - 1;
        }
    }

    fn saturating_add(self, other: Self) -> (r: Self)
        ensures
            r.0.0.value() == clamp(self.0.0.value() + other.0.0.value(), u256_min(), u256_max()),
    {
        Dec(self.0.saturating_add(other.0))
    }

    fn saturating_sub(self, other: Self) -> (r: Self)
        ensures
            r.0.0.value() == clamp(self.0.0.value() - other.0.0.value(), u256_min(), u256_max()),
    {
        Dec(self.0.saturating_sub(other.0))
    }

    fn saturating_mul(self, other: Self) -> (r: Self)
        ensures
            r.0.0.value() == (if fits_u256(tdiv(self.0.0.value() * other.0.0.value(), pow10(18))) {
                tdiv(self.0.0.value() * other.0.0.value(), pow10(18))
            } else if (self.0.0.value() < 0) == (other.0.0.value() < 0) {
                u256_max()
            } else {
                u256_min()
            }),
    {
        match self.checked_mul(other) {
            Ok(v) => v,
            Err(_) => {
                if self.0.is_negative() == other.0.is_negative() {
                    Dec(Int::<U256>::MAX())
                } else {
                    Dec(Int::<U256>::MIN())
                }
            },
        }
    }

    fn saturating_pow(self, exp: u32) -> (r: Self)
        ensures
            r.0.0.value() == (match dec_pow(self.0.0.value(), exp as nat, pow10(18), u256_min(), u256_max()) {
                Some(v) => v,
                None => if self.0.0.value() < 0 && exp % 2 == 1 { u256_min() } else { u256_max() },
            }),
    {
        match self.checked_pow(exp) {
            Ok(v) => v,
            Err(_) => {
                if self.0.is_negative() && exp % 2 == 1 {
                    Dec(Int::<U256>::MIN())
                } else {
                    Dec(Int::<U256>::MAX())
                }
            },
        }
    }
}

impl<const S: u32> Dec<I256, S> {
    /// `x * 10^k` as a 256-bit inner integer.
    fn scaled(x: i128, k: u32) -> (r: Self)
        requires
            k <= 38,
        ensures
            r.0.0.value() == x * pow10(k as nat),
    {
        proof {
            lemma_pow10_bounds(k as nat);
            lemma_scaled_fits(x as int, pow10(k as nat));
        }
        let a = I256::from_i128(x);
        let f = I256::from_i128(pow10_i128(k));
        match i256_checked_mul(a, f) {
            Some(v) => Dec(Int(v)),
            None => Dec(Int(I256::zero())),
        }
    }

    /// `x` whole units.
    pub fn new(x: i128) -> (r: Self)
        requires
            S <= 38,
        ensures
            r.0.0.value() == x * pow10(S as nat),
    {
        Self::scaled(x, S)
    }

    /// `x` hundredths.
    pub fn new_percent(x: i128) -> (r: Self)
        requires
            2 <= S <= 38,
        ensures
            r.0.0.value() == x * pow10((S - 2) as nat),
    {
        Self::scaled(x, S - 2)
    }

    /// `x` thousandths.
    pub fn new_permille(x: i128) -> (r: Self)
        requires
            3 <= S <= 38,
        ensures
            r.0.0.value() == x * pow10((S - 3) as nat),
    {
        Self::scaled(x, S - 3)
    }

    /// `x` basis points (ten-thousandths).
    pub fn new_bps(x: i128) -> (r: Self)
        requires
            4 <= S <= 38,
        ensures
            r.0.0.value() == x * pow10((S - 4) as nat),
    {
        Self::scaled(x, S - 4)
    }

    /// The decimal closest to `numerator / denominator`, rounded towards
    /// zero.
    pub fn checked_from_ratio(numerator: Int<I256>, denominator: Int<I256>) -> (r: MathResult<Self>)
        requires
            S <= 38,
        ensures
            r is Ok <==> denominator.0.value() != 0 && fits_i256(tdiv(numerator.0.value() * pow10(S as nat), denominator.0.value())),
            r matches Ok(v) ==> v.0.0.value() == tdiv(numerator.0.value() * pow10(S as nat), denominator.0.value()),
            r matches Err(e) ==> (denominator.0.value() == 0 ==> e is DivisionByZero) && (denominator.0.value() != 0 ==> e is OverflowConversion),
    {
        let precision = Self::scaled(1, S).0;
        match numerator.checked_multiply_ratio(precision, denominator) {
            Ok(v) => Ok(Dec(v)),
            Err(e) => Err(e),
        }
    }

    /// The decimal closest to `numerator / denominator`, rounded up.
    pub fn checked_from_ratio_ceil(numerator: Int<I256>, denominator: Int<I256>) -> (r: MathResult<Self>)
        requires
            S <= 38,
        ensures
            r is Ok <==> denominator.0.value() != 0 && fits_i256(ceil_div(numerator.0.value() * pow10(S as nat), denominator.0.value())),
            r matches Ok(v) ==> v.0.0.value() == ceil_div(numerator.0.value() * pow10(S as nat), denominator.0.value()),
            r matches Err(e) ==> (denominator.0.value() == 0 ==> e is DivisionByZero) && (denominator.0.value() != 0 ==> e is OverflowConversion),
    {
        let precision = Self::scaled(1, S).0;
        match numerator.checked_multiply_ratio_ceil(precision, denominator) {
            Ok(v) => Ok(Dec(v)),
            Err(e) => Err(e),
        }
    }

    /// The decimal closest to `numerator / denominator`, rounded down.
    pub fn checked_from_ratio_floor(numerator: Int<I256>, denominator: Int<I256>) -> (r: MathResult<Self>)
        requires
            S <= 38,
        ensures
            r is Ok <==> denominator.0.value() != 0 && fits_i256(floor_div(numerator.0.value() * pow10(S as nat), denominator.0.value())),
            r matches Ok(v) ==> v.0.0.value() == floor_div(numerator.0.value() * pow10(S as nat), denominator.0.value()),
            r matches Err(e) ==> (denominator.0.value() == 0 ==> e is DivisionByZero) && (denominator.0.value() != 0 ==> e is OverflowConversion),
    {
        let precision = Self::scaled(1, S).0;
        match numerator.checked_multiply_ratio_floor(precision, denominator) {
            Ok(v) => Ok(Dec(v)),
            Err(e) => Err(e),
        }
    }
}

impl<const S: u32> IsZero for Dec<I256, S> {
    fn is_zero(&self) -> (r: bool)
        ensures
            r == (self.0.0.value() == 0),
    {
        self.0.is_zero()
    }

    fn is_non_zero(&self) -> (r: bool)
        ensures
            r == (self.0.0.value() != 0),
    {
        !self.is_zero()
    }
}

impl<const S: u32> Sign for Dec<I256, S> {
    fn checked_abs(self) -> (r: MathResult<Self>)
        ensures
            r is Ok <==> self.0.0.value() != i256_min(),
            r matches Ok(v) ==> v.0.0.value() == abs(self.0.0.value()),
            r matches Err(e) ==> e is OverflowConversion,
    {
        proof {
            lemma_i256_range(self.0.0);
        }
        match self.0.checked_abs() {
            Ok(v) => Ok(Dec(v)),
            Err(e) => Err(e),
        }
    }

    fn is_negative(&self) -> (r: bool)
        ensures
            r == (self.0.0.value() < 0),
    {
        self.0.is_negative()
    }

    fn is_positive(&self) -> (r: bool)
        ensures
            r == (self.0.0.value() > 0),
    {
        self.0.is_positive()
    }

    fn is_non_negative(&self) -> (r: bool)
        ensures
            r == (self.0.0.value() >= 0),
    {
        !self.is_negative()
    }

    fn is_non_positive(&self) -> (r: bool)
        ensures
            r == (self.0.0.value() <= 0),
    {
        !self.is_positive()
    }

    fn checked_neg(self) -> (r: MathResult<Self>)
        ensures
            r is Ok <==> self.0.0.value() != i256_min(),
            r matches Ok(v) ==> v.0.0.value() == -self.0.0.value(),
            r matches Err(e) ==> e is OverflowNegation,
    {
        match self.0.checked_neg() {
            Ok(v) => Ok(Dec(v)),
            Err(e) => Err(e),
        }
    }
}

impl FixedPoint<I256> for Dec<I256, 18> {
    fn PRECISION() -> (r: Int<I256>)
        ensures
            r.0.value() == pow10(18),
    {
        proof {
            lemma_pow10_18();
        }
        Int(I256::from_i128(1_000_000_000_000_000_000))
    }

    fn TICK() -> (r: Self)
        ensures
            r.0.0.value() == 1,
    {
        Dec(Int(I256::one()))
    }
}

impl NumberConst for Dec<I256, 18> {
    fn MIN() -> (r: Self)
        ensures
            r.0.0.value() == i256_min(),
    {
        Dec(Int::<I256>::MIN())
    }

    fn MAX() -> (r: Self)
        ensures
            r.0.0.value() == i256_max(),
    {
        Dec(Int::<I256>::MAX())
    }

    /// One whole unit.
    fn ONE() -> (r: Self)
        ensures
            r.0.0.value() == pow10(18),
    {
        proof {
            lemma_pow10_18();
        }
        Dec(Int(I256::from_i128(1_000_000_000_000_000_000)))
    }

    /// Ten whole units.
    fn TEN() -> (r: Self)
        ensures
            r.0.0.value() == 10 * pow10(18),
    {
        proof {
            lemma_pow10_18();
        }
        Dec(Int(I256::from_i128(1_000_000_000_000_000_0000)))
    }

    fn ZERO() -> (r: Self)
        ensures
            r.0.0.value() == 0,
    {
        Dec(Int(I256::zero()))
    }
}

impl Number for Dec<I256, 18> {
    fn checked_add(self, other: Self) -> (r: MathResult<Self>)
        ensures
            r is Ok <==> fits_i256(self.0.0.value() + other.0.0.value()),
            r matches Ok(v) ==> v.0.0.value() == self.0.0.value() + other.0.0.value(),
            r matches Err(e) ==> e is OverflowAdd,
    {
        match self.0.checked_add(other.0) {
            Ok(v) => Ok(Dec(v)),
            Err(e) => Err(e),
        }
    }

    fn checked_sub(self, other: Self) -> (r: MathResult<Self>)
        ensures
            r is Ok <==> fits_i256(self.0.0.value() - other.0.0.value()),
            r matches Ok(v) ==> v.0.0.value() == self.0.0.value() - other.0.0.value(),
            r matches Err(e) ==> e is OverflowSub,
    {
        match self.0.checked_sub(other.0) {
            Ok(v) => Ok(Dec(v)),
            Err(e) => Err(e),
        }
    }

    /// The product, rounded towards zero.
    fn checked_mul(self, other: Self) -> (r: MathResult<Self>)
        ensures
            r is Ok <==> fits_i256(tdiv(self.0.0.value() * other.0.0.value(), pow10(18))),
            r matches Ok(v) ==> v.0.0.value() == tdiv(self.0.0.value() * other.0.0.value(), pow10(18)),
            r matches Err(e) ==> e matches MathError::OverflowMul { a: x, b: y } && x@ == dec_display(self.0.0.value(), 18)
                && y@ == dec_display(other.0.0.value(), 18),
    {
        proof {
            lemma_pow10_18();
        }
        let precision = Int(I256::from_i128(1_000_000_000_000_000_000));
        match self.0.checked_multiply_ratio(other.0, precision) {
            Ok(v) => Ok(Dec(v)),
            Err(_) => Err(MathError::overflow_mul(self, other)),
        }
    }

    /// The quotient, rounded towards zero.
    fn checked_div(self, other: Self) -> (r: MathResult<Self>)
        ensures
            r is Ok <==> other.0.0.value() != 0 && fits_i256(tdiv(self.0.0.value() * pow10(18), other.0.0.value())),
            r matches Ok(v) ==> v.0.0.value() == tdiv(self.0.0.value() * pow10(18), other.0.0.value()),
            r matches Err(e) ==> (other.0.0.value() == 0 ==> e is DivisionByZero) && (other.0.0.value() != 0 ==> e is OverflowConversion),
    {
        Self::checked_from_ratio(self.0, other.0)
    }

    fn checked_rem(self, other: Self) -> (r: MathResult<Self>)
        ensures
            r is Ok <==> crate::wide::i256_div_defined(self.0.0.value(), other.0.0.value()),
            r matches Ok(v) ==> v.0.0.value() == trem(self.0.0.value(), other.0.0.value()),
            r matches Err(e) ==> e is DivisionByZero,
    {
        match self.0.checked_rem(other.0) {
            Ok(v) => Ok(Dec(v)),
            Err(e) => Err(e),
        }
    }

    /// The power by squaring and multiplying, each product rounded towards
    /// zero.
    fn checked_pow(self, exp: u32) -> (r: MathResult<Self>)
        ensures
            r is Ok <==> dec_pow(self.0.0.value(), exp as nat, pow10(18), i256_min(), i256_max()) is Some,
            r matches Ok(v) ==> dec_pow(self.0.0.value(), exp as nat, pow10(18), i256_min(), i256_max()) == Some(v.0.0.value()),
            r matches Err(e) ==> e matches MathError::OverflowPow { a: x, b: y } && x@ == dec_display(dec_pow_failure(self.0.0.value(), exp as nat, pow10(18), i256_min(), i256_max()).0, 18)
                && y@ == nat_text(dec_pow_failure(self.0.0.value(), exp as nat, pow10(18), i256_min(), i256_max()).1 as int),
    {
        proof {
            lemma_pow10_18();
        }
        if exp == 0 {
            return Ok(Dec(Int(I256::from_i128(1_000_000_000_000_000_000))));
        }
        let mut x = self;
        let mut y: Self = Dec(Int(I256::from_i128(1_000_000_000_000_000_000)));
        let mut e = exp;
        while e > 1
            invariant
                e >= 1,
                pow10(18) == 1_000_000_000_000_000_000,
                dec_pow(self.0.0.value(), exp as nat, pow10(18), i256_min(), i256_max()) == dec_pow_loop(x.0.0.value(), y.0.0.value(), e as nat, pow10(18), i256_min(), i256_max()),
                dec_pow_failure(self.0.0.value(), exp as nat, pow10(18), i256_min(), i256_max()) == dec_pow_loop_failure(x.0.0.value(), y.0.0.value(), e as nat, pow10(18), i256_min(), i256_max()),
            decreases e,
        {
            if e % 2 == 0 {
                x = match x.checked_mul(x) {
                    Ok(v) => v,
                    Err(_) => {
                        return Err(MathError::overflow_pow(x, e));
                    },
                };
                e = e / 2;
            } else {
                y = match x.checked_mul(y) {
                    Ok(v) => v,
                    Err(_) => {
                        return Err(MathError::overflow_pow(x, e));
                    },
                };
                x = match x.checked_mul(x) {
                    Ok(v) => v,
                    Err(_) => {
                        return Err(MathError::overflow_pow(x, e));
                    },
                };
                e = (e - 1) / 2;
            }
        }
        match x.checked_mul(y) {
            Ok(v) => Ok(v),
            Err(_) => Err(MathError::overflow_pow(x, e)),
        }
    }

    /// The square root: the inner integer is scaled up by the largest power
    /// of a hundred that keeps it in range, its floored root taken, and the
    /// result scaled to 18 decimal places.
    fn checked_sqrt(self) -> (r: MathResult<Self>)
        ensures
            r is Ok <==> self.0.0.value() >= 0,
            r matches Ok(v) ==> ({
                let k = dec_sqrt_scale(self.0.0.value(), 9, i256_max());
                let m = pow10((9 - k) as nat);
                v.0.0.value() % m == 0 && is_isqrt(self.0.0.value() * pow(100, k), v.0.0.value() / m)
            }),
            r matches Err(e) ==> e matches MathError::NegativeSqrt { a: x } && x@ == dec_display(self.0.0.value(), 18),
    {
        if self.0.0.is_negative() {
            return Err(MathError::negative_sqrt(self));
        }
        let ghost a = self.0.0.value();
        proof {
            lemma_pow10_18();
            lemma_i256_range(self.0.0);
            lemma_dec_sqrt_scale(a, 9, i256_max());
        }
        let mut i: u32 = 9;
        loop
            invariant
                a == self.0.0.value(),
                0 <= a <= i256_max(),
                i <= 9,
                dec_sqrt_scale(a, 9, i256_max()) <= i,
                forall|j: nat| dec_sqrt_scale(a, 9, i256_max()) < j <= 9 ==> #[trigger] (a * pow(100, j)) > i256_max(),
                a * pow(100, dec_sqrt_scale(a, 9, i256_max())) <= i256_max(),
            decreases i,
        {
            let inner_mul = pow10_i128(2 * i);
            proof {
                lemma_pow100_is_pow10(i as nat);
                assert((2 * i) as nat == 2 * (i as nat));
                assert(inner_mul == pow(100, i as nat));
                lemma_pow_positive(100, i as nat);
            }
            match self.0.checked_mul(Int(I256::from_i128(inner_mul))) {
                Ok(inner) => {
                    proof {
                        assert(inner.0.value() == a * pow(100, i as nat));
                        assert(inner.0.value() >= 0) by (nonlinear_arith)
                            requires inner.0.value() == a * pow(100, i as nat), a >= 0, pow(100, i as nat) > 0;
                        lemma_pow10_24();
                        lemma_pow_monotone(10, 9, 12);
                        lemma_pow10_bounds((9 - i) as nat);
                        lemma_pow_monotone(10, (9 - i) as nat, 9);
                    }
                    let root = match inner.checked_sqrt() {
                        Ok(root) => root,
                        Err(e) => {
                            return Err(e);
                        },
                    };
                    let outer_mul = pow10_i128(9 - i);
                    proof {
                        lemma_i256_range(inner.0);
                        lemma_root_bound_256(inner.0.value(), root.0.value());
                        assert(0 <= root.0.value() * outer_mul <= b128() * 1_000_000_000_000) by (nonlinear_arith)
                            requires
                                0 <= root.0.value() <= b128(),
                                1 <= outer_mul <= pow10(9),
                                pow10(9) <= 1_000_000_000_000,
                        ;
                    }
                    let scaled = match root.checked_mul(Int(I256::from_i128(outer_mul))) {
                        Ok(v) => v,
                        Err(_) => {
                            return Err(MathError::SqrtFailed);
                        },
                    };
                    proof {
                        assert((root.0.value() * outer_mul) % (outer_mul as int) == 0
                            && (root.0.value() * outer_mul) / (outer_mul as int) == root.0.value()) by (nonlinear_arith)
                            requires
                                outer_mul >= 1,
                                root.0.value() >= 0,
                        ;
                    }
                    return Ok(Dec(scaled));
                },
                Err(_) => {},
            }
            if i == 0 {
                return Err(MathError::SqrtFailed);
            }
            i = i - 1;
        }
    }

    fn saturating_add(self, other: Self) -> (r: Self)
        ensures
            r.0.0.value() == clamp(self.0.0.value() + other.0.0.value(), i256_min(), i256_max()),
    {
        Dec(self.0.saturating_add(other.0))
    }

    fn saturating_sub(self, other: Self) -> (r: Self)
        ensures
            r.0.0.value() == clamp(self.0.0.value() - other.0.0.value(), i256_min(), i256_max()),
    {
        Dec(self.0.saturating_sub(other.0))
    }

    fn saturating_mul(self, other: Self) -> (r: Self)
        ensures
            r.0.0.value() == (if fits_i256(tdiv(self.0.0.value() * other.0.0.value(), pow10(18))) {
                tdiv(self.0.0.value() * other.0.0.value(), pow10(18))
            } else if (self.0.0.value() < 0) == (other.0.0.value() < 0) {
                i256_max()
            } else {
                i256_min()
            }),
    {
        match self.checked_mul(other) {
            Ok(v) => v,
            Err(_) => {
                if self.0.is_negative() == other.0.is_negative() {
                    Dec(Int::<I256>::MAX())
                } else {
                    Dec(Int::<I256>::MIN())
                }
            },
        }
    }

    fn saturating_pow(self, exp: u32) -> (r: Self)
        ensures
            r.0.0.value() == (match dec_pow(self.0.0.value(), exp as nat, pow10(18), i256_min(), i256_max()) {
                Some(v) => v,
                None => if self.0.0.value() < 0 && exp % 2 == 1 { i256_min() } else { i256_max() },
            }),
    {
        match self.checked_pow(exp) {
            Ok(v) => v,
            Err(_) => {
                if self.0.is_negative() && exp % 2 == 1 {
                    Dec(Int::<I256>::MIN())
                } else {
                    Dec(Int::<I256>::MAX())
                }
            },
        }
    }
}

} // verus!
