use vstd::prelude::*;
use crate::arith::{abs, ceil_div, floor_div, lemma_pow10_bounds, lemma_pow10_step, lemma_pow_positive, lemma_quotient_room, lemma_round_from_tdiv, lemma_tdiv_trem, pow, pow10, tdiv};
use crate::is_zero::IsZero;
use crate::multiply_ratio::MultiplyRatio;
use crate::number_const::NumberConst;
use crate::sign::Sign;
use crate::error::{mul_error, ten_pow_error, MathError, MathResult};
use crate::int_types::Int;
use crate::next::NextNumber;
use crate::number::Number;
use crate::prev::PrevNumber;
use crate::display::{int_text_of, int_to_text, nat_text, nat_to_text};
use crate::parse::{dec_text, int_text, parse_dec, parse_int, parse_udec, parse_uint, ParseFailure};

use vstd::string::{StringExecFns, StringSliceAdditionalSpecFns};

verus! {

/// A fixed-point decimal number: the inner integer counts units of
/// `10^-S`.
#[derive(Clone, Copy, Debug, PartialEq, Eq, Ord, Hash)]
pub struct Dec<U, const S: u32>(pub Int<U>);

impl<U, const S: u32> Dec<U, S> {
    /// Create a new [`Dec`] _without_ adding decimal places.
    pub fn raw(value: Int<U>) -> (r: Self)
        ensures
            r.0 == value,
    {
        Dec(value)
    }

    /// The number of decimal places.
    #[allow(non_snake_case)]
    pub fn DECIMAL_PLACES() -> (r: u32)
        ensures
            r == S,
    {
        S
    }
}

/// Ten to the power `n`, for the powers that fit in 128 bits.
pub fn pow10_u128(n: u32) -> (r: u128)
    requires
        n <= 38,
    ensures
        r == pow10(n as nat),
{
    let mut r: u128 = 1;
    let mut i: u32 = 0;
    while i < n
        invariant
            i <= n <= 38,
            r == pow10(i as nat),
        decreases n - i,
    {
        proof {
            lemma_pow10_step(i as nat);
            lemma_pow10_bounds((i + 1) as nat);
        }
        r = r * 10;
        i = i + 1;
    }
    r
}

/// Ten to the power `n`, for the powers that fit in 128 bits.
pub fn pow10_i128(n: u32) -> (r: i128)
    requires
        n <= 38,
    ensures
        r == pow10(n as nat),
{
    proof {
        lemma_pow10_bounds(n as nat);
    }
    pow10_u128(n) as i128
}

/// The result of one multiplication of two decimals with `p` units to the
/// one, rounded towards zero, when it lies in `[lo, hi]`.
pub open spec fn dec_mul(a: int, b: int, p: int, lo: int, hi: int) -> Option<int> {
    let v = tdiv(a * b, p);
    if lo <= v && v <= hi { Some(v) } else { None }
}

/// The square-and-multiply loop of the decimal power: `x` is the running
/// square, `y` the running product, `exp` the exponent left.
pub open spec fn dec_pow_loop(x: int, y: int, exp: nat, p: int, lo: int, hi: int) -> Option<int>
    decreases exp,
{
    if exp <= 1 {
        dec_mul(x, y, p, lo, hi)
    } else if exp % 2 == 0 {
        match dec_mul(x, x, p, lo, hi) {
            Some(x2) => dec_pow_loop(x2, y, exp / 2, p, lo, hi),
            None => None,
        }
    } else {
        match dec_mul(x, y, p, lo, hi) {
            Some(y2) => match dec_mul(x, x, p, lo, hi) {
                Some(x2) => dec_pow_loop(x2, y2, ((exp - 1) / 2) as nat, p, lo, hi),
                None => None,
            },
            None => None,
        }
    }
}

/// A decimal raised to `exp`, each multiplication rounded towards zero;
/// `None` when an intermediate product leaves `[lo, hi]`.
pub open spec fn dec_pow(x: int, exp: nat, p: int, lo: int, hi: int) -> Option<int> {
    if exp == 0 { Some(p) } else { dec_pow_loop(x, p, exp, p, lo, hi) }
}

/// Where the power by squaring stops when a product leaves `[lo, hi]`: the
/// base and the exponent that are left at that step (the result is
/// meaningless when no product leaves the range).
pub open spec fn dec_pow_loop_failure(x: int, y: int, exp: nat, p: int, lo: int, hi: int) -> (int, nat)
    decreases exp,
{
    if exp <= 1 {
        (x, exp)
    } else if exp % 2 == 0 {
        match dec_mul(x, x, p, lo, hi) {
            Some(x2) => dec_pow_loop_failure(x2, y, exp / 2, p, lo, hi),
            None => (x, exp),
        }
    } else {
        match dec_mul(x, y, p, lo, hi) {
            Some(y2) => match dec_mul(x, x, p, lo, hi) {
                Some(x2) => dec_pow_loop_failure(x2, y2, ((exp - 1) / 2) as nat, p, lo, hi),
                None => (x, exp),
            },
            None => (x, exp),
        }
    }
}

/// The base and the exponent left when `dec_pow(x, exp, ..)` fails.
pub open spec fn dec_pow_failure(x: int, exp: nat, p: int, lo: int, hi: int) -> (int, nat) {
    dec_pow_loop_failure(x, p, exp, p, lo, hi)
}

/// The scale used by the decimal square root: the largest `i <= k` such that
/// `a * 100^i` stays at or below `hi`, or zero.
pub open spec fn dec_sqrt_scale(a: int, k: nat, hi: int) -> nat
    decreases k,
{
    if k == 0 || a * pow(100, k) <= hi { k } else { dec_sqrt_scale(a, (k - 1) as nat, hi) }
}

pub proof fn lemma_dec_sqrt_scale(a: int, k: nat, hi: int)
    requires
        0 <= a <= hi,
    ensures
        dec_sqrt_scale(a, k, hi) <= k,
        a * pow(100, dec_sqrt_scale(a, k, hi)) <= hi,
        forall|j: nat| dec_sqrt_scale(a, k, hi) < j <= k ==> #[trigger] (a * pow(100, j)) > hi,
    decreases k,
{
    if k > 0 && a * pow(100, k) > hi {
        lemma_dec_sqrt_scale(a, (k - 1) as nat, hi);
    }
    if k == 0 {
        assert(pow(100, 0) == 1);
    }
}

impl<const S: u32> Dec<u128, S> {
    /// Create a new [`Dec`] adding decimal places: `x` whole units.
    pub fn new(x: u128) -> (r: Self)
        requires
            S <= 38,
            u128::MIN <= x * pow10(S as nat) && x * pow10(S as nat) <= u128::MAX,
        ensures
            r.0.0 == x * pow10(S as nat),
    {
        Dec(Int(x * pow10_u128(S)))
    }

    /// `x` hundredths.
    pub fn new_percent(x: u128) -> (r: Self)
        requires
            2 <= S <= 38,
            u128::MIN <= x * pow10((S - 2) as nat) && x * pow10((S - 2) as nat) <= u128::MAX,
        ensures
            r.0.0 == x * pow10((S - 2) as nat),
    {
        Dec(Int(x * pow10_u128(S - 2)))
    }

    /// `x` thousandths.
    pub fn new_permille(x: u128) -> (r: Self)
        requires
            3 <= S <= 38,
            u128::MIN <= x * pow10((S - 3) as nat) && x * pow10((S - 3) as nat) <= u128::MAX,
        ensures
            r.0.0 == x * pow10((S - 3) as nat),
    {
        Dec(Int(x * pow10_u128(S - 3)))
    }

    /// `x` basis points (ten-thousandths).
    pub fn new_bps(x: u128) -> (r: Self)
        requires
            4 <= S <= 38,
            u128::MIN <= x * pow10((S - 4) as nat) && x * pow10((S - 4) as nat) <= u128::MAX,
        ensures
            r.0.0 == x * pow10((S - 4) as nat),
    {
        Dec(Int(x * pow10_u128(S - 4)))
    }
}

impl<const S: u32> Dec<i128, S> {
    /// Create a new [`Dec`] adding decimal places: `x` whole units.
    pub fn new(x: i128) -> (r: Self)
        requires
            S <= 38,
            i128::MIN <= x * pow10(S as nat) && x * pow10(S as nat) <= i128::MAX,
        ensures
            r.0.0 == x * pow10(S as nat),
    {
        Dec(Int(x * pow10_i128(S)))
    }

    /// `x` hundredths.
    pub fn new_percent(x: i128) -> (r: Self)
        requires
            2 <= S <= 38,
            i128::MIN <= x * pow10((S - 2) as nat) && x * pow10((S - 2) as nat) <= i128::MAX,
        ensures
            r.0.0 == x * pow10((S - 2) as nat),
    {
        Dec(Int(x * pow10_i128(S - 2)))
    }

    /// `x` thousandths.
    pub fn new_permille(x: i128) -> (r: Self)
        requires
            3 <= S <= 38,
            i128::MIN <= x * pow10((S - 3) as nat) && x * pow10((S - 3) as nat) <= i128::MAX,
        ensures
            r.0.0 == x * pow10((S - 3) as nat),
    {
        Dec(Int(x * pow10_i128(S - 3)))
    }

    /// `x` basis points (ten-thousandths).
    pub fn new_bps(x: i128) -> (r: Self)
        requires
            4 <= S <= 38,
            i128::MIN <= x * pow10((S - 4) as nat) && x * pow10((S - 4) as nat) <= i128::MAX,
        ensures
            r.0.0 == x * pow10((S - 4) as nat),
    {
        Dec(Int(x * pow10_i128(S - 4)))
    }
}

impl<const S: u32> Dec<u128, S> {
    /// The decimal closest to `numerator / denominator`, rounded towards
    /// zero.
    pub fn checked_from_ratio(numerator: Int<u128>, denominator: Int<u128>) -> (r: MathResult<Self>)
        requires
            S <= 38,
        ensures
            r is Ok <==> denominator.0 != 0 && u128::MIN <= tdiv(numerator.0 * pow10(S as nat), denominator.0 as int) && tdiv(numerator.0 * pow10(S as nat), denominator.0 as int) <= u128::MAX,
            r matches Ok(v) ==> v.0.0 == tdiv(numerator.0 * pow10(S as nat), denominator.0 as int),
            r matches Err(e) ==> (denominator.0 == 0 ==> e is DivisionByZero) && (denominator.0 != 0 ==> e is OverflowConversion),
    {
        let precision = Int(pow10_u128(S));
        match numerator.checked_multiply_ratio(precision, denominator) {
            Ok(v) => Ok(Dec(v)),
            Err(e) => Err(e),
        }
    }

    /// The decimal closest to `numerator / denominator`, rounded up.
    pub fn checked_from_ratio_ceil(numerator: Int<u128>, denominator: Int<u128>) -> (r: MathResult<Self>)
        requires
            S <= 38,
        ensures
            r is Ok <==> denominator.0 != 0 && u128::MIN <= ceil_div(numerator.0 * pow10(S as nat), denominator.0 as int) && ceil_div(numerator.0 * pow10(S as nat), denominator.0 as int) <= u128::MAX,
            r matches Ok(v) ==> v.0.0 == ceil_div(numerator.0 * pow10(S as nat), denominator.0 as int),
            r matches Err(e) ==> (denominator.0 == 0 ==> e is DivisionByZero) && (denominator.0 != 0 ==> e is OverflowConversion),
    {
        let precision = Int(pow10_u128(S));
        match numerator.checked_multiply_ratio_ceil(precision, denominator) {
            Ok(v) => Ok(Dec(v)),
            Err(e) => Err(e),
        }
    }

    /// The decimal closest to `numerator / denominator`, rounded down.
    pub fn checked_from_ratio_floor(numerator: Int<u128>, denominator: Int<u128>) -> (r: MathResult<Self>)
        requires
            S <= 38,
        ensures
            r is Ok <==> denominator.0 != 0 && u128::MIN <= floor_div(numerator.0 * pow10(S as nat), denominator.0 as int) && floor_div(numerator.0 * pow10(S as nat), denominator.0 as int) <= u128::MAX,
            r matches Ok(v) ==> v.0.0 == floor_div(numerator.0 * pow10(S as nat), denominator.0 as int),
            r matches Err(e) ==> (denominator.0 == 0 ==> e is DivisionByZero) && (denominator.0 != 0 ==> e is OverflowConversion),
    {
        let precision = Int(pow10_u128(S));
        match numerator.checked_multiply_ratio_floor(precision, denominator) {
            Ok(v) => Ok(Dec(v)),
            Err(e) => Err(e),
        }
    }

    /// The decimal whose `decimal_places` last digits are `atomics`'
    /// fractional digits: digits beyond `S` are cut off.
    pub fn checked_from_atomics(atomics: Int<u128>, decimal_places: u32) -> (r: MathResult<Self>)
        ensures
            decimal_places < S ==> {
                let f = pow10((S - decimal_places) as nat);
                &&& r is Ok <==> f <= u128::MAX && u128::MIN <= atomics.0 * f && atomics.0 * f <= u128::MAX
                &&& r matches Ok(v) ==> v.0.0 == atomics.0 * f
                &&& r matches Err(e) ==> (f > u128::MAX ==> ten_pow_error(e, (S - decimal_places) as nat)) && (f <= u128::MAX ==> mul_error(e, atomics.0 as int, f))
            },
            decimal_places == S ==> r == Ok::<Self, MathError>(Dec(atomics)),
            decimal_places > S ==> {
                let f = pow10((decimal_places - S) as nat);
                r matches Ok(v) && v.0.0 == (if f <= u128::MAX { atomics.0 as int / f } else { 0 })
            },
    {
        proof {
            if decimal_places < S {
                lemma_pow_positive(10, (S - decimal_places) as nat);
            } else if decimal_places > S {
                lemma_pow_positive(10, (decimal_places - S) as nat);
            }
        }
        if decimal_places < S {
            let factor = match Int::<u128>::TEN().checked_pow(S - decimal_places) {
                Ok(f) => f,
                Err(e) => {
                    return Err(e);
                },
            };
            match atomics.checked_mul(factor) {
                Ok(v) => Ok(Dec(v)),
                Err(e) => Err(e),
            }
        } else if decimal_places == S {
            Ok(Dec(atomics))
        } else {
            match Int::<u128>::TEN().checked_pow(decimal_places - S) {
                Ok(factor) => {
                    proof {
                        lemma_pow_positive(10, (decimal_places - S) as nat);
                    }
                    match atomics.checked_div(factor) {
                        Ok(v) => Ok(Dec(v)),
                        Err(e) => Err(e),
                    }
                },
                Err(_) => Ok(Dec(Int::<u128>::ZERO())),
            }
        }
    }

    /// The integer part, rounded towards zero.
    pub fn into_int(self) -> (r: Int<u128>)
        requires
            S <= 38,
        ensures
            r.0 == tdiv(self.0.0 as int, pow10(S as nat)),
    {
        proof {
            lemma_pow10_bounds(S as nat);
        }
        let precision = Int(pow10_u128(S));
        match self.0.checked_div(precision) {
            Ok(v) => {
                proof {
                    lemma_round_from_tdiv(self.0.0 as int, pow10(S as nat));
                }
                v
            },
            Err(_) => Int::<u128>::ZERO(),
        }
    }

    /// The integer part, rounded towards negative infinity.
    pub fn into_int_floor(self) -> (r: Int<u128>)
        requires
            S <= 38,
        ensures
            r.0 == floor_div(self.0.0 as int, pow10(S as nat)),
    {
        let ghost a = self.0.0 as int;
        let ghost p = pow10(S as nat);
        proof {
            lemma_pow10_bounds(S as nat);
            lemma_round_from_tdiv(a, p);
            lemma_tdiv_trem(a, p);
        }
        let whole = self.into_int();
        let precision = Int(pow10_u128(S));
        let rem = match self.0.checked_rem(precision) {
            Ok(v) => v,
            Err(_) => Int::<u128>::ZERO(),
        };
        if rem.0 < 0u128 {
            proof {
                lemma_quotient_room(a, p);
            }
            Int(whole.0 - 1)
        } else {
            whole
        }
    }

    /// The integer part, rounded towards positive infinity.
    pub fn into_int_ceil(self) -> (r: Int<u128>)
        requires
            S <= 38,
        ensures
            r.0 == ceil_div(self.0.0 as int, pow10(S as nat)),
    {
        let ghost a = self.0.0 as int;
        let ghost p = pow10(S as nat);
        proof {
            lemma_pow10_bounds(S as nat);
            lemma_round_from_tdiv(a, p);
            lemma_tdiv_trem(a, p);
        }
        let whole = self.into_int();
        let precision = Int(pow10_u128(S));
        let rem = match self.0.checked_rem(precision) {
            Ok(v) => v,
            Err(_) => Int::<u128>::ZERO(),
        };
        if rem.0 > 0 {
            proof {
                lemma_quotient_room(a, p);
            }
            Int(whole.0 + 1)
        } else {
            whole
        }
    }

    /// The same number with `S1` decimal places: digits beyond `S1` are cut
    /// off.
    pub fn conver_precision<const S1: u32>(self) -> (r: MathResult<Dec<u128, S1>>)
        ensures
            S < S1 ==> {
                let f = pow10((S1 - S) as nat);
                &&& r is Ok <==> f <= u128::MAX && u128::MIN <= self.0.0 * f && self.0.0 * f <= u128::MAX
                &&& r matches Ok(v) ==> v.0.0 == self.0.0 * f
                &&& r matches Err(e) ==> (f > u128::MAX ==> ten_pow_error(e, (S1 - S) as nat)) && (f <= u128::MAX ==> mul_error(e, self.0.0 as int, f))
            },
            S == S1 ==> r == Ok::<Dec<u128, S1>, MathError>(Dec(self.0)),
            S > S1 ==> {
                let f = pow10((S - S1) as nat);
                &&& r is Ok <==> f <= u128::MAX
                &&& r matches Ok(v) ==> v.0.0 == self.0.0 as int / f
                &&& r matches Err(e) ==> ten_pow_error(e, (S - S1) as nat)
            },
    {
        proof {
            if S < S1 {
                lemma_pow_positive(10, (S1 - S) as nat);
            } else if S > S1 {
                lemma_pow_positive(10, (S - S1) as nat);
            }
        }
        if S < S1 {
            let factor = match Int::<u128>::TEN().checked_pow(S1 - S) {
                Ok(f) => f,
                Err(e) => {
                    return Err(e);
                },
            };
            match self.0.checked_mul(factor) {
                Ok(v) => Ok(Dec(v)),
                Err(e) => Err(e),
            }
        } else if S == S1 {
            Ok(Dec(self.0))
        } else {
            let factor = match Int::<u128>::TEN().checked_pow(S - S1) {
                Ok(f) => f,
                Err(e) => {
                    return Err(e);
                },
            };
            proof {
                lemma_pow_positive(10, (S - S1) as nat);
            }
            match self.0.checked_div(factor) {
                Ok(v) => Ok(Dec(v)),
                Err(e) => Err(e),
            }
        }
    }
}

impl Int<u128> {
    /// The integer as a decimal with `S` decimal places.
    pub fn checked_into_dec<const S: u32>(self) -> (r: MathResult<Dec<u128, S>>)
        requires
            S <= 38,
        ensures
            r is Ok <==> u128::MIN <= self.0 * pow10(S as nat) && self.0 * pow10(S as nat) <= u128::MAX,
            r matches Ok(v) ==> v.0.0 == self.0 * pow10(S as nat),
            r matches Err(e) ==> e matches MathError::OverflowConversion { value: v } && v@ == int_text_of(self.0 as int),
    {
        let precision = Int(pow10_u128(S));
        match self.checked_mul(precision) {
            Ok(v) => Ok(Dec(v)),
            Err(_) => Err(MathError::overflow_conversion::<Int<u128>, Dec<u128, S>>(self)),
        }
    }
}

impl<const S: u32> IsZero for Dec<u128, S> {
    fn is_zero(&self) -> (r: bool)
        ensures
            r == (self.0.0 == 0),
    {
        self.0.is_zero()
    }

    fn is_non_zero(&self) -> (r: bool)
        ensures
            r == (self.0.0 != 0),
    {
        !self.is_zero()
    }
}

impl<const S: u32> Sign for Dec<u128, S> {
    fn checked_abs(self) -> (r: MathResult<Self>)
        ensures
            r is Ok,
            r matches Ok(v) ==> v.0.0 == abs(self.0.0 as int),
            r matches Err(e) ==> e is OverflowConversion,
    {
        match self.0.checked_abs() {
            Ok(v) => Ok(Dec(v)),
            Err(e) => Err(e),
        }
    }

    fn is_negative(&self) -> (r: bool)
        ensures
            r == (self.0.0 < 0),
    {
        self.0.is_negative()
    }

    fn is_positive(&self) -> (r: bool)
        ensures
            r == (self.0.0 > 0),
    {
        self.0.is_positive()
    }

    fn is_non_negative(&self) -> (r: bool)
        ensures
            r == (self.0.0 >= 0),
    {
        !self.is_negative()
    }

    fn is_non_positive(&self) -> (r: bool)
        ensures
            r == (self.0.0 <= 0),
    {
        !self.is_positive()
    }

    fn checked_neg(self) -> (r: MathResult<Self>)
        ensures
            r is Ok <==> self.0.0 == 0,
            r matches Ok(v) ==> v.0.0 == -self.0.0,
            r matches Err(e) ==> e is InvalidNegation,
    {
        match self.0.checked_neg() {
            Ok(v) => Ok(Dec(v)),
            Err(e) => Err(e),
        }
    }
}

impl<const S: u32> Dec<i128, S> {
    /// The decimal closest to `numerator / denominator`, rounded towards
    /// zero.
    pub fn checked_from_ratio(numerator: Int<i128>, denominator: Int<i128>) -> (r: MathResult<Self>)
        requires
            S <= 38,
        ensures
            r is Ok <==> denominator.0 != 0 && i128::MIN <= tdiv(numerator.0 * pow10(S as nat), denominator.0 as int) && tdiv(numerator.0 * pow10(S as nat), denominator.0 as int) <= i128::MAX,
            r matches Ok(v) ==> v.0.0 == tdiv(numerator.0 * pow10(S as nat), denominator.0 as int),
            r matches Err(e) ==> (denominator.0 == 0 ==> e is DivisionByZero) && (denominator.0 != 0 ==> e is OverflowConversion),
    {
        let precision = Int(pow10_i128(S));
        match numerator.checked_multiply_ratio(precision, denominator) {
            Ok(v) => Ok(Dec(v)),
            Err(e) => Err(e),
        }
    }

    /// The decimal closest to `numerator / denominator`, rounded up.
    pub fn checked_from_ratio_ceil(numerator: Int<i128>, denominator: Int<i128>) -> (r: MathResult<Self>)
        requires
            S <= 38,
        ensures
            r is Ok <==> denominator.0 != 0 && i128::MIN <= ceil_div(numerator.0 * pow10(S as nat), denominator.0 as int) && ceil_div(numerator.0 * pow10(S as nat), denominator.0 as int) <= i128::MAX,
            r matches Ok(v) ==> v.0.0 == ceil_div(numerator.0 * pow10(S as nat), denominator.0 as int),
            r matches Err(e) ==> (denominator.0 == 0 ==> e is DivisionByZero) && (denominator.0 != 0 ==> e is OverflowConversion),
    {
        let precision = Int(pow10_i128(S));
        match numerator.checked_multiply_ratio_ceil(precision, denominator) {
            Ok(v) => Ok(Dec(v)),
            Err(e) => Err(e),
        }
    }

    /// The decimal closest to `numerator / denominator`, rounded down.
    pub fn checked_from_ratio_floor(numerator: Int<i128>, denominator: Int<i128>) -> (r: MathResult<Self>)
        requires
            S <= 38,
        ensures
            r is Ok <==> denominator.0 != 0 && i128::MIN <= floor_div(numerator.0 * pow10(S as nat), denominator.0 as int) && floor_div(numerator.0 * pow10(S as nat), denominator.0 as int) <= i128::MAX,
            r matches Ok(v) ==> v.0.0 == floor_div(numerator.0 * pow10(S as nat), denominator.0 as int),
            r matches Err(e) ==> (denominator.0 == 0 ==> e is DivisionByZero) && (denominator.0 != 0 ==> e is OverflowConversion),
    {
        let precision = Int(pow10_i128(S));
        match numerator.checked_multiply_ratio_floor(precision, denominator) {
            Ok(v) => Ok(Dec(v)),
            Err(e) => Err(e),
        }
    }

    /// The decimal whose `decimal_places` last digits are `atomics`'
    /// fractional digits: digits beyond `S` are cut off.
    pub fn checked_from_atomics(atomics: Int<i128>, decimal_places: u32) -> (r: MathResult<Self>)
        ensures
            decimal_places < S ==> {
                let f = pow10((S - decimal_places) as nat);
                &&& r is Ok <==> f <= i128::MAX && i128::MIN <= atomics.0 * f && atomics.0 * f <= i128::MAX
                &&& r matches Ok(v) ==> v.0.0 == atomics.0 * f
                &&& r matches Err(e) ==> (f > i128::MAX ==> ten_pow_error(e, (S - decimal_places) as nat)) && (f <= i128::MAX ==> mul_error(e, atomics.0 as int, f))
            },
            decimal_places == S ==> r == Ok::<Self, MathError>(Dec(atomics)),
            decimal_places > S ==> {
                let f = pow10((decimal_places - S) as nat);
                r matches Ok(v) && v.0.0 == (if f <= i128::MAX { tdiv(atomics.0 as int, f) } else { 0 })
            },
    {
        proof {
            if decimal_places < S {
                lemma_pow_positive(10, (S - decimal_places) as nat);
            } else if decimal_places > S {
                lemma_pow_positive(10, (decimal_places - S) as nat);
            }
        }
        if decimal_places < S {
            let factor = match Int::<i128>::TEN().checked_pow(S - decimal_places) {
                Ok(f) => f,
                Err(e) => {
                    return Err(e);
                },
            };
            match atomics.checked_mul(factor) {
                Ok(v) => Ok(Dec(v)),
                Err(e) => Err(e),
            }
        } else if decimal_places == S {
            Ok(Dec(atomics))
        } else {
            match Int::<i128>::TEN().checked_pow(decimal_places - S) {
                Ok(factor) => {
                    proof {
                        lemma_pow_positive(10, (decimal_places - S) as nat);
                    }
                    match atomics.checked_div(factor) {
                        Ok(v) => Ok(Dec(v)),
                        Err(e) => Err(e),
                    }
                },
                Err(_) => Ok(Dec(Int::<i128>::ZERO())),
            }
        }
    }

    /// The integer part, rounded towards zero.
    pub fn into_int(self) -> (r: Int<i128>)
        requires
            S <= 38,
        ensures
            r.0 == tdiv(self.0.0 as int, pow10(S as nat)),
    {
        proof {
            lemma_pow10_bounds(S as nat);
        }
        let precision = Int(pow10_i128(S));
        match self.0.checked_div(precision) {
            Ok(v) => {
                proof {
                    
                }
                v
            },
            Err(_) => Int::<i128>::ZERO(),
        }
    }

    /// The integer part, rounded towards negative infinity.
    pub fn into_int_floor(self) -> (r: Int<i128>)
        requires
            S <= 38,
        ensures
            r.0 == floor_div(self.0.0 as int, pow10(S as nat)),
    {
        let ghost a = self.0.0 as int;
        let ghost p = pow10(S as nat);
        proof {
            lemma_pow10_bounds(S as nat);
            lemma_round_from_tdiv(a, p);
            lemma_tdiv_trem(a, p);
        }
        let whole = self.into_int();
        let precision = Int(pow10_i128(S));
        let rem = match self.0.checked_rem(precision) {
            Ok(v) => v,
            Err(_) => Int::<i128>::ZERO(),
        };
        if rem.0 < 0 {
            proof {
                lemma_quotient_room(a, p);
            }
            Int(whole.0 - 1)
        } else {
            whole
        }
    }

    /// The integer part, rounded towards positive infinity.
    pub fn into_int_ceil(self) -> (r: Int<i128>)
        requires
            S <= 38,
        ensures
            r.0 == ceil_div(self.0.0 as int, pow10(S as nat)),
    {
        let ghost a = self.0.0 as int;
        let ghost p = pow10(S as nat);
        proof {
            lemma_pow10_bounds(S as nat);
            lemma_round_from_tdiv(a, p);
            lemma_tdiv_trem(a, p);
        }
        let whole = self.into_int();
        let precision = Int(pow10_i128(S));
        let rem = match self.0.checked_rem(precision) {
            Ok(v) => v,
            Err(_) => Int::<i128>::ZERO(),
        };
        if rem.0 > 0 {
            proof {
                lemma_quotient_room(a, p);
            }
            Int(whole.0 + 1)
        } else {
            whole
        }
    }

    /// The same number with `S1` decimal places: digits beyond `S1` are cut
    /// off.
    pub fn conver_precision<const S1: u32>(self) -> (r: MathResult<Dec<i128, S1>>)
        ensures
            S < S1 ==> {
                let f = pow10((S1 - S) as nat);
                &&& r is Ok <==> f <= i128::MAX && i128::MIN <= self.0.0 * f && self.0.0 * f <= i128::MAX
                &&& r matches Ok(v) ==> v.0.0 == self.0.0 * f
                &&& r matches Err(e) ==> (f > i128::MAX ==> ten_pow_error(e, (S1 - S) as nat)) && (f <= i128::MAX ==> mul_error(e, self.0.0 as int, f))
            },
            S == S1 ==> r == Ok::<Dec<i128, S1>, MathError>(Dec(self.0)),
            S > S1 ==> {
                let f = pow10((S - S1) as nat);
                &&& r is Ok <==> f <= i128::MAX
                &&& r matches Ok(v) ==> v.0.0 == tdiv(self.0.0 as int, f)
                &&& r matches Err(e) ==> ten_pow_error(e, (S - S1) as nat)
            },
    {
        proof {
            if S < S1 {
                lemma_pow_positive(10, (S1 - S) as nat);
            } else if S > S1 {
                lemma_pow_positive(10, (S - S1) as nat);
            }
        }
        if S < S1 {
            let factor = match Int::<i128>::TEN().checked_pow(S1 - S) {
                Ok(f) => f,
                Err(e) => {
                    return Err(e);
                },
            };
            match self.0.checked_mul(factor) {
                Ok(v) => Ok(Dec(v)),
                Err(e) => Err(e),
            }
        } else if S == S1 {
            Ok(Dec(self.0))
        } else {
            let factor = match Int::<i128>::TEN().checked_pow(S - S1) {
                Ok(f) => f,
                Err(e) => {
                    return Err(e);
                },
            };
            proof {
                lemma_pow_positive(10, (S - S1) as nat);
            }
            match self.0.checked_div(factor) {
                Ok(v) => Ok(Dec(v)),
                Err(e) => Err(e),
            }
        }
    }
}

impl Int<i128> {
    /// The integer as a decimal with `S` decimal places.
    pub fn checked_into_dec<const S: u32>(self) -> (r: MathResult<Dec<i128, S>>)
        requires
            S <= 38,
        ensures
            r is Ok <==> i128::MIN <= self.0 * pow10(S as nat) && self.0 * pow10(S as nat) <= i128::MAX,
            r matches Ok(v) ==> v.0.0 == self.0 * pow10(S as nat),
            r matches Err(e) ==> e matches MathError::OverflowConversion { value: v } && v@ == int_text_of(self.0 as int),
    {
        let precision = Int(pow10_i128(S));
        match self.checked_mul(precision) {
            Ok(v) => Ok(Dec(v)),
            Err(_) => Err(MathError::overflow_conversion::<Int<i128>, Dec<i128, S>>(self)),
        }
    }
}

impl<const S: u32> IsZero for Dec<i128, S> {
    fn is_zero(&self) -> (r: bool)
        ensures
            r == (self.0.0 == 0),
    {
        self.0.is_zero()
    }

    fn is_non_zero(&self) -> (r: bool)
        ensures
            r == (self.0.0 != 0),
    {
        !self.is_zero()
    }
}

impl<const S: u32> Sign for Dec<i128, S> {
    fn checked_abs(self) -> (r: MathResult<Self>)
        ensures
            r is Ok <==> self.0.0 != i128::MIN,
            r matches Ok(v) ==> v.0.0 == abs(self.0.0 as int),
            r matches Err(e) ==> e is OverflowConversion,
    {
        match self.0.checked_abs() {
            Ok(v) => Ok(Dec(v)),
            Err(e) => Err(e),
        }
    }

    fn is_negative(&self) -> (r: bool)
        ensures
            r == (self.0.0 < 0),
    {
        self.0.is_negative()
    }

    fn is_positive(&self) -> (r: bool)
        ensures
            r == (self.0.0 > 0),
    {
        self.0.is_positive()
    }

    fn is_non_negative(&self) -> (r: bool)
        ensures
            r == (self.0.0 >= 0),
    {
        !self.is_negative()
    }

    fn is_non_positive(&self) -> (r: bool)
        ensures
            r == (self.0.0 <= 0),
    {
        !self.is_positive()
    }

    fn checked_neg(self) -> (r: MathResult<Self>)
        ensures
            r is Ok <==> self.0.0 != i128::MIN,
            r matches Ok(v) ==> v.0.0 == -self.0.0,
            r matches Err(e) ==> e is OverflowNegation,
    {
        match self.0.checked_neg() {
            Ok(v) => Ok(Dec(v)),
            Err(e) => Err(e),
        }
    }
}

/// The text of the reason given for a refused decimal text; `precision` is
/// ten to the number of decimal places.
pub open spec fn failure_text(f: ParseFailure, precision: int) -> Seq<char> {
    match f {
        ParseFailure::Whole => "error parsing whole"@,
        ParseFailure::TooBig => "value too big"@,
        ParseFailure::Fractional => "error parsing fractional"@,
        ParseFailure::NegativeFractional => "fractional part cannot be negative"@,
        ParseFailure::TooManyDigits => "cannot parse more than "@ + nat_text(precision) + " fractional digits"@,
        ParseFailure::Overflow => "Value too big"@,
        ParseFailure::Dots => "Unexpected number of dots"@,
    }
}

/// The reason given for a refused decimal text; `precision` is ten to the
/// number of decimal places.
pub(crate) fn failure_reason(f: ParseFailure, precision: u128) -> (r: String)
    ensures
        r@ == failure_text(f, precision as int),
{
    match f {
        ParseFailure::Whole => "error parsing whole".to_owned(),
        ParseFailure::TooBig => "value too big".to_owned(),
        ParseFailure::Fractional => "error parsing fractional".to_owned(),
        ParseFailure::NegativeFractional => "fractional part cannot be negative".to_owned(),
        ParseFailure::TooManyDigits => "cannot parse more than ".to_owned().concat(nat_to_text(precision).as_str()).concat(
            " fractional digits",
        ),
        ParseFailure::Overflow => "Value too big".to_owned(),
        ParseFailure::Dots => "Unexpected number of dots".to_owned(),
    }
}

impl<const S: u32> Dec<u128, S> {
    /// Reads a decimal written as digits with an optional point, such as
    /// `1.23`, `1` or `000012`; no rounding is done, so more than `S`
    /// fractional digits are refused.
    pub fn from_text(input: &str) -> (r: MathResult<Self>)
        requires
            S <= 38,
        ensures
            r is Ok <==> dec_text(input.spec_bytes(), S as nat, false, 0, u128::MAX as int) is Ok,
            r matches Ok(v) ==> dec_text(input.spec_bytes(), S as nat, false, 0, u128::MAX as int) == Ok::<int, ParseFailure>(v.0.0 as int),
            r matches Err(e) ==> e matches MathError::ParseNumber { input: i, reason: re, .. } && i@ == input@
                && (dec_text(input.spec_bytes(), S as nat, false, 0, u128::MAX as int) matches Err(f) && re@ == failure_text(f, pow10(S as nat))),
    {
        match parse_udec(input.as_bytes(), S) {
            Ok(v) => Ok(Dec(Int(v))),
            Err(f) => Err(MathError::parse_number::<Self>(input.to_owned(), failure_reason(f, pow10_u128(S)))),
        }
    }
}

impl<const S: u32> Dec<i128, S> {
    /// Reads a decimal written as digits with an optional point, such as
    /// `1.23`, `1` or `000012`; no rounding is done, so more than `S`
    /// fractional digits are refused.
    pub fn from_text(input: &str) -> (r: MathResult<Self>)
        requires
            S <= 38,
        ensures
            r is Ok <==> dec_text(input.spec_bytes(), S as nat, true, i128::MIN as int, i128::MAX as int) is Ok,
            r matches Ok(v) ==> dec_text(input.spec_bytes(), S as nat, true, i128::MIN as int, i128::MAX as int) == Ok::<int, ParseFailure>(v.0.0 as int),
            r matches Err(e) ==> e matches MathError::ParseNumber { input: i, reason: re, .. } && i@ == input@
                && (dec_text(input.spec_bytes(), S as nat, true, i128::MIN as int, i128::MAX as int) matches Err(f) && re@ == failure_text(f, pow10(S as nat))),
    {
        match parse_dec(input.as_bytes(), S) {
            Ok(v) => Ok(Dec(Int(v))),
            Err(f) => Err(MathError::parse_number::<Self>(input.to_owned(), failure_reason(f, pow10_u128(S)))),
        }
    }
}

impl core::str::FromStr for Dec<u128, 18> {
    type Err = MathError;

    fn from_str(input: &str) -> (r: Result<Self, MathError>)
        ensures
            r is Ok <==> dec_text(input.spec_bytes(), 18, false, 0, u128::MAX as int) is Ok,
            r matches Ok(v) ==> dec_text(input.spec_bytes(), 18, false, 0, u128::MAX as int) == Ok::<int, ParseFailure>(v.0.0 as int),
            r matches Err(e) ==> e matches MathError::ParseNumber { input: i, reason: re, .. } && i@ == input@
                && (dec_text(input.spec_bytes(), 18, false, 0, u128::MAX as int) matches Err(f) && re@ == failure_text(f, pow10(18))),
    {
        Self::from_text(input)
    }
}

impl core::str::FromStr for Dec<u128, 6> {
    type Err = MathError;

    fn from_str(input: &str) -> (r: Result<Self, MathError>)
        ensures
            r is Ok <==> dec_text(input.spec_bytes(), 6, false, 0, u128::MAX as int) is Ok,
            r matches Ok(v) ==> dec_text(input.spec_bytes(), 6, false, 0, u128::MAX as int) == Ok::<int, ParseFailure>(v.0.0 as int),
            r matches Err(e) ==> e matches MathError::ParseNumber { input: i, reason: re, .. } && i@ == input@
                && (dec_text(input.spec_bytes(), 6, false, 0, u128::MAX as int) matches Err(f) && re@ == failure_text(f, pow10(6))),
    {
        Self::from_text(input)
    }
}

impl core::str::FromStr for Dec<u128, 24> {
    type Err = MathError;

    fn from_str(input: &str) -> (r: Result<Self, MathError>)
        ensures
            r is Ok <==> dec_text(input.spec_bytes(), 24, false, 0, u128::MAX as int) is Ok,
            r matches Ok(v) ==> dec_text(input.spec_bytes(), 24, false, 0, u128::MAX as int) == Ok::<int, ParseFailure>(v.0.0 as int),
            r matches Err(e) ==> e matches MathError::ParseNumber { input: i, reason: re, .. } && i@ == input@
                && (dec_text(input.spec_bytes(), 24, false, 0, u128::MAX as int) matches Err(f) && re@ == failure_text(f, pow10(24))),
    {
        Self::from_text(input)
    }
}

impl core::str::FromStr for Dec<i128, 18> {
    type Err = MathError;

    fn from_str(input: &str) -> (r: Result<Self, MathError>)
        ensures
            r is Ok <==> dec_text(input.spec_bytes(), 18, true, i128::MIN as int, i128::MAX as int) is Ok,
            r matches Ok(v) ==> dec_text(input.spec_bytes(), 18, true, i128::MIN as int, i128::MAX as int) == Ok::<int, ParseFailure>(v.0.0 as int),
            r matches Err(e) ==> e matches MathError::ParseNumber { input: i, reason: re, .. } && i@ == input@
                && (dec_text(input.spec_bytes(), 18, true, i128::MIN as int, i128::MAX as int) matches Err(f) && re@ == failure_text(f, pow10(18))),
    {
        Self::from_text(input)
    }
}

/// Every byte of `s` from `start` on is an ASCII digit.
pub open spec fn digits_from(s: Seq<u8>, start: int) -> bool {
    forall|j: int| start <= j < s.len() ==> 48 <= #[trigger] s[j] <= 57
}

/// The text of the reason the standard parser gives for refusing the integer
/// text `s`: empty, a digit missing or wrong after an optional sign (`-` only
/// where `signed`), or else a number out of range.
pub open spec fn int_failure_text(s: Seq<u8>, signed: bool) -> Seq<char> {
    if s.len() == 0 {
        "cannot parse integer from empty string"@
    } else {
        let negative = signed && s[0] == 45;
        let start: int = if s[0] == 43 || negative { 1 } else { 0 };
        if start == s.len() || !digits_from(s, start) {
            "invalid digit found in string"@
        } else if negative {
            "number too small to fit in target type"@
        } else {
            "number too large to fit in target type"@
        }
    }
}

/// Why the standard parser refuses an integer text.
fn int_failure_reason(s: &[u8], signed: bool) -> (r: String)
    ensures
        r@ == int_failure_text(s@, signed),
{
    if s.len() == 0 {
        return "cannot parse integer from empty string".to_owned();
    }
    let negative = signed && s[0] == 45;
    let start: usize = if s[0] == 43 || negative { 1 } else { 0 };
    if start == s.len() {
        return "invalid digit found in string".to_owned();
    }
    let mut i = start;
    while i < s.len()
        invariant
            0 < s@.len(),
            negative == (signed && s@[0] == 45),
            start == (if s@[0] == 43 || negative { 1usize } else { 0usize }),
            start < s@.len(),
            start <= i <= s@.len(),
            forall|j: int| start <= j < i ==> 48 <= #[trigger] s@[j] <= 57,
        decreases s@.len() - i,
    {
        if s[i] < 48 || s[i] > 57 {
            proof {
                assert(!(48 <= s@[i as int] <= 57));
                assert(!digits_from(s@, start as int));
            }
            return "invalid digit found in string".to_owned();
        }
        i = i + 1;
    }
    if negative {
        "number too small to fit in target type".to_owned()
    } else {
        "number too large to fit in target type".to_owned()
    }
}

impl Int<u64> {
    /// Reads an integer written in decimal, with an optional sign.
    pub fn from_text(input: &str) -> (r: MathResult<Self>)
        ensures
            r is Ok <==> int_text(input.spec_bytes(), false, u64::MIN as int, u64::MAX as int) is Some,
            r matches Ok(v) ==> int_text(input.spec_bytes(), false, u64::MIN as int, u64::MAX as int) == Some(v.0 as int),
            r matches Err(e) ==> e matches MathError::ParseNumber { input: i, reason: re, .. } && i@ == input@
                && re@ == int_failure_text(input.spec_bytes(), false),
    {
        let bytes = input.as_bytes();
        proof {
            assert(bytes@.subrange(0, bytes@.len() as int) =~= bytes@);
        }
        match parse_uint(bytes, 0, bytes.len()) {
            Some(v) => {
                if u64::MIN as u128 <= v && v <= u64::MAX as u128 {
                    Ok(Int(v as u64))
                } else {
                    Err(MathError::parse_number::<Self>(input.to_owned(), int_failure_reason(bytes, false)))
                }
            },
            None => Err(MathError::parse_number::<Self>(input.to_owned(), int_failure_reason(bytes, false))),
        }
    }

    /// The integer written in decimal.
    pub fn to_text(&self) -> (r: String)
        ensures
            r@ == int_text_of(self.0 as int),
    {
        nat_to_text(self.0 as u128)
    }
}

impl core::str::FromStr for Int<u64> {
    type Err = MathError;

    fn from_str(input: &str) -> (r: Result<Self, MathError>)
        ensures
            r is Ok <==> int_text(input.spec_bytes(), false, u64::MIN as int, u64::MAX as int) is Some,
            r matches Ok(v) ==> int_text(input.spec_bytes(), false, u64::MIN as int, u64::MAX as int) == Some(v.0 as int),
            r matches Err(e) ==> e matches MathError::ParseNumber { input: i, reason: re, .. } && i@ == input@
                && re@ == int_failure_text(input.spec_bytes(), false),
    {
        Self::from_text(input)
    }
}

impl Int<u128> {
    /// Reads an integer written in decimal, with an optional sign.
    pub fn from_text(input: &str) -> (r: MathResult<Self>)
        ensures
            r is Ok <==> int_text(input.spec_bytes(), false, u128::MIN as int, u128::MAX as int) is Some,
            r matches Ok(v) ==> int_text(input.spec_bytes(), false, u128::MIN as int, u128::MAX as int) == Some(v.0 as int),
            r matches Err(e) ==> e matches MathError::ParseNumber { input: i, reason: re, .. } && i@ == input@
                && re@ == int_failure_text(input.spec_bytes(), false),
    {
        let bytes = input.as_bytes();
        proof {
            assert(bytes@.subrange(0, bytes@.len() as int) =~= bytes@);
        }
        match parse_uint(bytes, 0, bytes.len()) {
            Some(v) => {
                if u128::MIN as u128 <= v && v <= u128::MAX as u128 {
                    Ok(Int(v as u128))
                } else {
                    Err(MathError::parse_number::<Self>(input.to_owned(), int_failure_reason(bytes, false)))
                }
            },
            None => Err(MathError::parse_number::<Self>(input.to_owned(), int_failure_reason(bytes, false))),
        }
    }

    /// The integer written in decimal.
    pub fn to_text(&self) -> (r: String)
        ensures
            r@ == int_text_of(self.0 as int),
    {
        nat_to_text(self.0 as u128)
    }
}

impl core::str::FromStr for Int<u128> {
    type Err = MathError;

    fn from_str(input: &str) -> (r: Result<Self, MathError>)
        ensures
            r is Ok <==> int_text(input.spec_bytes(), false, u128::MIN as int, u128::MAX as int) is Some,
            r matches Ok(v) ==> int_text(input.spec_bytes(), false, u128::MIN as int, u128::MAX as int) == Some(v.0 as int),
            r matches Err(e) ==> e matches MathError::ParseNumber { input: i, reason: re, .. } && i@ == input@
                && re@ == int_failure_text(input.spec_bytes(), false),
    {
        Self::from_text(input)
    }
}

impl Int<i64> {
    /// Reads an integer written in decimal, with an optional sign.
    pub fn from_text(input: &str) -> (r: MathResult<Self>)
        ensures
            r is Ok <==> int_text(input.spec_bytes(), true, i64::MIN as int, i64::MAX as int) is Some,
            r matches Ok(v) ==> int_text(input.spec_bytes(), true, i64::MIN as int, i64::MAX as int) == Some(v.0 as int),
            r matches Err(e) ==> e matches MathError::ParseNumber { input: i, reason: re, .. } && i@ == input@
                && re@ == int_failure_text(input.spec_bytes(), true),
    {
        let bytes = input.as_bytes();
        proof {
            assert(bytes@.subrange(0, bytes@.len() as int) =~= bytes@);
        }
        match parse_int(bytes, 0, bytes.len()) {
            Some(v) => {
                if i64::MIN as i128 <= v && v <= i64::MAX as i128 {
                    Ok(Int(v as i64))
                } else {
                    Err(MathError::parse_number::<Self>(input.to_owned(), int_failure_reason(bytes, true)))
                }
            },
            None => Err(MathError::parse_number::<Self>(input.to_owned(), int_failure_reason(bytes, true))),
        }
    }

    /// The integer written in decimal.
    pub fn to_text(&self) -> (r: String)
        ensures
            r@ == int_text_of(self.0 as int),
    {
        int_to_text(self.0 as i128)
    }
}

impl core::str::FromStr for Int<i64> {
    type Err = MathError;

    fn from_str(input: &str) -> (r: Result<Self, MathError>)
        ensures
            r is Ok <==> int_text(input.spec_bytes(), true, i64::MIN as int, i64::MAX as int) is Some,
            r matches Ok(v) ==> int_text(input.spec_bytes(), true, i64::MIN as int, i64::MAX as int) == Some(v.0 as int),
            r matches Err(e) ==> e matches MathError::ParseNumber { input: i, reason: re, .. } && i@ == input@
                && re@ == int_failure_text(input.spec_bytes(), true),
    {
        Self::from_text(input)
    }
}

impl Int<i128> {
    /// Reads an integer written in decimal, with an optional sign.
    pub fn from_text(input: &str) -> (r: MathResult<Self>)
        ensures
            r is Ok <==> int_text(input.spec_bytes(), true, i128::MIN as int, i128::MAX as int) is Some,
            r matches Ok(v) ==> int_text(input.spec_bytes(), true, i128::MIN as int, i128::MAX as int) == Some(v.0 as int),
            r matches Err(e) ==> e matches MathError::ParseNumber { input: i, reason: re, .. } && i@ == input@
                && re@ == int_failure_text(input.spec_bytes(), true),
    {
        let bytes = input.as_bytes();
        proof {
            assert(bytes@.subrange(0, bytes@.len() as int) =~= bytes@);
        }
        match parse_int(bytes, 0, bytes.len()) {
            Some(v) => {
                if i128::MIN as i128 <= v && v <= i128::MAX as i128 {
                    Ok(Int(v as i128))
                } else {
                    Err(MathError::parse_number::<Self>(input.to_owned(), int_failure_reason(bytes, true)))
                }
            },
            None => Err(MathError::parse_number::<Self>(input.to_owned(), int_failure_reason(bytes, true))),
        }
    }

    /// The integer written in decimal.
    pub fn to_text(&self) -> (r: String)
        ensures
            r@ == int_text_of(self.0 as int),
    {
        int_to_text(self.0 as i128)
    }
}

impl core::str::FromStr for Int<i128> {
    type Err = MathError;

    fn from_str(input: &str) -> (r: Result<Self, MathError>)
        ensures
            r is Ok <==> int_text(input.spec_bytes(), true, i128::MIN as int, i128::MAX as int) is Some,
            r matches Ok(v) ==> int_text(input.spec_bytes(), true, i128::MIN as int, i128::MAX as int) == Some(v.0 as int),
            r matches Err(e) ==> e matches MathError::ParseNumber { input: i, reason: re, .. } && i@ == input@
                && re@ == int_failure_text(input.spec_bytes(), true),
    {
        Self::from_text(input)
    }
}

/// 128-bit unsigned fixed-point number with 18 decimal places.
pub type Udec128 = Dec<u128, 18>;

/// 128-bit unsigned fixed-point number with 6 decimal places.
pub type Udec128_6 = Dec<u128, 6>;

/// 128-bit unsigned fixed-point number with 24 decimal places.
pub type Udec128_24 = Dec<u128, 24>;

/// 128-bit signed fixed-point number with 18 decimal places.
pub type Dec128 = Dec<i128, 18>;

} // verus!
