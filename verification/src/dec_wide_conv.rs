use vstd::prelude::*;
use crate::display::int_text_of;
use crate::arith::{ceil_div, floor_div, lemma_pow10_bounds, lemma_pow_positive, lemma_quotient_room, lemma_round_from_tdiv, lemma_tdiv_trem, pow10, tdiv};
use crate::dec::{pow10_i128, pow10_u128, Dec};
use crate::error::{mul_error, ten_pow_error, MathError, MathResult};
use crate::int_types::Int;
use crate::is_zero::IsZero;
use crate::number::Number;
use crate::number_const::NumberConst;
use crate::wide::{fits_i256, fits_u256, i256_max, lemma_i256_range, lemma_u256_range, u256_max, I256, U256};

verus! {

impl<const S: u32> Dec<U256, S> {
    /// The decimal whose `decimal_places` last digits are `atomics`'
    /// fractional digits: digits beyond `S` are cut off.
    pub fn checked_from_atomics(atomics: Int<U256>, decimal_places: u32) -> (r: MathResult<Self>)
        ensures
            decimal_places < S ==> {
                let f = pow10((S - decimal_places) as nat);
                &&& r is Ok <==> f <= u256_max() && fits_u256(atomics.0.value() * f)
                &&& r matches Ok(v) ==> v.0.0.value() == atomics.0.value() * f
                &&& r matches Err(e) ==> (f > u256_max() ==> ten_pow_error(e, (S - decimal_places) as nat)) && (f <= u256_max() ==> mul_error(e, atomics.0.value(), f))
            },
            decimal_places == S ==> r == Ok::<Self, MathError>(Dec(atomics)),
            decimal_places > S ==> {
                let f = pow10((decimal_places - S) as nat);
                r matches Ok(v) && v.0.0.value() == (if f <= u256_max() { atomics.0.value() / f } else { 0 })
            },
    {
        proof {
            if decimal_places < S {
                lemma_pow_positive(10, (S - decimal_places) as nat);
            } else if decimal_places > S {
                lemma_pow_positive(10, (decimal_places - S) as nat);
            }
        }
        if decimal_places < S {
            let factor = match Int::<U256>::TEN().checked_pow(S - decimal_places) {
                Ok(f) => f,
                Err(e) => {
                    return Err(e);
                },
            };
            match atomics.checked_mul(factor) {
                Ok(v) => Ok(Dec(v)),
                Err(e) => Err(e),
            }
        } else if decimal_places == S {
            Ok(Dec(atomics))
        } else {
            match Int::<U256>::TEN().checked_pow(decimal_places - S) {
                Ok(factor) => {
                    match atomics.checked_div(factor) {
                        Ok(v) => Ok(Dec(v)),
                        Err(e) => Err(e),
                    }
                },
                Err(_) => Ok(Dec(Int::<U256>::ZERO())),
            }
        }
    }

    /// The integer part, rounded towards zero.
    pub fn into_int(self) -> (r: Int<U256>)
        requires
            S <= 38,
        ensures
            r.0.value() == tdiv(self.0.0.value(), pow10(S as nat)),
    {
        proof {
            lemma_pow10_bounds(S as nat);
            lemma_round_from_tdiv(self.0.0.value(), pow10(S as nat));
            lemma_tdiv_trem(self.0.0.value(), pow10(S as nat));
        }
        let precision = Int::<U256>::new_from_u128(pow10_u128(S));
        match self.0.checked_div(precision) {
            Ok(v) => v,
            Err(_) => Int::<U256>::ZERO(),
        }
    }

    /// The integer part, rounded towards negative infinity.
    pub fn into_int_floor(self) -> (r: Int<U256>)
        requires
            S <= 38,
        ensures
            r.0.value() == floor_div(self.0.0.value(), pow10(S as nat)),
    {
        let ghost a = self.0.0.value();
        let ghost p = pow10(S as nat);
        proof {
            lemma_pow10_bounds(S as nat);
            lemma_round_from_tdiv(a, p);
            lemma_tdiv_trem(a, p);
            lemma_u256_range(self.0.0);
        }
        let whole = self.into_int();
        let precision = Int::<U256>::new_from_u128(pow10_u128(S));
        let rem = match self.0.checked_rem(precision) {
            Ok(v) => v,
            Err(_) => Int::<U256>::ZERO(),
        };
        if false {
            proof {
                lemma_quotient_room(a, p);
            }
            match whole.checked_sub(Int::<U256>::ONE()) {
                Ok(v) => v,
                Err(_) => whole,
            }
        } else {
            whole
        }
    }

    /// The integer part, rounded towards positive infinity.
    pub fn into_int_ceil(self) -> (r: Int<U256>)
        requires
            S <= 38,
        ensures
            r.0.value() == ceil_div(self.0.0.value(), pow10(S as nat)),
    {
        let ghost a = self.0.0.value();
        let ghost p = pow10(S as nat);
        proof {
            lemma_pow10_bounds(S as nat);
            lemma_round_from_tdiv(a, p);
            lemma_tdiv_trem(a, p);
            lemma_u256_range(self.0.0);
        }
        let whole = self.into_int();
        let precision = Int::<U256>::new_from_u128(pow10_u128(S));
        let rem = match self.0.checked_rem(precision) {
            Ok(v) => v,
            Err(_) => Int::<U256>::ZERO(),
        };
        if !rem.0.is_zero() {
            proof {
                lemma_quotient_room(a, p);
            }
            match whole.checked_add(Int::<U256>::ONE()) {
                Ok(v) => v,
                Err(_) => whole,
            }
        } else {
            whole
        }
    }

    /// The same number with `S1` decimal places: digits beyond `S1` are cut
    /// off.
    pub fn conver_precision<const S1: u32>(self) -> (r: MathResult<Dec<U256, S1>>)
        ensures
            S < S1 ==> {
                let f = pow10((S1 - S) as nat);
                &&& r is Ok <==> f <= u256_max() && fits_u256(self.0.0.value() * f)
                &&& r matches Ok(v) ==> v.0.0.value() == self.0.0.value() * f
                &&& r matches Err(e) ==> (f > u256_max() ==> ten_pow_error(e, (S1 - S) as nat)) && (f <= u256_max() ==> mul_error(e, self.0.0.value(), f))
            },
            S == S1 ==> r == Ok::<Dec<U256, S1>, MathError>(Dec(self.0)),
            S > S1 ==> {
                let f = pow10((S - S1) as nat);
                &&& r is Ok <==> f <= u256_max()
                &&& r matches Ok(v) ==> v.0.0.value() == self.0.0.value() / f
                &&& r matches Err(e) ==> ten_pow_error(e, (S - S1) as nat)
            },
    {
        proof {
            if S < S1 {
                lemma_pow_positive(10, (S1 - S) as nat);
            } else if S > S1 {
                lemma_pow_positive(10, (S - S1) as nat);
            }
        }
        if S < S1 {
            let factor = match Int::<U256>::TEN().checked_pow(S1 - S) {
                Ok(f) => f,
                Err(e) => {
                    return Err(e);
                },
            };
            match self.0.checked_mul(factor) {
                Ok(v) => Ok(Dec(v)),
                Err(e) => Err(e),
            }
        } else if S == S1 {
            Ok(Dec(self.0))
        } else {
            let factor = match Int::<U256>::TEN().checked_pow(S - S1) {
                Ok(f) => f,
                Err(e) => {
                    return Err(e);
                },
            };
            match self.0.checked_div(factor) {
                Ok(v) => Ok(Dec(v)),
                Err(e) => Err(e),
            }
        }
    }
}

impl Int<U256> {
    /// The integer as a decimal with `S` decimal places.
    pub fn checked_into_dec<const S: u32>(self) -> (r: MathResult<Dec<U256, S>>)
        requires
            S <= 38,
        ensures
            r is Ok <==> fits_u256(self.0.value() * pow10(S as nat)),
            r matches Ok(v) ==> v.0.0.value() == self.0.value() * pow10(S as nat),
            r matches Err(e) ==> e matches MathError::OverflowConversion { value: v } && v@ == int_text_of(self.0.value()),
    {
        let precision = Int::<U256>::new_from_u128(pow10_u128(S));
        match self.checked_mul(precision) {
            Ok(v) => Ok(Dec(v)),
            Err(_) => Err(MathError::overflow_conversion::<Int<U256>, Dec<U256, S>>(self)),
        }
    }
}

impl<const S: u32> Dec<I256, S> {
    /// The decimal whose `decimal_places` last digits are `atomics`'
    /// fractional digits: digits beyond `S` are cut off.
    pub fn checked_from_atomics(atomics: Int<I256>, decimal_places: u32) -> (r: MathResult<Self>)
        ensures
            decimal_places < S ==> {
                let f = pow10((S - decimal_places) as nat);
                &&& r is Ok <==> f <= i256_max() && fits_i256(atomics.0.value() * f)
                &&& r matches Ok(v) ==> v.0.0.value() == atomics.0.value() * f
                &&& r matches Err(e) ==> (f > i256_max() ==> ten_pow_error(e, (S - decimal_places) as nat)) && (f <= i256_max() ==> mul_error(e, atomics.0.value(), f))
            },
            decimal_places == S ==> r == Ok::<Self, MathError>(Dec(atomics)),
            decimal_places > S ==> {
                let f = pow10((decimal_places - S) as nat);
                r matches Ok(v) && v.0.0.value() == (if f <= i256_max() { tdiv(atomics.0.value(), f) } else { 0 })
            },
    {
        proof {
            if decimal_places < S {
                lemma_pow_positive(10, (S - decimal_places) as nat);
            } else if decimal_places > S {
                lemma_pow_positive(10, (decimal_places - S) as nat);
            }
        }
        if decimal_places < S {
            let factor = match Int::<I256>::TEN().checked_pow(S - decimal_places) {
                Ok(f) => f,
                Err(e) => {
                    return Err(e);
                },
            };
            match atomics.checked_mul(factor) {
                Ok(v) => Ok(Dec(v)),
                Err(e) => Err(e),
            }
        } else if decimal_places == S {
            Ok(Dec(atomics))
        } else {
            match Int::<I256>::TEN().checked_pow(decimal_places - S) {
                Ok(factor) => {
                    match atomics.checked_div(factor) {
                        Ok(v) => Ok(Dec(v)),
                        Err(e) => Err(e),
                    }
                },
                Err(_) => Ok(Dec(Int::<I256>::ZERO())),
            }
        }
    }

    /// The integer part, rounded towards zero.
    pub fn into_int(self) -> (r: Int<I256>)
        requires
            S <= 38,
        ensures
            r.0.value() == tdiv(self.0.0.value(), pow10(S as nat)),
    {
        proof {
            lemma_pow10_bounds(S as nat);
            lemma_round_from_tdiv(self.0.0.value(), pow10(S as nat));
            lemma_tdiv_trem(self.0.0.value(), pow10(S as nat));
        }
        let precision = Int::<I256>::new_from_i128(pow10_i128(S));
        match self.0.checked_div(precision) {
            Ok(v) => v,
            Err(_) => Int::<I256>::ZERO(),
        }
    }

    /// The integer part, rounded towards negative infinity.
    pub fn into_int_floor(self) -> (r: Int<I256>)
        requires
            S <= 38,
        ensures
            r.0.value() == floor_div(self.0.0.value(), pow10(S as nat)),
    {
        let ghost a = self.0.0.value();
        let ghost p = pow10(S as nat);
        proof {
            lemma_pow10_bounds(S as nat);
            lemma_round_from_tdiv(a, p);
            lemma_tdiv_trem(a, p);
            lemma_i256_range(self.0.0);
        }
        let whole = self.into_int();
        let precision = Int::<I256>::new_from_i128(pow10_i128(S));
        let rem = match self.0.checked_rem(precision) {
            Ok(v) => v,
            Err(_) => Int::<I256>::ZERO(),
        };
        if rem.0.is_negative() {
            proof {
                lemma_quotient_room(a, p);
            }
            match whole.checked_sub(Int::<I256>::ONE()) {
                Ok(v) => v,
                Err(_) => whole,
            }
        } else {
            whole
        }
    }

    /// The integer part, rounded towards positive infinity.
    pub fn into_int_ceil(self) -> (r: Int<I256>)
        requires
            S <= 38,
        ensures
            r.0.value() == ceil_div(self.0.0.value(), pow10(S as nat)),
    {
        let ghost a = self.0.0.value();
        let ghost p = pow10(S as nat);
        proof {
            lemma_pow10_bounds(S as nat);
            lemma_round_from_tdiv(a, p);
            lemma_tdiv_trem(a, p);
            lemma_i256_range(self.0.0);
        }
        let whole = self.into_int();
        let precision = Int::<I256>::new_from_i128(pow10_i128(S));
        let rem = match self.0.checked_rem(precision) {
            Ok(v) => v,
            Err(_) => Int::<I256>::ZERO(),
        };
        if rem.0.is_positive() {
            proof {
                lemma_quotient_room(a, p);
            }
            match whole.checked_add(Int::<I256>::ONE()) {
                Ok(v) => v,
                Err(_) => whole,
            }
        } else {
            whole
        }
    }

    /// The same number with `S1` decimal places: digits beyond `S1` are cut
    /// off.
    pub fn conver_precision<const S1: u32>(self) -> (r: MathResult<Dec<I256, S1>>)
        ensures
            S < S1 ==> {
                let f = pow10((S1 - S) as nat);
                &&& r is Ok <==> f <= i256_max() && fits_i256(self.0.0.value() * f)
                &&& r matches Ok(v) ==> v.0.0.value() == self.0.0.value() * f
                &&& r matches Err(e) ==> (f > i256_max() ==> ten_pow_error(e, (S1 - S) as nat)) && (f <= i256_max() ==> mul_error(e, self.0.0.value(), f))
            },
            S == S1 ==> r == Ok::<Dec<I256, S1>, MathError>(Dec(self.0)),
            S > S1 ==> {
                let f = pow10((S - S1) as nat);
                &&& r is Ok <==> f <= i256_max()
                &&& r matches Ok(v) ==> v.0.0.value() == tdiv(self.0.0.value(), f)
                &&& r matches Err(e) ==> ten_pow_error(e, (S - S1) as nat)
            },
    {
        proof {
            if S < S1 {
                lemma_pow_positive(10, (S1 - S) as nat);
            } else if S > S1 {
                lemma_pow_positive(10, (S - S1) as nat);
            }
        }
        if S < S1 {
            let factor = match Int::<I256>::TEN().checked_pow(S1 - S) {
                Ok(f) => f,
                Err(e) => {
                    return Err(e);
                },
            };
            match self.0.checked_mul(factor) {
                Ok(v) => Ok(Dec(v)),
                Err(e) => Err(e),
            }
        } else if S == S1 {
            Ok(Dec(self.0))
        } else {
            let factor = match Int::<I256>::TEN().checked_pow(S - S1) {
                Ok(f) => f,
                Err(e) => {
                    return Err(e);
                },
            };
            match self.0.checked_div(factor) {
                Ok(v) => Ok(Dec(v)),
                Err(e) => Err(e),
            }
        }
    }
}

impl Int<I256> {
    /// The integer as a decimal with `S` decimal places.
    pub fn checked_into_dec<const S: u32>(self) -> (r: MathResult<Dec<I256, S>>)
        requires
            S <= 38,
        ensures
            r is Ok <==> fits_i256(self.0.value() * pow10(S as nat)),
            r matches Ok(v) ==> v.0.0.value() == self.0.value() * pow10(S as nat),
            r matches Err(e) ==> e matches MathError::OverflowConversion { value: v } && v@ == int_text_of(self.0.value()),
    {
        let precision = Int::<I256>::new_from_i128(pow10_i128(S));
        match self.checked_mul(precision) {
            Ok(v) => Ok(Dec(v)),
            Err(_) => Err(MathError::overflow_conversion::<Int<I256>, Dec<I256, S>>(self)),
        }
    }
}

} // verus!
