use vstd::prelude::*;
use crate::arith::{lemma_pow10_bounds, lemma_quotient_room, lemma_tdiv_trem, pow10};
use crate::dec::{failure_reason, failure_text, pow10_i128, pow10_u128, Dec};
use crate::display::{dec_display, fixed_digit_values, fixed_digits, int_text_of, lemma_fixed_digits_small, lemma_trim_zeros_prefix, push_digits, trim_zero_values};
use crate::error::{MathError, MathResult};
use crate::int_types::Int;
use crate::parse::{dec_text, find, int_text, lemma_find_byte, lemma_int_text_bound, lemma_part_bound, ParseFailure};
use crate::wide::{i256_checked_add, i256_checked_div, i256_checked_mul, i256_checked_rem, i256_checked_sub, i256_max, i256_min, i256_text, lemma_i256_range, lemma_u256_range, u256_checked_add, u256_checked_div, u256_checked_mul, u256_checked_rem, u256_checked_sub, u256_max, u256_min, u256_text, I256, U256};
use crate::wide512::{i512_from_str, i512_max, i512_min, i512_text, u512_from_str, u512_max, u512_min, u512_text, I512, U512};
use vstd::string::{StringExecFns, StringSliceAdditionalSpecFns};
use vstd::utf8::{is_char_boundary, valid_utf8};

verus! {

/// `bnum::types::U256::from_str_radix` in base ten, which is what its
/// `FromStr` impl calls: reads an optional `+` followed by decimal
/// digits, refusing anything else and numbers out of range; the error is
/// handed on as its text, of which nothing is claimed.
#[verifier::external_body]
fn u256_from_str(s: &str) -> (r: Result<U256, String>)
    ensures
        r is Ok <==> int_text(s.spec_bytes(), false, u256_min(), u256_max()) is Some,
        r matches Ok(v) ==> int_text(s.spec_bytes(), false, u256_min(), u256_max()) == Some(v.value()),
{
    match bnum::types::U256::from_str_radix(s, 10) {
        Ok(v) => {
            let d = *v.digits();
            Ok(U256 { d0: d[0], d1: d[1], d2: d[2], d3: d[3] })
        },
        Err(e) => Err(e.to_string()),
    }
}

/// `bnum::types::I256::from_str_radix` in base ten, which is what its
/// `FromStr` impl calls: reads an optional `+` or `-` followed by
/// decimal digits, refusing anything else and numbers out of range; the
/// error is handed on as its text, of which nothing is claimed.
#[verifier::external_body]
fn i256_from_str(s: &str) -> (r: Result<I256, String>)
    ensures
        r is Ok <==> int_text(s.spec_bytes(), true, i256_min(), i256_max()) is Some,
        r matches Ok(v) ==> int_text(s.spec_bytes(), true, i256_min(), i256_max()) == Some(v.value()),
{
    match bnum::types::I256::from_str_radix(s, 10) {
        Ok(v) => {
            let d = *v.to_bits().digits();
            Ok(I256 { d0: d[0], d1: d[1], d2: d[2], d3: d[3] })
        },
        Err(e) => Err(e.to_string()),
    }
}

/// The bytes of a string are valid UTF-8.
proof fn lemma_str_utf8(s: &str)
    ensures
        valid_utf8(s.spec_bytes()),
{
    vstd::utf8::encode_utf8_valid_utf8(s@);
}

/// The end of a string, or a position where a `.` stands, is a character
/// boundary.
proof fn lemma_dot_boundary(s: &str, i: int)
    requires
        0 <= i <= s.spec_bytes().len(),
        i < s.spec_bytes().len() ==> s.spec_bytes()[i] == 46,
    ensures
        is_char_boundary(s.spec_bytes(), i),
{
    lemma_str_utf8(s);
    if i == s.spec_bytes().len() {
        vstd::utf8::is_char_boundary_start_end_of_seq(s.spec_bytes());
    } else {
        vstd::utf8::is_char_boundary_iff_not_is_continuation_byte(s.spec_bytes(), i);
    }
}

/// Right after a leading `.` there is a character boundary.
proof fn lemma_after_dot_boundary(s: &str)
    requires
        s.spec_bytes().len() >= 1,
        s.spec_bytes()[0] == 46,
    ensures
        is_char_boundary(s.spec_bytes(), 1),
{
    lemma_str_utf8(s);
    reveal_with_fuel(is_char_boundary, 2);
}

/// The text between the first point at `d1` and the next point (or the end)
/// at `d2`.
fn fraction_text(input: &str, d1: usize, d2: usize) -> (r: &str)
    requires
        d1 < input.spec_bytes().len(),
        input.spec_bytes()[d1 as int] == 46,
        d1 + 1 <= d2 <= input.spec_bytes().len(),
        d2 < input.spec_bytes().len() ==> input.spec_bytes()[d2 as int] == 46,
    ensures
        r.spec_bytes() == input.spec_bytes().subrange(d1 + 1, d2 as int),
{
    proof {
        lemma_dot_boundary(input, d1 as int);
    }
    let (_, rest) = input.split_at(d1);
    proof {
        lemma_after_dot_boundary(rest);
    }
    let (_, after) = rest.split_at(1);
    proof {
        lemma_dot_boundary(after, (d2 - d1 - 1) as int);
    }
    let (frac, _) = after.split_at(d2 - (d1 + 1));
    proof {
        assert(frac.spec_bytes() =~= input.spec_bytes().subrange(d1 + 1, d2 as int));
    }
    frac
}

/// Reads `input` as an unsigned 256-bit decimal with `places` decimal
/// places, giving its inner integer.
fn parse_u256_dec(input: &str, places: u32) -> (r: Result<U256, ParseFailure>)
    requires
        places <= 38,
    ensures
        r is Ok <==> dec_text(input.spec_bytes(), places as nat, false, u256_min(), u256_max()) is Ok,
        r matches Ok(v) ==> dec_text(input.spec_bytes(), places as nat, false, u256_min(), u256_max()) == Ok::<int, ParseFailure>(v.value()),
        r matches Err(f) ==> dec_text(input.spec_bytes(), places as nat, false, u256_min(), u256_max()) == Err::<int, ParseFailure>(f),
{
    let s = input.as_bytes();
    proof {
        lemma_find_byte(s@, 46, 0);
        lemma_pow10_bounds(places as nat);
    }
    let d1 = find(s, 46, 0);
    proof {
        lemma_dot_boundary(input, d1 as int);
    }
    let (whole_text, _) = input.split_at(d1);
    let w = match u256_from_str(whole_text) {
        Ok(w) => w,
        Err(_) => {
            return Err(ParseFailure::Whole);
        },
    };
    let atomics = match u256_checked_mul(w, U256::from_u128(pow10_u128(places))) {
        Some(a) => a,
        None => {
            return Err(ParseFailure::TooBig);
        },
    };
    if d1 >= s.len() {
        return Ok(atomics);
    }
    proof {
        lemma_find_byte(s@, 46, d1 + 1);
    }
    let d2 = find(s, 46, d1 + 1);
    let ghost frac = s@.subrange(d1 + 1, d2 as int);
    let f = match u256_from_str(fraction_text(input, d1, d2)) {
        Ok(f) => f,
        Err(_) => {
            return Err(ParseFailure::Fractional);
        },
    };
    let flen = d2 - (d1 + 1);
    if flen > places as usize {
        return Err(ParseFailure::TooManyDigits);
    }
    proof {
        lemma_int_text_bound(frac, false);
        lemma_part_bound(f.value(), flen as nat, places as nat);
    }
    let part = match u256_checked_mul(f, U256::from_u128(pow10_u128(places - flen as u32))) {
        Some(v) => v,
        None => {
            return Err(ParseFailure::Overflow);
        },
    };
    let total = if s[0] == 45 {
        u256_checked_sub(atomics, part)
    } else {
        u256_checked_add(atomics, part)
    };
    let total = match total {
        Some(t) => t,
        None => {
            return Err(ParseFailure::Overflow);
        },
    };
    if d2 < s.len() {
        return Err(ParseFailure::Dots);
    }
    Ok(total)
}

/// Reads `input` as a signed 256-bit decimal with `places` decimal places,
/// giving its inner integer.
fn parse_i256_dec(input: &str, places: u32) -> (r: Result<I256, ParseFailure>)
    requires
        places <= 38,
    ensures
        r is Ok <==> dec_text(input.spec_bytes(), places as nat, true, i256_min(), i256_max()) is Ok,
        r matches Ok(v) ==> dec_text(input.spec_bytes(), places as nat, true, i256_min(), i256_max()) == Ok::<int, ParseFailure>(v.value()),
        r matches Err(f) ==> dec_text(input.spec_bytes(), places as nat, true, i256_min(), i256_max()) == Err::<int, ParseFailure>(f),
{
    let s = input.as_bytes();
    proof {
        lemma_find_byte(s@, 46, 0);
        lemma_pow10_bounds(places as nat);
    }
    let d1 = find(s, 46, 0);
    proof {
        lemma_dot_boundary(input, d1 as int);
    }
    let (whole_text, _) = input.split_at(d1);
    let w = match i256_from_str(whole_text) {
        Ok(w) => w,
        Err(_) => {
            return Err(ParseFailure::Whole);
        },
    };
    let atomics = match i256_checked_mul(w, I256::from_i128(pow10_i128(places))) {
        Some(a) => a,
        None => {
            return Err(ParseFailure::TooBig);
        },
    };
    if d1 >= s.len() {
        return Ok(atomics);
    }
    proof {
        lemma_find_byte(s@, 46, d1 + 1);
    }
    let d2 = find(s, 46, d1 + 1);
    let ghost frac = s@.subrange(d1 + 1, d2 as int);
    let f = match i256_from_str(fraction_text(input, d1, d2)) {
        Ok(f) => f,
        Err(_) => {
            return Err(ParseFailure::Fractional);
        },
    };
    if f.is_negative() {
        return Err(ParseFailure::NegativeFractional);
    }
    let flen = d2 - (d1 + 1);
    if flen > places as usize {
        return Err(ParseFailure::TooManyDigits);
    }
    proof {
        lemma_int_text_bound(frac, true);
        lemma_part_bound(f.value(), flen as nat, places as nat);
    }
    let part = match i256_checked_mul(f, I256::from_i128(pow10_i128(places - flen as u32))) {
        Some(v) => v,
        None => {
            return Err(ParseFailure::Overflow);
        },
    };
    let total = if s[0] == 45 {
        i256_checked_sub(atomics, part)
    } else {
        i256_checked_add(atomics, part)
    };
    let total = match total {
        Some(t) => t,
        None => {
            return Err(ParseFailure::Overflow);
        },
    };
    if d2 < s.len() {
        return Err(ParseFailure::Dots);
    }
    Ok(total)
}

impl Int<U256> {
    /// Reads an integer written in decimal, with an optional `+`.
    pub fn from_text(input: &str) -> (r: MathResult<Self>)
        ensures
            r is Ok <==> int_text(input.spec_bytes(), false, u256_min(), u256_max()) is Some,
            r matches Ok(v) ==> int_text(input.spec_bytes(), false, u256_min(), u256_max()) == Some(v.0.value()),
            r matches Err(e) ==> e matches MathError::ParseNumber { input: i, .. } && i@ == input@,
    {
        match u256_from_str(input) {
            Ok(v) => Ok(Int(v)),
            Err(reason) => Err(MathError::parse_number::<Self>(input.to_owned(), reason)),
        }
    }

    /// The integer written in decimal.
    pub fn to_text(&self) -> (r: String)
        ensures
            r@ == int_text_of(self.0.value()),
    {
        u256_text(self.0)
    }
}

impl Int<I256> {
    /// Reads an integer written in decimal, with an optional sign.
    pub fn from_text(input: &str) -> (r: MathResult<Self>)
        ensures
            r is Ok <==> int_text(input.spec_bytes(), true, i256_min(), i256_max()) is Some,
            r matches Ok(v) ==> int_text(input.spec_bytes(), true, i256_min(), i256_max()) == Some(v.0.value()),
            r matches Err(e) ==> e matches MathError::ParseNumber { input: i, .. } && i@ == input@,
    {
        match i256_from_str(input) {
            Ok(v) => Ok(Int(v)),
            Err(reason) => Err(MathError::parse_number::<Self>(input.to_owned(), reason)),
        }
    }

    /// The integer written in decimal.
    pub fn to_text(&self) -> (r: String)
        ensures
            r@ == int_text_of(self.0.value()),
    {
        i256_text(self.0)
    }
}

impl core::str::FromStr for Int<U256> {
    type Err = MathError;

    fn from_str(input: &str) -> (r: Result<Self, MathError>)
        ensures
            r is Ok <==> int_text(input.spec_bytes(), false, u256_min(), u256_max()) is Some,
            r matches Ok(v) ==> int_text(input.spec_bytes(), false, u256_min(), u256_max()) == Some(v.0.value()),
            r matches Err(e) ==> e matches MathError::ParseNumber { input: i, .. } && i@ == input@,
    {
        Self::from_text(input)
    }
}

impl core::str::FromStr for Int<I256> {
    type Err = MathError;

    fn from_str(input: &str) -> (r: Result<Self, MathError>)
        ensures
            r is Ok <==> int_text(input.spec_bytes(), true, i256_min(), i256_max()) is Some,
            r matches Ok(v) ==> int_text(input.spec_bytes(), true, i256_min(), i256_max()) == Some(v.0.value()),
            r matches Err(e) ==> e matches MathError::ParseNumber { input: i, .. } && i@ == input@,
    {
        Self::from_text(input)
    }
}

impl<const S: u32> Dec<U256, S> {
    /// Reads a decimal written as digits with an optional point, such as
    /// `1.23`, `1` or `000012`; no rounding is done, so more than `S`
    /// fractional digits are refused.
    pub fn from_text(input: &str) -> (r: MathResult<Self>)
        requires
            S <= 38,
        ensures
            r is Ok <==> dec_text(input.spec_bytes(), S as nat, false, u256_min(), u256_max()) is Ok,
            r matches Ok(v) ==> dec_text(input.spec_bytes(), S as nat, false, u256_min(), u256_max()) == Ok::<int, ParseFailure>(v.0.0.value()),
            r matches Err(e) ==> e matches MathError::ParseNumber { input: i, reason: re, .. } && i@ == input@
                && (dec_text(input.spec_bytes(), S as nat, false, u256_min(), u256_max()) matches Err(f) && re@ == failure_text(f, pow10(S as nat))),
    {
        match parse_u256_dec(input, S) {
            Ok(v) => Ok(Dec(Int(v))),
            Err(f) => Err(MathError::parse_number::<Self>(input.to_owned(), failure_reason(f, pow10_u128(S)))),
        }
    }

    /// The decimal written out, such as `1.5` or `100`.
    pub fn to_text(&self) -> (r: String)
        requires
            S <= 38,
        ensures
            r@ == dec_display(self.0.0.value(), S as nat),
    {
        let ghost a = self.0.0.value();
        let ghost p = pow10(S as nat);
        proof {
            lemma_pow10_bounds(S as nat);
            lemma_tdiv_trem(a, p);
            lemma_u256_range(self.0.0);
        }
        let precision = U256::from_u128(pow10_u128(S));
        let whole = match u256_checked_div(self.0.0, precision) {
            Some(v) => v,
            None => U256::zero(),
        };
        let frac = match u256_checked_rem(self.0.0, precision) {
            Some(v) => v,
            None => U256::zero(),
        };
        if frac.is_zero() {
            let r = u256_text(whole);
            proof {
                assert(r@ =~= dec_display(a, S as nat));
            }
            r
        } else {
            let f = match frac.checked_into_u128() {
                Some(v) => v,
                None => 0,
            };
            let digits = trim_zero_values(fixed_digit_values(f, S));
            proof {
                lemma_fixed_digits_small(f as int, S as nat);
                lemma_trim_zeros_prefix(fixed_digits(f as int, S as nat));
                assert forall|i: int| 0 <= i < digits@.len() implies digits@[i] < 10 by {
                    assert(digits@[i] == fixed_digits(f as int, S as nat)[i]);
                }
            }
            let r = push_digits(u256_text(whole).concat("."), digits.as_slice());
            proof {
                reveal_strlit(".");
                assert(r@ =~= dec_display(a, S as nat));
            }
            r
        }
    }
}

impl<const S: u32> Dec<I256, S> {
    /// Reads a decimal written as digits with an optional sign and point,
    /// such as `-1.23`, `1` or `000012`; no rounding is done, so more than
    /// `S` fractional digits are refused.
    pub fn from_text(input: &str) -> (r: MathResult<Self>)
        requires
            S <= 38,
        ensures
            r is Ok <==> dec_text(input.spec_bytes(), S as nat, true, i256_min(), i256_max()) is Ok,
            r matches Ok(v) ==> dec_text(input.spec_bytes(), S as nat, true, i256_min(), i256_max()) == Ok::<int, ParseFailure>(v.0.0.value()),
            r matches Err(e) ==> e matches MathError::ParseNumber { input: i, reason: re, .. } && i@ == input@
                && (dec_text(input.spec_bytes(), S as nat, true, i256_min(), i256_max()) matches Err(f) && re@ == failure_text(f, pow10(S as nat))),
    {
        match parse_i256_dec(input, S) {
            Ok(v) => Ok(Dec(Int(v))),
            Err(f) => Err(MathError::parse_number::<Self>(input.to_owned(), failure_reason(f, pow10_u128(S)))),
        }
    }

    /// The decimal written out, such as `-1.5` or `100`.
    pub fn to_text(&self) -> (r: String)
        requires
            S <= 38,
        ensures
            r@ == dec_display(self.0.0.value(), S as nat),
    {
        let ghost a = self.0.0.value();
        let ghost p = pow10(S as nat);
        proof {
            lemma_pow10_bounds(S as nat);
            lemma_tdiv_trem(a, p);
            lemma_i256_range(self.0.0);
        }
        let precision = I256::from_i128(pow10_i128(S));
        let whole = match i256_checked_div(self.0.0, precision) {
            Some(v) => v,
            None => I256::zero(),
        };
        let frac = match i256_checked_rem(self.0.0, precision) {
            Some(v) => v,
            None => I256::zero(),
        };
        if frac.is_zero() {
            let r = i256_text(whole);
            proof {
                assert(r@ =~= dec_display(a, S as nat));
            }
            r
        } else {
            proof {
                lemma_quotient_room(a, p);
            }
            let w = if whole.is_negative() {
                match i256_checked_sub(I256::zero(), whole) {
                    Some(v) => v,
                    None => whole,
                }
            } else {
                whole
            };
            let fs = match frac.checked_into_i128() {
                Some(v) => v,
                None => 0,
            };
            let f = if fs < 0 { (-(fs + 1)) as u128 + 1 } else { fs as u128 };
            let sign = if whole.is_negative() || frac.is_negative() { "-" } else { "" };
            let digits = trim_zero_values(fixed_digit_values(f, S));
            proof {
                lemma_fixed_digits_small(f as int, S as nat);
                lemma_trim_zeros_prefix(fixed_digits(f as int, S as nat));
                assert forall|i: int| 0 <= i < digits@.len() implies digits@[i] < 10 by {
                    assert(digits@[i] == fixed_digits(f as int, S as nat)[i]);
                }
                reveal_strlit("-");
                reveal_strlit(".");
                reveal_strlit("");
            }
            let r = push_digits(sign.to_owned().concat(i256_text(w).as_str()).concat("."), digits.as_slice());
            proof {
                assert(r@ =~= dec_display(a, S as nat));
            }
            r
        }
    }
}

impl Int<U512> {
    /// Reads an integer written in decimal, with an optional `+`.
    pub fn from_text(input: &str) -> (r: MathResult<Self>)
        ensures
            r is Ok <==> int_text(input.spec_bytes(), false, u512_min(), u512_max()) is Some,
            r matches Ok(v) ==> int_text(input.spec_bytes(), false, u512_min(), u512_max()) == Some(v.0.value()),
            r matches Err(e) ==> e matches MathError::ParseNumber { input: i, .. } && i@ == input@,
    {
        match u512_from_str(input) {
            Ok(v) => Ok(Int(v)),
            Err(reason) => Err(MathError::parse_number::<Self>(input.to_owned(), reason)),
        }
    }

    /// The integer written in decimal.
    pub fn to_text(&self) -> (r: String)
        ensures
            r@ == int_text_of(self.0.value()),
    {
        u512_text(self.0)
    }
}

impl Int<I512> {
    /// Reads an integer written in decimal, with an optional sign.
    pub fn from_text(input: &str) -> (r: MathResult<Self>)
        ensures
            r is Ok <==> int_text(input.spec_bytes(), true, i512_min(), i512_max()) is Some,
            r matches Ok(v) ==> int_text(input.spec_bytes(), true, i512_min(), i512_max()) == Some(v.0.value()),
            r matches Err(e) ==> e matches MathError::ParseNumber { input: i, .. } && i@ == input@,
    {
        match i512_from_str(input) {
            Ok(v) => Ok(Int(v)),
            Err(reason) => Err(MathError::parse_number::<Self>(input.to_owned(), reason)),
        }
    }

    /// The integer written in decimal.
    pub fn to_text(&self) -> (r: String)
        ensures
            r@ == int_text_of(self.0.value()),
    {
        i512_text(self.0)
    }
}

impl core::str::FromStr for Int<U512> {
    type Err = MathError;

    fn from_str(input: &str) -> (r: Result<Self, MathError>)
        ensures
            r is Ok <==> int_text(input.spec_bytes(), false, u512_min(), u512_max()) is Some,
            r matches Ok(v) ==> int_text(input.spec_bytes(), false, u512_min(), u512_max()) == Some(v.0.value()),
            r matches Err(e) ==> e matches MathError::ParseNumber { input: i, .. } && i@ == input@,
    {
        Self::from_text(input)
    }
}

impl core::str::FromStr for Int<I512> {
    type Err = MathError;

    fn from_str(input: &str) -> (r: Result<Self, MathError>)
        ensures
            r is Ok <==> int_text(input.spec_bytes(), true, i512_min(), i512_max()) is Some,
            r matches Ok(v) ==> int_text(input.spec_bytes(), true, i512_min(), i512_max()) == Some(v.0.value()),
            r matches Err(e) ==> e matches MathError::ParseNumber { input: i, .. } && i@ == input@,
    {
        Self::from_text(input)
    }
}

impl core::str::FromStr for Dec<U256, 18> {
    type Err = MathError;

    fn from_str(input: &str) -> (r: Result<Self, MathError>)
        ensures
            r is Ok <==> dec_text(input.spec_bytes(), 18, false, u256_min(), u256_max()) is Ok,
            r matches Ok(v) ==> dec_text(input.spec_bytes(), 18, false, u256_min(), u256_max()) == Ok::<int, ParseFailure>(v.0.0.value()),
            r matches Err(e) ==> e matches MathError::ParseNumber { input: i, reason: re, .. } && i@ == input@
                && (dec_text(input.spec_bytes(), 18, false, u256_min(), u256_max()) matches Err(f) && re@ == failure_text(f, pow10(18))),
    {
        Self::from_text(input)
    }
}

impl core::str::FromStr for Dec<I256, 18> {
    type Err = MathError;

    fn from_str(input: &str) -> (r: Result<Self, MathError>)
        ensures
            r is Ok <==> dec_text(input.spec_bytes(), 18, true, i256_min(), i256_max()) is Ok,
            r matches Ok(v) ==> dec_text(input.spec_bytes(), 18, true, i256_min(), i256_max()) == Ok::<int, ParseFailure>(v.0.0.value()),
            r matches Err(e) ==> e matches MathError::ParseNumber { input: i, reason: re, .. } && i@ == input@
                && (dec_text(input.spec_bytes(), 18, true, i256_min(), i256_max()) matches Err(f) && re@ == failure_text(f, pow10(18))),
    {
        Self::from_text(input)
    }
}

} // verus!
