use vstd::prelude::*;
use crate::arith::{lemma_pow10_bounds, lemma_pow10_step, lemma_pow_add, lemma_pow_monotone, lemma_pow_positive, pow10};
use crate::dec::{pow10_i128, pow10_u128};

verus! {

/// `c` is an ASCII decimal digit.
pub open spec fn is_digit(c: u8) -> bool {
    48 <= c <= 57
}

/// Every byte of `s` is an ASCII decimal digit.
pub open spec fn all_digits(s: Seq<u8>) -> bool {
    forall|i: int| 0 <= i < s.len() ==> is_digit(#[trigger] s[i])
}

/// The number that the decimal digits `s` spell, most significant first.
pub open spec fn digits_num(s: Seq<u8>) -> int
    decreases s.len(),
{
    if s.len() == 0 {
        0
    } else {
        digits_num(s.drop_last()) * 10 + (s.last() - 48)
    }
}

/// What the standard integer parser reads from `s`, before its range check:
/// an optional sign (`-` only when `signed`) followed by at least one digit.
pub open spec fn int_text_value(s: Seq<u8>, signed: bool) -> Option<int> {
    if s.len() > 1 && s[0] == 43 && all_digits(s.drop_first()) {
        Some(digits_num(s.drop_first()))
    } else if signed && s.len() > 1 && s[0] == 45 && all_digits(s.drop_first()) {
        Some(-digits_num(s.drop_first()))
    } else if s.len() > 0 && all_digits(s) {
        Some(digits_num(s))
    } else {
        None
    }
}

/// The integer in `[lo, hi]` that `s` spells, if any.
pub open spec fn int_text(s: Seq<u8>, signed: bool, lo: int, hi: int) -> Option<int> {
    match int_text_value(s, signed) {
        Some(v) => if lo <= v <= hi { Some(v) } else { None },
        None => None,
    }
}

/// The index of the first `c` in `s` at or after `from`, or the length of
/// `s` when there is none.
pub open spec fn find_byte(s: Seq<u8>, c: u8, from: int) -> int
    decreases s.len() - from,
{
    if from >= s.len() {
        s.len() as int
    } else if s[from] == c {
        from
    } else {
        find_byte(s, c, from + 1)
    }
}

pub proof fn lemma_find_byte(s: Seq<u8>, c: u8, from: int)
    requires
        0 <= from <= s.len(),
    ensures
        from <= find_byte(s, c, from) <= s.len(),
        find_byte(s, c, from) < s.len() ==> s[find_byte(s, c, from)] == c,
        forall|i: int| from <= i < find_byte(s, c, from) ==> s[i] != c,
    decreases s.len() - from,
{
    if from < s.len() && s[from] != c {
        lemma_find_byte(s, c, from + 1);
    }
}

/// Why a decimal text was refused.
#[derive(Clone, Copy, Debug, PartialEq, Eq, Structural)]
pub enum ParseFailure {
    /// The part before the point is no integer of the type.
    Whole,
    /// The whole part does not fit once scaled.
    TooBig,
    /// The part after the point is no integer of the type.
    Fractional,
    /// The part after the point carries a minus sign.
    NegativeFractional,
    /// The part after the point is longer than the decimal places.
    TooManyDigits,
    /// Whole and fractional parts together do not fit.
    Overflow,
    /// A second point follows the fractional part.
    Dots,
}

/// The inner integer of the decimal with `places` decimal places that `s`
/// spells, or why there is none: the text is an integer, optionally followed
/// by a point and at most `places` further digits.
pub open spec fn dec_text(s: Seq<u8>, places: nat, signed: bool, lo: int, hi: int) -> Result<int, ParseFailure> {
    let d1 = find_byte(s, 46, 0);
    match int_text(s.subrange(0, d1), signed, lo, hi) {
        None => Err(ParseFailure::Whole),
        Some(w) => {
            let atomics = w * pow10(places);
            if !(lo <= atomics <= hi) {
                Err(ParseFailure::TooBig)
            } else if d1 >= s.len() {
                Ok(atomics)
            } else {
                let d2 = find_byte(s, 46, d1 + 1);
                let frac = s.subrange(d1 + 1, d2);
                match int_text(frac, signed, lo, hi) {
                    None => Err(ParseFailure::Fractional),
                    Some(f) => if f < 0 {
                        Err(ParseFailure::NegativeFractional)
                    } else if frac.len() > places {
                        Err(ParseFailure::TooManyDigits)
                    } else {
                        let part = f * pow10((places - frac.len()) as nat);
                        let total = if s[0] == 45 { atomics - part } else { atomics + part };
                        if !(lo <= total <= hi) {
                            Err(ParseFailure::Overflow)
                        } else if d2 < s.len() {
                            Err(ParseFailure::Dots)
                        } else {
                            Ok(total)
                        }
                    },
                }
            }
        },
    }
}

proof fn lemma_digits_num_step(s: Seq<u8>, start: int, i: int)
    requires
        0 <= start <= i < s.len(),
    ensures
        digits_num(s.subrange(start, i + 1)) == digits_num(s.subrange(start, i)) * 10 + (s[i] - 48),
{
    assert(s.subrange(start, i + 1).drop_last() =~= s.subrange(start, i));
}

/// A number spelled by digits is below ten to their count, and not below
/// the number spelled by any prefix of them.
proof fn lemma_digits_num_bounds(s: Seq<u8>)
    requires
        all_digits(s),
    ensures
        0 <= digits_num(s) < pow10(s.len()),
        forall|k: int| 0 <= k <= s.len() ==> #[trigger] digits_num(s.take(k)) <= digits_num(s),
    decreases s.len(),
{
    if s.len() > 0 {
        let t = s.drop_last();
        assert(all_digits(t)) by {
            assert forall|i: int| 0 <= i < t.len() implies is_digit(#[trigger] t[i]) by {
                assert(t[i] == s[i]);
            }
        }
        lemma_digits_num_bounds(t);
        assert(is_digit(s[s.len() - 1]));
        lemma_pow10_step(t.len());
        assert forall|k: int| 0 <= k <= s.len() implies #[trigger] digits_num(s.take(k)) <= digits_num(s) by {
            if k < s.len() {
                assert(s.take(k) =~= t.take(k));
            } else {
                assert(s.take(k) =~= s);
            }
        }
    } else {
        assert(pow10(0) == 1);
    }
}

/// Reads the decimal digits `s[start..end]` as a `u128`: `None` when a byte
/// is no digit or the number does not fit.
pub fn parse_digits(s: &[u8], start: usize, end: usize) -> (r: Option<u128>)
    requires
        start <= end <= s@.len(),
    ensures
        r is Some <==> all_digits(s@.subrange(start as int, end as int))
            && digits_num(s@.subrange(start as int, end as int)) <= u128::MAX,
        r matches Some(v) ==> v == digits_num(s@.subrange(start as int, end as int)),
{
    let ghost sub = s@.subrange(start as int, end as int);
    let mut acc: u128 = 0;
    let mut i: usize = start;
    proof {
        assert(s@.subrange(start as int, start as int) =~= Seq::<u8>::empty());
    }
    while i < end
        invariant
            start <= i <= end <= s@.len(),
            sub == s@.subrange(start as int, end as int),
            all_digits(s@.subrange(start as int, i as int)),
            acc == digits_num(s@.subrange(start as int, i as int)),
        decreases end - i,
    {
        let c = s[i];
        if c < 48 || c > 57 {
            proof {
                assert(sub[i - start] == c);
            }
            return None;
        }
        proof {
            lemma_digits_num_step(s@, start as int, i as int);
            assert(s@.subrange(start as int, i + 1) =~= sub.take(i + 1 - start));
        }
        let d = (c - 48) as u128;
        let next = match acc.checked_mul(10) {
            Some(m) => m.checked_add(d),
            None => None,
        };
        match next {
            Some(v) => {
                acc = v;
            },
            None => {
                proof {
                    if all_digits(sub) {
                        lemma_digits_num_bounds(sub);
                    }
                }
                return None;
            },
        }
        i = i + 1;
        proof {
            assert forall|j: int| 0 <= j < s@.subrange(start as int, i as int).len() implies is_digit(
                #[trigger] s@.subrange(start as int, i as int)[j],
            ) by {
                if j < i - 1 - start {
                    assert(s@.subrange(start as int, i as int)[j] == s@.subrange(start as int, i - 1)[j]);
                }
            }
        }
    }
    Some(acc)
}

/// Reads `s[start..end]` as an unsigned 128-bit integer the way the standard
/// parser does: an optional `+`, then at least one digit.
pub fn parse_uint(s: &[u8], start: usize, end: usize) -> (r: Option<u128>)
    requires
        start <= end <= s@.len(),
    ensures
        r is Some <==> int_text(s@.subrange(start as int, end as int), false, 0, u128::MAX as int) is Some,
        r matches Some(v) ==> int_text(s@.subrange(start as int, end as int), false, 0, u128::MAX as int) == Some(v as int),
{
    let ghost sub = s@.subrange(start as int, end as int);
    if end - start > 1 && s[start] == 43 {
        proof {
            assert(sub[0] == 43);
            assert(sub.drop_first() =~= s@.subrange(start + 1, end as int));
        }
        parse_digits(s, start + 1, end)
    } else if end > start {
        proof {
            if sub.len() > 1 {
                assert(sub[0] == s[start as int]);
            }
        }
        parse_digits(s, start, end)
    } else {
        None
    }
}

/// Reads `s[start..end]` as a signed 128-bit integer the way the standard
/// parser does: an optional `+` or `-`, then at least one digit.
pub fn parse_int(s: &[u8], start: usize, end: usize) -> (r: Option<i128>)
    requires
        start <= end <= s@.len(),
    ensures
        r is Some <==> int_text(s@.subrange(start as int, end as int), true, i128::MIN as int, i128::MAX as int) is Some,
        r matches Some(v) ==> int_text(s@.subrange(start as int, end as int), true, i128::MIN as int, i128::MAX as int) == Some(v as int),
{
    let ghost sub = s@.subrange(start as int, end as int);
    if end - start > 1 && s[start] == 45 {
        proof {
            assert(sub[0] == 45);
            assert(sub.drop_first() =~= s@.subrange(start + 1, end as int));
        }
        match parse_digits(s, start + 1, end) {
            Some(m) => {
                if m <= 0x8000_0000_0000_0000_0000_0000_0000_0000u128 {
                    if m == 0x8000_0000_0000_0000_0000_0000_0000_0000u128 {
                        Some(i128::MIN)
                    } else {
                        Some(-(m as i128))
                    }
                } else {
                    None
                }
            },
            None => {
                proof {
                    if all_digits(sub.drop_first()) {
                        assert(digits_num(sub.drop_first()) > u128::MAX);
                    }
                }
                None
            },
        }
    } else {
        proof {
            if sub.len() > 0 {
                assert(sub[0] == s@[start as int]);
            }
            assert(int_text_value(sub, true) == int_text_value(sub, false));
        }
        match parse_uint(s, start, end) {
            Some(m) => {
                if m <= i128::MAX as u128 {
                    Some(m as i128)
                } else {
                    None
                }
            },
            None => {
                proof {
                    if sub.len() > 1 && sub[0] == 43 && all_digits(sub.drop_first()) {
                        lemma_digits_num_bounds(sub.drop_first());
                    } else if sub.len() > 0 && all_digits(sub) {
                        lemma_digits_num_bounds(sub);
                    }
                }
                None
            },
        }
    }
}

/// A number read by the standard parser has fewer digits than its text has
/// bytes.
pub(crate) proof fn lemma_int_text_bound(s: Seq<u8>, signed: bool)
    requires
        int_text_value(s, signed) is Some,
    ensures
        int_text_value(s, signed) matches Some(v) && -pow10(s.len()) < v < pow10(s.len()),
{
    if s.len() > 1 && (s[0] == 43 || (signed && s[0] == 45)) && all_digits(s.drop_first()) {
        lemma_digits_num_bounds(s.drop_first());
        lemma_pow_monotone(10, s.drop_first().len(), s.len());
    } else {
        lemma_digits_num_bounds(s);
    }
}

/// The fractional digits, scaled to the decimal places, stay below one whole
/// unit.
pub(crate) proof fn lemma_part_bound(f: int, flen: nat, places: nat)
    requires
        0 <= f < pow10(flen),
        flen <= places <= 38,
    ensures
        0 <= f * pow10((places - flen) as nat) < pow10(places),
        pow10(places) <= pow10(38),
{
    lemma_pow_add(10, flen, (places - flen) as nat);
    assert((flen + (places - flen) as nat) as nat == places);
    lemma_pow_positive(10, (places - flen) as nat);
    let b = pow10((places - flen) as nat);
    assert(0 <= f * b < pow10(flen) * b) by (nonlinear_arith)
        requires 0 <= f < pow10(flen), b > 0;
    lemma_pow10_bounds(places);
}

/// The index of the first `c` at or after `from`.
pub fn find(s: &[u8], c: u8, from: usize) -> (r: usize)
    requires
        from <= s@.len(),
    ensures
        r == find_byte(s@, c, from as int),
{
    let mut i = from;
    while i < s.len()
        invariant
            from <= i <= s@.len(),
            find_byte(s@, c, from as int) == find_byte(s@, c, i as int),
        decreases s@.len() - i,
    {
        if s[i] == c {
            return i;
        }
        i = i + 1;
    }
    i
}

/// Reads `s` as an unsigned decimal with `places` decimal places, giving
/// its inner integer.
pub fn parse_udec(s: &[u8], places: u32) -> (r: Result<u128, ParseFailure>)
    requires
        places <= 38,
    ensures
        r is Ok <==> dec_text(s@, places as nat, false, 0, u128::MAX as int) is Ok,
        r matches Ok(v) ==> dec_text(s@, places as nat, false, 0, u128::MAX as int) == Ok::<int, ParseFailure>(v as int),
        r matches Err(f) ==> dec_text(s@, places as nat, false, 0, u128::MAX as int) == Err::<int, ParseFailure>(f),
{
    proof {
        lemma_find_byte(s@, 46, 0);
    }
    let d1 = find(s, 46, 0);
    let w = match parse_uint(s, 0, d1) {
        Some(w) => w,
        None => {
            return Err(ParseFailure::Whole);
        },
    };
    let p = pow10_u128(places);
    let atomics = match w.checked_mul(p) {
        Some(a) => a,
        None => {
            return Err(ParseFailure::TooBig);
        },
    };
    if d1 >= s.len() {
        return Ok(atomics);
    }
    proof {
        lemma_find_byte(s@, 46, d1 + 1);
    }
    let d2 = find(s, 46, d1 + 1);
    let ghost frac = s@.subrange(d1 + 1, d2 as int);
    let f = match parse_uint(s, d1 + 1, d2) {
        Some(f) => f,
        None => {
            return Err(ParseFailure::Fractional);
        },
    };
    let flen = d2 - (d1 + 1);
    if flen > places as usize {
        return Err(ParseFailure::TooManyDigits);
    }
    proof {
        lemma_int_text_bound(frac, false);
        lemma_part_bound(f as int, flen as nat, places as nat);
    }
    let part = f * pow10_u128(places - flen as u32);
    let total = if s[0] == 45 {
        atomics.checked_sub(part)
    } else {
        atomics.checked_add(part)
    };
    let total = match total {
        Some(t) => t,
        None => {
            return Err(ParseFailure::Overflow);
        },
    };
    if d2 < s.len() {
        return Err(ParseFailure::Dots);
    }
    Ok(total)
}

/// Reads `s` as a signed decimal with `places` decimal places, giving its
/// inner integer.
pub fn parse_dec(s: &[u8], places: u32) -> (r: Result<i128, ParseFailure>)
    requires
        places <= 38,
    ensures
        r is Ok <==> dec_text(s@, places as nat, true, i128::MIN as int, i128::MAX as int) is Ok,
        r matches Ok(v) ==> dec_text(s@, places as nat, true, i128::MIN as int, i128::MAX as int) == Ok::<int, ParseFailure>(v as int),
        r matches Err(f) ==> dec_text(s@, places as nat, true, i128::MIN as int, i128::MAX as int) == Err::<int, ParseFailure>(f),
{
    proof {
        lemma_find_byte(s@, 46, 0);
        lemma_pow10_bounds(places as nat);
    }
    let d1 = find(s, 46, 0);
    let w = match parse_int(s, 0, d1) {
        Some(w) => w,
        None => {
            return Err(ParseFailure::Whole);
        },
    };
    let p = pow10_i128(places);
    let atomics = match w.checked_mul(p) {
        Some(a) => a,
        None => {
            return Err(ParseFailure::TooBig);
        },
    };
    if d1 >= s.len() {
        return Ok(atomics);
    }
    proof {
        lemma_find_byte(s@, 46, d1 + 1);
    }
    let d2 = find(s, 46, d1 + 1);
    let ghost frac = s@.subrange(d1 + 1, d2 as int);
    let f = match parse_int(s, d1 + 1, d2) {
        Some(f) => f,
        None => {
            return Err(ParseFailure::Fractional);
        },
    };
    if f < 0 {
        return Err(ParseFailure::NegativeFractional);
    }
    let flen = d2 - (d1 + 1);
    if flen > places as usize {
        return Err(ParseFailure::TooManyDigits);
    }
    proof {
        lemma_int_text_bound(frac, true);
        lemma_part_bound(f as int, flen as nat, places as nat);
    }
    let part = f * pow10_i128(places - flen as u32);
    let total = if s[0] == 45 {
        atomics.checked_sub(part)
    } else {
        atomics.checked_add(part)
    };
    let total = match total {
        Some(t) => t,
        None => {
            return Err(ParseFailure::Overflow);
        },
    };
    if d2 < s.len() {
        return Err(ParseFailure::Dots);
    }
    Ok(total)
}

} // verus!
