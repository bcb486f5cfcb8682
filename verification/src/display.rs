use vstd::prelude::*;
use crate::arith::{abs, lemma_pow10_bounds, lemma_tdiv_trem, pow10, tdiv, trem};
use crate::dec::{pow10_u128, Dec};

use vstd::string::StringExecFns;

verus! {

/// The character of the decimal digit `d`.
pub open spec fn digit_char(d: int) -> char {
    (d + 48) as char
}

/// The decimal digits of `x`, without leading zeros (`0` for zero).
pub open spec fn nat_text(x: int) -> Seq<char>
    decreases x,
{
    if x < 10 {
        seq![digit_char(x)]
    } else {
        nat_text(x / 10).push(digit_char(x % 10))
    }
}

/// The lowest `n` decimal digits of `x`, zeros in front where needed.
pub open spec fn fixed_digits(x: int, n: nat) -> Seq<u8>
    decreases n,
{
    if n == 0 {
        Seq::empty()
    } else {
        fixed_digits(x / 10, (n - 1) as nat).push((x % 10) as u8)
    }
}

/// Digits with their trailing zeros dropped.
pub open spec fn trim_zeros(d: Seq<u8>) -> Seq<u8>
    decreases d.len(),
{
    if d.len() > 0 && d.last() == 0 {
        trim_zeros(d.drop_last())
    } else {
        d
    }
}

/// The characters of digit values.
pub open spec fn digit_chars(d: Seq<u8>) -> Seq<char> {
    d.map_values(|v: u8| digit_char(v as int))
}

/// An integer in decimal, with a leading `-` when negative.
pub open spec fn int_text_of(x: int) -> Seq<char> {
    if x < 0 { seq!['-'] + nat_text(-x) } else { nat_text(x) }
}

/// The text of the decimal with inner integer `a` and `places` decimal
/// places: the whole part, then, when the fraction is not zero, a point and
/// the fractional digits padded to `places` with their trailing zeros
/// dropped.
pub open spec fn dec_display(a: int, places: nat) -> Seq<char> {
    let p = pow10(places);
    let whole = tdiv(a, p);
    let frac = trem(a, p);
    if frac == 0 {
        int_text_of(whole)
    } else {
        (if whole < 0 || frac < 0 { seq!['-'] } else { Seq::empty() }) + nat_text(abs(whole)) + seq!['.']
            + digit_chars(trim_zeros(fixed_digits(abs(frac), places)))
    }
}

/// The text of one decimal digit.
fn digit_str(d: u128) -> (r: &'static str)
    requires
        d < 10,
    ensures
        r@ == seq![digit_char(d as int)],
{
    proof {
        reveal_strlit("0");
        reveal_strlit("1");
        reveal_strlit("2");
        reveal_strlit("3");
        reveal_strlit("4");
        reveal_strlit("5");
        reveal_strlit("6");
        reveal_strlit("7");
        reveal_strlit("8");
        reveal_strlit("9");
    }
    match d {
        0 => "0",
        1 => "1",
        2 => "2",
        3 => "3",
        4 => "4",
        5 => "5",
        6 => "6",
        7 => "7",
        8 => "8",
        _ => "9",
    }
}

/// The decimal digits of `x`.
pub fn nat_to_text(x: u128) -> (r: String)
    ensures
        r@ == nat_text(x as int),
    decreases x,
{
    if x < 10 {
        digit_str(x).to_owned()
    } else {
        nat_to_text(x / 10).concat(digit_str(x % 10))
    }
}

/// The lowest `n` decimal digits of `x`.
pub fn fixed_digit_values(x: u128, n: u32) -> (r: Vec<u8>)
    ensures
        r@ == fixed_digits(x as int, n as nat),
    decreases n,
{
    if n == 0 {
        Vec::new()
    } else {
        let mut v = fixed_digit_values(x / 10, n - 1);
        v.push((x % 10) as u8);
        v
    }
}

/// Drops trailing zeros.
pub fn trim_zero_values(d: Vec<u8>) -> (r: Vec<u8>)
    ensures
        r@ == trim_zeros(d@),
{
    let mut v = d;
    while v.len() > 0 && v[v.len() - 1] == 0
        invariant
            trim_zeros(v@) == trim_zeros(d@),
        decreases v@.len(),
    {
        let ghost before = v@;
        v.pop();
        proof {
            assert(v@ =~= before.drop_last());
        }
    }
    v
}

/// Appends the characters of digit values.
pub(crate) fn push_digits(s: String, d: &[u8]) -> (r: String)
    requires
        forall|i: int| 0 <= i < d@.len() ==> d@[i] < 10,
    ensures
        r@ == s@ + digit_chars(d@),
{
    let mut out = s;
    let mut i: usize = 0;
    while i < d.len()
        invariant
            i <= d@.len(),
            forall|j: int| 0 <= j < d@.len() ==> d@[j] < 10,
            out@ == s@ + digit_chars(d@.subrange(0, i as int)),
        decreases d@.len() - i,
    {
        out = out.concat(digit_str(d[i] as u128));
        i = i + 1;
        proof {
            assert(digit_chars(d@.subrange(0, i as int)) =~= digit_chars(d@.subrange(0, i - 1)).push(
                digit_char(d@[i - 1] as int),
            ));
        }
    }
    proof {
        assert(d@.subrange(0, d@.len() as int) =~= d@);
    }
    out
}

pub(crate) proof fn lemma_fixed_digits_small(x: int, n: nat)
    ensures
        forall|i: int| 0 <= i < fixed_digits(x, n).len() ==> fixed_digits(x, n)[i] < 10,
        fixed_digits(x, n).len() == n,
    decreases n,
{
    if n > 0 {
        lemma_fixed_digits_small(x / 10, (n - 1) as nat);
    }
}

pub(crate) proof fn lemma_trim_zeros_prefix(d: Seq<u8>)
    ensures
        trim_zeros(d).len() <= d.len(),
        forall|i: int| 0 <= i < trim_zeros(d).len() ==> trim_zeros(d)[i] == d[i],
    decreases d.len(),
{
    if d.len() > 0 && d.last() == 0 {
        lemma_trim_zeros_prefix(d.drop_last());
        assert forall|i: int| 0 <= i < trim_zeros(d).len() implies trim_zeros(d)[i] == d[i] by {
            assert(d.drop_last()[i] == d[i]);
        }
    }
}

impl<const S: u32> Dec<u128, S> {
    /// The decimal written out, such as `1.5` or `100`.
    pub fn to_text(&self) -> (r: String)
        requires
            S <= 38,
        ensures
            r@ == dec_display(self.0.0 as int, S as nat),
    {
        let ghost a = self.0.0 as int;
        let ghost p = pow10(S as nat);
        proof {
            lemma_pow10_bounds(S as nat);
            lemma_tdiv_trem(a, p);
        }
        let precision = pow10_u128(S);
        let whole = self.0.0 / precision;
        let frac = self.0.0 % precision;
        if frac == 0 {
            let r = nat_to_text(whole);
            proof {
                assert(r@ =~= dec_display(a, S as nat));
            }
            r
        } else {
            let digits = trim_zero_values(fixed_digit_values(frac, S));
            proof {
                lemma_fixed_digits_small(frac as int, S as nat);
                lemma_trim_zeros_prefix(fixed_digits(frac as int, S as nat));
                assert forall|i: int| 0 <= i < digits@.len() implies digits@[i] < 10 by {
                    assert(digits@[i] == fixed_digits(frac as int, S as nat)[i]);
                }
            }
            let r = push_digits(nat_to_text(whole).concat("."), digits.as_slice());
            proof {
                reveal_strlit(".");
                assert(r@ =~= dec_display(a, S as nat));
            }
            r
        }
    }
}

impl<const S: u32> Dec<i128, S> {
    /// The decimal written out, such as `-1.5` or `100`.
    pub fn to_text(&self) -> (r: String)
        requires
            S <= 38,
        ensures
            r@ == dec_display(self.0.0 as int, S as nat),
    {
        let ghost a = self.0.0 as int;
        let ghost p = pow10(S as nat);
        proof {
            lemma_pow10_bounds(S as nat);
            lemma_tdiv_trem(a, p);
        }
        let precision = pow10_u128(S) as i128;
        let whole = self.0.0 / precision;
        let frac = self.0.0 % precision;
        if frac == 0 {
            let r = int_to_text(whole);
            proof {
                assert(r@ =~= dec_display(a, S as nat));
            }
            r
        } else {
            let w = if whole < 0 { (-(whole + 1)) as u128 + 1 } else { whole as u128 };
            let f = if frac < 0 { (-(frac + 1)) as u128 + 1 } else { frac as u128 };
            let sign = if whole < 0 || frac < 0 { "-" } else { "" };
        proof {
            reveal_strlit("");
        }
            let digits = trim_zero_values(fixed_digit_values(f, S));
            proof {
                lemma_fixed_digits_small(f as int, S as nat);
                lemma_trim_zeros_prefix(fixed_digits(f as int, S as nat));
                assert forall|i: int| 0 <= i < digits@.len() implies digits@[i] < 10 by {
                    assert(digits@[i] == fixed_digits(f as int, S as nat)[i]);
                }
                reveal_strlit("-");
                reveal_strlit(".");
            }
            let r = push_digits(sign.to_owned().concat(nat_to_text(w).as_str()).concat("."), digits.as_slice());
            proof {
                assert(r@ =~= dec_display(a, S as nat));
            }
            r
        }
    }
}

/// An integer in decimal.
pub fn int_to_text(x: i128) -> (r: String)
    ensures
        r@ == int_text_of(x as int),
{
    if x < 0 {
        proof {
            reveal_strlit("-");
        }
        let m = (-(x + 1)) as u128 + 1;
        "-".to_owned().concat(nat_to_text(m).as_str())
    } else {
        nat_to_text(x as u128)
    }
}

} // verus!
