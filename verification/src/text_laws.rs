use vstd::prelude::*;
use crate::arith::{abs, lemma_pow10_bounds, lemma_pow10_step, lemma_pow_positive, lemma_tdiv_trem, pow10, tdiv, trem};
use crate::display::{dec_display, digit_char, digit_chars, fixed_digits, int_text_of, nat_text, trim_zeros};
use crate::parse::{all_digits, dec_text, digits_num, find_byte, int_text, int_text_value, is_digit};
use vstd::utf8::{encode_utf8, is_ascii_chars, is_ascii_chars_encode_utf8};

verus! {

/// The bytes of ASCII characters.
pub open spec fn ascii_bytes(cs: Seq<char>) -> Seq<u8> {
    cs.map_values(|c: char| c as u8)
}

/// The number spelled by digit values, most significant first.
pub open spec fn digits_value_of(v: Seq<u8>) -> int
    decreases v.len(),
{
    if v.len() == 0 {
        0
    } else {
        digits_value_of(v.drop_last()) * 10 + v.last()
    }
}

proof fn lemma_ascii_encoding(cs: Seq<char>)
    requires
        is_ascii_chars(cs),
    ensures
        encode_utf8(cs) == ascii_bytes(cs),
{
    is_ascii_chars_encode_utf8(cs);
    assert(encode_utf8(cs) =~= ascii_bytes(cs));
}

/// The decimal digits of a number are ASCII digits that spell it.
proof fn lemma_nat_text(x: int)
    requires
        x >= 0,
    ensures
        nat_text(x).len() >= 1,
        is_ascii_chars(nat_text(x)),
        all_digits(ascii_bytes(nat_text(x))),
        digits_num(ascii_bytes(nat_text(x))) == x,
    decreases x,
{
    let t = nat_text(x);
    let b = ascii_bytes(t);
    if x < 10 {
        assert(b.drop_last() =~= Seq::<u8>::empty());
        assert(b.last() == (x + 48) as u8);
        assert(((x + 48) as u8) as int == x + 48);
        assert(digits_num(b.drop_last()) == 0);
        assert(digits_num(b) == digits_num(b.drop_last()) * 10 + (b.last() - 48));
    } else {
        lemma_nat_text(x / 10);
        let t0 = nat_text(x / 10);
        assert(t == t0.push(digit_char(x % 10)));
        assert(b.drop_last() =~= ascii_bytes(t0));
        assert(b.last() == (x % 10 + 48) as u8);
        assert(((x % 10 + 48) as u8) as int == x % 10 + 48);
        assert(digits_num(b) == digits_num(b.drop_last()) * 10 + (b.last() - 48));
        assert(x == (x / 10) * 10 + x % 10);
        assert forall|i: int| 0 <= i < b.len() implies is_digit(#[trigger] b[i]) by {
            if i < b.len() - 1 {
                assert(b[i] == ascii_bytes(t0)[i]);
            }
        }
        assert forall|i: int| 0 <= i < t.len() implies '\0' <= #[trigger] t[i] <= '\u{7f}' by {
            if i < t.len() - 1 {
                assert(t[i] == t0[i]);
            }
        }
    }
}

/// Digit values written as characters are ASCII digits that spell the same
/// number.
proof fn lemma_digit_values(v: Seq<u8>)
    requires
        forall|i: int| 0 <= i < v.len() ==> v[i] < 10,
    ensures
        is_ascii_chars(digit_chars(v)),
        all_digits(ascii_bytes(digit_chars(v))),
        digits_num(ascii_bytes(digit_chars(v))) == digits_value_of(v),
        ascii_bytes(digit_chars(v)).len() == v.len(),
    decreases v.len(),
{
    let b = ascii_bytes(digit_chars(v));
    if v.len() > 0 {
        lemma_digit_values(v.drop_last());
        assert(b.drop_last() =~= ascii_bytes(digit_chars(v.drop_last())));
        assert(v[v.len() - 1] < 10);
        assert(b.last() == v.last() + 48);
    } else {
        assert(b =~= Seq::<u8>::empty());
    }
}

proof fn lemma_digits_value_nonneg(v: Seq<u8>)
    ensures
        digits_value_of(v) >= 0,
    decreases v.len(),
{
    if v.len() > 0 {
        lemma_digits_value_nonneg(v.drop_last());
    }
}

/// The fixed-width digits of a number below ten to their count spell it.
proof fn lemma_fixed_digits_value(x: int, n: nat)
    requires
        0 <= x < pow10(n),
    ensures
        digits_value_of(fixed_digits(x, n)) == x,
        fixed_digits(x, n).len() == n,
        forall|i: int| 0 <= i < n ==> fixed_digits(x, n)[i] < 10,
    decreases n,
{
    if n > 0 {
        lemma_pow10_step((n - 1) as nat);
        lemma_fixed_digits_value(x / 10, (n - 1) as nat);
        assert(fixed_digits(x, n).drop_last() =~= fixed_digits(x / 10, (n - 1) as nat));
        let f = fixed_digits(x, n);
        assert forall|i: int| 0 <= i < n implies f[i] < 10 by {
            if i < n - 1 {
                assert(f[i] == fixed_digits(x / 10, (n - 1) as nat)[i]);
            }
        }
    } else {
        assert(pow10(0) == 1);
    }
}

/// Dropping trailing zeros divides the spelled number by ten for each.
proof fn lemma_trim_zeros_value(v: Seq<u8>)
    ensures
        trim_zeros(v).len() <= v.len(),
        digits_value_of(trim_zeros(v)) * pow10((v.len() - trim_zeros(v).len()) as nat) == digits_value_of(v),
        forall|i: int| 0 <= i < trim_zeros(v).len() ==> trim_zeros(v)[i] == v[i],
    decreases v.len(),
{
    if v.len() > 0 && v.last() == 0 {
        let d = v.drop_last();
        lemma_trim_zeros_value(d);
        let k = (d.len() - trim_zeros(d).len()) as nat;
        lemma_pow10_step(k);
        assert((v.len() - trim_zeros(v).len()) as nat == k + 1);
        assert(digits_value_of(trim_zeros(d)) * pow10(k + 1) == (digits_value_of(trim_zeros(d)) * pow10(k)) * 10)
            by (nonlinear_arith)
            requires pow10(k + 1) == 10 * pow10(k);
        assert forall|i: int| 0 <= i < trim_zeros(v).len() implies trim_zeros(v)[i] == v[i] by {
            assert(d[i] == v[i]);
        }
    } else {
        assert(pow10(0) == 1);
    }
}

/// The first `c` at or after `from` is at `j` when the bytes before `j` are
/// all something else.
proof fn lemma_find_at(s: Seq<u8>, c: u8, from: int, j: int)
    requires
        0 <= from <= j <= s.len(),
        forall|i: int| from <= i < j ==> s[i] != c,
        j < s.len() ==> s[j] == c,
    ensures
        find_byte(s, c, from) == j,
    decreases j - from,
{
    if from < j {
        lemma_find_at(s, c, from + 1, j);
    }
}

proof fn lemma_whole_text(a: int, places: nat, w: int, hi: int)
    requires
        hi >= 0,
        0 <= a <= hi,
        places <= 38,
        w == tdiv(a, pow10(places)),
        trem(a, pow10(places)) == 0,
        w * pow10(places) == a,
        w >= 0,
    ensures
        dec_text(encode_utf8(dec_display(a, places)), places, false, 0, hi)
            == Ok::<int, crate::parse::ParseFailure>(a),
{
    lemma_nat_text(w);
    let wt = nat_text(w);
    let wb = ascii_bytes(wt);
    assert(abs(w) == w);
    let cs = dec_display(a, places);
    assert(cs =~= wt);
    lemma_ascii_encoding(cs);
    let b = encode_utf8(cs);
    assert(b == wb);
    assert forall|i: int| 0 <= i < b.len() implies b[i] != 46 by {
        assert(is_digit(b[i]));
    }
    lemma_find_at(b, 46, 0, b.len() as int);
    assert(b.subrange(0, b.len() as int) =~= b);
    assert(b[0] != 43) by {
        assert(is_digit(b[0]));
    }
    assert(int_text_value(b, false) == Some(w));
    assert(find_byte(b, 46, 0) == b.len());
    lemma_pow10_bounds(places);
    assert(w <= a) by (nonlinear_arith)
        requires w * pow10(places) == a, pow10(places) >= 1, w >= 0;
    assert(int_text(b.subrange(0, b.len() as int), false, 0, hi) == Some(w));
    assert(0 <= w * pow10(places) <= hi);
}

#[verifier::rlimit(40)]
proof fn lemma_fraction_text(a: int, places: nat, w: int, f: int, hi: int)
    requires
        hi >= 0,
        0 <= a <= hi,
        places <= 38,
        w == tdiv(a, pow10(places)),
        f == trem(a, pow10(places)),
        a == w * pow10(places) + f,
        0 < f < pow10(places),
        w >= 0,
    ensures
        dec_text(encode_utf8(dec_display(a, places)), places, false, 0, hi)
            == Ok::<int, crate::parse::ParseFailure>(a),
{
    lemma_nat_text(w);
    let wt = nat_text(w);
    let wb = ascii_bytes(wt);
    assert(abs(w) == w && abs(f) == f);
    let fd = fixed_digits(f, places);
    lemma_fixed_digits_value(f, places);
    let td = trim_zeros(fd);
    lemma_trim_zeros_value(fd);
    assert forall|i: int| 0 <= i < td.len() implies td[i] < 10 by {
        assert(td[i] == fd[i]);
    }
    lemma_digit_values(td);
    lemma_digits_value_nonneg(td);
    let tc = digit_chars(td);
    let tb = ascii_bytes(tc);
    let k = td.len();
    let fv = digits_value_of(td);
    assert(fv * pow10((places - k) as nat) == f);
    if k == 0 {
        assert(td =~= Seq::<u8>::empty());
        assert(fv == 0);
        assert(fv * pow10((places - k) as nat) == 0) by (nonlinear_arith)
            requires fv == 0;
    }
    assert(k >= 1);
    let cs = dec_display(a, places);
    assert(cs =~= wt + seq!['.'] + tc);
    assert(is_ascii_chars(cs)) by {
        assert forall|i: int| 0 <= i < cs.len() implies '\0' <= #[trigger] cs[i] <= '\u{7f}' by {
            if i < wt.len() {
                assert(cs[i] == wt[i]);
            } else if i > wt.len() {
                assert(cs[i] == tc[i - wt.len() - 1]);
            }
        }
    }
    lemma_ascii_encoding(cs);
    let b = encode_utf8(cs);
    let d1 = wb.len() as int;
    assert(b =~= wb + seq![46u8] + tb);
    assert forall|i: int| 0 <= i < d1 implies b[i] != 46 by {
        assert(b[i] == wb[i]);
        assert(is_digit(wb[i]));
    }
    lemma_find_at(b, 46, 0, d1);
    assert forall|i: int| d1 + 1 <= i < b.len() implies b[i] != 46 by {
        assert(b[i] == tb[i - d1 - 1]);
        assert(is_digit(tb[i - d1 - 1]));
    }
    lemma_find_at(b, 46, d1 + 1, b.len() as int);
    assert(b.subrange(0, d1) =~= wb);
    assert(b.subrange(d1 + 1, b.len() as int) =~= tb);
    assert(wb[0] != 43) by {
        assert(is_digit(wb[0]));
    }
    assert(int_text_value(wb, false) == Some(w));
    assert(tb[0] != 43) by {
        assert(is_digit(tb[0]));
    }
    assert(int_text_value(tb, false) == Some(fv));
    lemma_pow_positive(10, (places - k) as nat);
    assert(fv <= f) by (nonlinear_arith)
        requires fv * pow10((places - k) as nat) == f, fv >= 0, pow10((places - k) as nat) >= 1;
    assert(w * pow10(places) <= a);
    assert(b[0] != 45) by {
        assert(b[0] == wb[0]);
        assert(is_digit(wb[0]));
    }
}

/// Writing an unsigned decimal out and reading the text back, with the
/// range `[0, hi]` of its type, gives the decimal.
pub proof fn law_udec_text_roundtrip(a: int, places: nat, hi: int)
    requires
        hi >= 0,
        0 <= a <= hi,
        places <= 38,
    ensures
        dec_text(encode_utf8(dec_display(a, places)), places, false, 0, hi)
            == Ok::<int, crate::parse::ParseFailure>(a),
{
    lemma_pow10_bounds(places);
    let p = pow10(places);
    let w = tdiv(a, p);
    let f = trem(a, p);
    lemma_tdiv_trem(a, p);
    assert(w == a / p && f == a % p);
    assert(a == w * p + f && 0 <= f < p && w >= 0) by (nonlinear_arith)
        requires a >= 0, p >= 1, w == a / p, f == a % p;
    if f == 0 {
        lemma_whole_text(a, places, w, hi);
    } else {
        lemma_fraction_text(a, places, w, f, hi);
    }
}

/// Reading back `sign + digits(mag) [+ '.' + trimmed fraction digits]` as a
/// signed decimal.
#[verifier::rlimit(60)]
proof fn lemma_signed_text(a: int, places: nat, w: int, f: int, cs: Seq<char>, hi: int)
    requires
        hi >= i128::MAX,
        (-hi - 1) <= a <= hi,
        places <= 38,
        w == tdiv(a, pow10(places)),
        f == trem(a, pow10(places)),
        a == w * pow10(places) + f,
        -pow10(places) < f < pow10(places),
        a < 0 ==> w <= 0 && f <= 0,
        a >= 0 ==> w >= 0 && f >= 0,
        f == 0 ==> cs == (if w < 0 { seq!['-'] + nat_text(-w) } else { nat_text(w) }),
        f != 0 ==> cs == (if a < 0 { seq!['-'] } else { Seq::<char>::empty() }) + nat_text(abs(w)) + seq!['.']
            + digit_chars(trim_zeros(fixed_digits(abs(f), places))),
    ensures
        dec_text(encode_utf8(cs), places, true, (-hi - 1), hi)
            == Ok::<int, crate::parse::ParseFailure>(a),
{
    lemma_pow10_bounds(places);
    let p = pow10(places);
    let aw = abs(w);
    lemma_nat_text(aw);
    let wt = nat_text(aw);
    let wb = ascii_bytes(wt);
    let neg = a < 0;
    let sign = if neg { seq!['-'] } else { Seq::<char>::empty() };
    let sb = if neg { seq![45u8] } else { Seq::<u8>::empty() };
    assert(ascii_bytes(sign) =~= sb);
    assert(w * p <= a + p) by (nonlinear_arith)
        requires a == w * p + f, f > -p;
    assert((-hi - 1) <= w <= hi) by (nonlinear_arith)
        requires a == w * p + f, -p < f < p, p >= 1, (-hi - 1) <= a <= hi,
            a < 0 ==> w <= 0 && f <= 0, a >= 0 ==> w >= 0 && f >= 0;
    let head = sign + wt;
    let hb = sb + wb;
    assert(ascii_bytes(head) =~= hb);
    assert(is_ascii_chars(head)) by {
        assert forall|i: int| 0 <= i < head.len() implies '\0' <= #[trigger] head[i] <= '\u{7f}' by {
            if i >= sign.len() {
                assert(head[i] == wt[i - sign.len()]);
            }
        }
    }
    assert forall|i: int| 0 <= i < hb.len() implies hb[i] != 46 by {
        if i >= sb.len() {
            assert(hb[i] == wb[i - sb.len()]);
            assert(is_digit(wb[i - sb.len()]));
        }
    }
    assert(hb.len() >= 1);
    assert(hb[0] != 43) by {
        if !neg {
            assert(hb[0] == wb[0]);
            assert(is_digit(wb[0]));
        }
    }
    if neg {
        assert(hb.drop_first() =~= wb);
        assert(!is_digit(hb[0]));
        assert(int_text_value(hb, true) == Some(-aw));
    } else {
        assert(hb =~= wb);
        assert(int_text_value(hb, true) == Some(aw));
    }
    assert(int_text_value(hb, true) == Some(w));
    assert(hb[0] == 45 <==> neg) by {
        if !neg {
            assert(hb[0] == wb[0]);
            assert(is_digit(wb[0]));
        }
    }
    if f == 0 {
        if neg {
            assert(w < 0) by (nonlinear_arith)
                requires a == w * p, a < 0, p >= 1, w <= 0;
        }
        assert(cs =~= head);
        lemma_ascii_encoding(cs);
        let b = encode_utf8(cs);
        assert(b == hb);
        lemma_find_at(b, 46, 0, b.len() as int);
        assert(b.subrange(0, b.len() as int) =~= b);
        assert(int_text(b.subrange(0, b.len() as int), true, (-hi - 1), hi) == Some(w));
    } else {
        let af = abs(f);
        let fd = fixed_digits(af, places);
        lemma_fixed_digits_value(af, places);
        let td = trim_zeros(fd);
        lemma_trim_zeros_value(fd);
        assert forall|i: int| 0 <= i < td.len() implies td[i] < 10 by {
            assert(td[i] == fd[i]);
        }
        lemma_digit_values(td);
        lemma_digits_value_nonneg(td);
        let tc = digit_chars(td);
        let tb = ascii_bytes(tc);
        let k = td.len();
        let fv = digits_value_of(td);
        assert(fv * pow10((places - k) as nat) == af);
        if k == 0 {
            assert(td =~= Seq::<u8>::empty());
            assert(fv * pow10((places - k) as nat) == 0) by (nonlinear_arith)
                requires fv == 0;
        }
        assert(k >= 1);
        assert(cs =~= head + seq!['.'] + tc);
        assert(is_ascii_chars(cs)) by {
            assert forall|i: int| 0 <= i < cs.len() implies '\0' <= #[trigger] cs[i] <= '\u{7f}' by {
                if i < head.len() {
                    assert(cs[i] == head[i]);
                } else if i > head.len() {
                    assert(cs[i] == tc[i - head.len() - 1]);
                }
            }
        }
        lemma_ascii_encoding(cs);
        let b = encode_utf8(cs);
        let d1 = hb.len() as int;
        assert(b =~= hb + seq![46u8] + tb);
        assert forall|i: int| 0 <= i < d1 implies b[i] != 46 by {
            assert(b[i] == hb[i]);
        }
        lemma_find_at(b, 46, 0, d1);
        assert forall|i: int| d1 + 1 <= i < b.len() implies b[i] != 46 by {
            assert(b[i] == tb[i - d1 - 1]);
            assert(is_digit(tb[i - d1 - 1]));
        }
        lemma_find_at(b, 46, d1 + 1, b.len() as int);
        assert(b.subrange(0, d1) =~= hb);
        assert(b.subrange(d1 + 1, b.len() as int) =~= tb);
        assert(tb[0] != 43 && tb[0] != 45) by {
            assert(is_digit(tb[0]));
        }
        assert(int_text_value(tb, true) == Some(fv));
        lemma_pow_positive(10, (places - k) as nat);
        assert(fv <= af) by (nonlinear_arith)
            requires fv * pow10((places - k) as nat) == af, fv >= 0, pow10((places - k) as nat) >= 1;
        assert(b[0] == hb[0]);
        assert((-hi - 1) <= w * p <= hi) by (nonlinear_arith)
            requires a == w * p + f, -p < f < p, (-hi - 1) <= a <= hi,
                a < 0 ==> f <= 0, a >= 0 ==> f >= 0;
    }
}

/// Writing a signed decimal out and reading the text back, with the range
/// `[-hi - 1, hi]` of its type (at least that of `i128`), gives the
/// decimal.
pub proof fn law_dec_text_roundtrip(a: int, places: nat, hi: int)
    requires
        hi >= i128::MAX,
        (-hi - 1) <= a <= hi,
        places <= 38,
    ensures
        dec_text(encode_utf8(dec_display(a, places)), places, true, (-hi - 1), hi)
            == Ok::<int, crate::parse::ParseFailure>(a),
{
    lemma_pow10_bounds(places);
    let p = pow10(places);
    let w = tdiv(a, p);
    let f = trem(a, p);
    lemma_tdiv_trem(a, p);
    assert(a == w * p + f);
    assert(a < 0 ==> w <= 0 && f <= 0);
    assert(a >= 0 ==> w >= 0 && f >= 0);
    if w == (-hi - 1) {
        if places > 0 {
            lemma_pow10_step((places - 1) as nat);
            lemma_pow_positive(10, (places - 1) as nat);
            assert(p >= 10);
            assert(false) by (nonlinear_arith)
                requires a == w * p + f, w == (-hi - 1), p >= 10, -p < f < p, (-hi - 1) <= a, hi >= 1;
        } else {
            assert(p == 1);
            assert(a == w);
        }
    }
    let cs = dec_display(a, places);
    assert(abs(w) == (if w < 0 { -w } else { w }));
    if f == 0 {
        assert(cs =~= (if w < 0 { seq!['-'] + nat_text(-w) } else { nat_text(w) }));
    } else {
        assert((w < 0 || f < 0) == (a < 0));
        assert(cs =~= (if a < 0 { seq!['-'] } else { Seq::<char>::empty() }) + nat_text(abs(w)) + seq!['.']
            + digit_chars(trim_zeros(fixed_digits(abs(f), places))));
    }
    lemma_signed_text(a, places, w, f, cs, hi);
}

/// Writing an integer out in decimal and reading the text back, as a signed
/// or an unsigned integer of the range `[lo, hi]` it lies in, gives the
/// integer.
pub proof fn law_int_text_roundtrip(x: int, signed: bool, lo: int, hi: int)
    requires
        lo <= x <= hi,
        signed || x >= 0,
    ensures
        int_text(encode_utf8(int_text_of(x)), signed, lo, hi) == Some(x),
{
    let m = if x < 0 { -x } else { x };
    lemma_nat_text(m);
    let wt = nat_text(m);
    let wb = ascii_bytes(wt);
    let cs = int_text_of(x);
    if x < 0 {
        let hb = seq![45u8] + wb;
        assert(is_ascii_chars(cs)) by {
            assert forall|i: int| 0 <= i < cs.len() implies '\0' <= #[trigger] cs[i] <= '\u{7f}' by {
                if i >= 1 {
                    assert(cs[i] == wt[i - 1]);
                }
            }
        }
        lemma_ascii_encoding(cs);
        assert(ascii_bytes(cs) =~= hb);
        assert(hb.drop_first() =~= wb);
        assert(!is_digit(hb[0]));
        assert(int_text_value(hb, signed) == Some(x));
    } else {
        lemma_ascii_encoding(cs);
        assert(ascii_bytes(cs) =~= wb);
        assert(wb[0] != 43) by {
            assert(is_digit(wb[0]));
        }
        assert(int_text_value(wb, signed) == Some(x));
    }
}

} // verus!
