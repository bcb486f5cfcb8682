use vstd::prelude::*;
use crate::dec::{dec_mul, dec_pow, dec_pow_loop, Dec};
use crate::wide::{lemma_u256_range, I256, U256};
use vstd::arithmetic::div_mod::lemma_div_multiples_vanish;
use crate::arith::{ceil_div, floor_div, lemma_pow_positive, lemma_round_from_tdiv, lemma_tdiv_trem, pow10, tdiv, trem};

verus! {

/// Rounding a ratio down never gives more than rounding it towards zero,
/// which never gives more than rounding it up, and the three differ by at
/// most one; when the division is exact they agree.
pub proof fn law_rounding_order(a: int, b: int)
    requires
        b != 0,
    ensures
        floor_div(a, b) <= tdiv(a, b) <= ceil_div(a, b),
        ceil_div(a, b) - floor_div(a, b) <= 1,
        trem(a, b) == 0 ==> floor_div(a, b) == tdiv(a, b) && tdiv(a, b) == ceil_div(a, b),
        trem(a, b) != 0 ==> ceil_div(a, b) - floor_div(a, b) == 1,
{
    lemma_round_from_tdiv(a, b);
}

/// Multiplying by ten to the `k` and dividing by it again gives the number
/// back, whichever way the division rounds: raising the decimal places and
/// lowering them again, or turning an integer into a decimal and back into
/// an integer, is lossless.
pub proof fn law_scale_roundtrip(a: int, k: nat)
    ensures
        tdiv(a * pow10(k), pow10(k)) == a,
        floor_div(a * pow10(k), pow10(k)) == a,
        ceil_div(a * pow10(k), pow10(k)) == a,
        a >= 0 ==> (a * pow10(k)) / pow10(k) == a,
{
    lemma_pow_positive(10, k);
    let p = pow10(k);
    lemma_tdiv_trem(a * p, p);
    lemma_round_from_tdiv(a * p, p);
    assert(tdiv(a * p, p) == a) by (nonlinear_arith)
        requires
            p > 0,
            a * p == p * tdiv(a * p, p) + trem(a * p, p),
            -p < trem(a * p, p) < p,
            trem(a * p, p) == 0 <==> p * tdiv(a * p, p) == a * p,
    {
        let q = tdiv(a * p, p);
        let r = trem(a * p, p);
        assert(p * (a - q) == r);
        if a - q >= 1 {
            assert(p * (a - q) >= p);
        } else if a - q <= -1 {
            assert(p * (a - q) <= -p);
        }
    }
    assert(trem(a * p, p) == 0) by (nonlinear_arith)
        requires
            p > 0,
            a * p == p * tdiv(a * p, p) + trem(a * p, p),
            tdiv(a * p, p) == a,
    ;
    lemma_div_multiples_vanish(a, p);
    assert(a * p == p * a) by (nonlinear_arith);
}

/// The decimal power multiplies only what the result needs and squares
/// nothing after its last product: the first power of a number in range is
/// the number, the second power is one product of the number with itself,
/// the third is that square times the number, and an even power `2e` is the
/// square raised to `e`. `p` is the unit, ten to the number of places.
pub proof fn law_dec_pow_steps(x: int, e: nat, places: nat, lo: int, hi: int)
    ensures
        lo <= x <= hi ==> dec_pow(x, 1, pow10(places), lo, hi) == Some(x),
        dec_pow(x, 2, pow10(places), lo, hi) == dec_mul(x, x, pow10(places), lo, hi),
        lo <= x <= hi ==> dec_pow(x, 3, pow10(places), lo, hi) == (match dec_mul(x, x, pow10(places), lo, hi) {
            Some(x2) => dec_mul(x2, x, pow10(places), lo, hi),
            None => None,
        }),
        e >= 1 ==> dec_pow(x, 2 * e, pow10(places), lo, hi) == (match dec_mul(x, x, pow10(places), lo, hi) {
            Some(x2) => dec_pow(x2, e, pow10(places), lo, hi),
            None => None,
        }),
{
    let p = pow10(places);
    law_scale_roundtrip(x, places);
    assert(x * p == p * x) by (nonlinear_arith);
    assert(dec_mul(x, p, p, lo, hi) == (if lo <= x <= hi { Some(x) } else { None }));
    match dec_mul(x, x, p, lo, hi) {
        Some(x2) => {
            law_scale_roundtrip(x2, places);
            assert(x2 * p == p * x2) by (nonlinear_arith);
            assert(dec_mul(x2, p, p, lo, hi) == Some(x2));
            assert(dec_pow_loop(x2, p, 1, p, lo, hi) == Some(x2));
            assert(dec_pow_loop(x, p, 2, p, lo, hi) == dec_pow_loop(x2, p, 1, p, lo, hi));
            if lo <= x <= hi {
                assert(dec_pow_loop(x, p, 3, p, lo, hi) == dec_pow_loop(x2, x, 1, p, lo, hi));
            }
        },
        None => {
            assert(dec_pow_loop(x, p, 2, p, lo, hi) == None::<int>);
            if lo <= x <= hi {
                assert(dec_pow_loop(x, p, 3, p, lo, hi) == None::<int>);
            }
        },
    }
    if e >= 1 {
        assert(((2 * e) as nat) % 2 == 0);
        assert(((2 * e) as nat) / 2 == e);
    }
    assert(dec_pow(x, 1, p, lo, hi) == dec_mul(x, p, p, lo, hi));
}

/// Raising the precision of a 128-bit unsigned decimal from `S` to `S1` and
/// lowering it again gives the decimal back: `conver_precision` up
/// multiplies the inner integer by `pow10(S1 - S)`, and down divides by the
/// same power, which fits wherever the raising succeeded.
pub proof fn law_udec128_precision_roundtrip<const S: u32, const S1: u32>(d: Dec<u128, S>, e: Dec<u128, S1>)
    requires
        S < S1,
        e.0.0 == d.0.0 * pow10((S1 - S) as nat),
    ensures
        e.0.0 as int / pow10((S1 - S) as nat) == d.0.0,
{
    law_scale_roundtrip(d.0.0 as int, (S1 - S) as nat);
}

/// Raising the precision of a 128-bit signed decimal and lowering it again
/// gives the decimal back; the lowering truncates towards zero.
pub proof fn law_dec128_precision_roundtrip<const S: u32, const S1: u32>(d: Dec<i128, S>, e: Dec<i128, S1>)
    requires
        S < S1,
        e.0.0 == d.0.0 * pow10((S1 - S) as nat),
    ensures
        tdiv(e.0.0 as int, pow10((S1 - S) as nat)) == d.0.0,
{
    law_scale_roundtrip(d.0.0 as int, (S1 - S) as nat);
}

/// Raising the precision of a 256-bit unsigned decimal and lowering it
/// again gives the decimal back.
pub proof fn law_udec256_precision_roundtrip<const S: u32, const S1: u32>(d: Dec<U256, S>, e: Dec<U256, S1>)
    requires
        S < S1,
        e.0.0.value() == d.0.0.value() * pow10((S1 - S) as nat),
    ensures
        e.0.0.value() / pow10((S1 - S) as nat) == d.0.0.value(),
{
    lemma_u256_range(d.0.0);
    law_scale_roundtrip(d.0.0.value(), (S1 - S) as nat);
}

/// Raising the precision of a 256-bit signed decimal and lowering it again
/// gives the decimal back; the lowering truncates towards zero.
pub proof fn law_dec256_precision_roundtrip<const S: u32, const S1: u32>(d: Dec<I256, S>, e: Dec<I256, S1>)
    requires
        S < S1,
        e.0.0.value() == d.0.0.value() * pow10((S1 - S) as nat),
    ensures
        tdiv(e.0.0.value(), pow10((S1 - S) as nat)) == d.0.0.value(),
{
    law_scale_roundtrip(d.0.0.value(), (S1 - S) as nat);
}

/// An integer turned into a decimal by `checked_into_dec` comes back
/// unchanged from `into_int`, `into_int_floor` and `into_int_ceil`: the
/// decimal's inner integer is `x * pow10(S)`, and each of the three divides
/// it by `pow10(S)`, rounding its own way, with nothing to round. This holds
/// for every width, whose contracts all speak of these quotients.
pub proof fn law_into_int_roundtrip(x: int, places: nat)
    ensures
        tdiv(x * pow10(places), pow10(places)) == x,
        floor_div(x * pow10(places), pow10(places)) == x,
        ceil_div(x * pow10(places), pow10(places)) == x,
{
    law_scale_roundtrip(x, places);
}

/// The floor and the ceiling of a decimal are whole multiples of the unit
/// that enclose it, at most one unit apart.
pub proof fn law_floor_ceil_bracket(a: int, p: int)
    requires
        p > 0,
    ensures
        floor_div(a, p) * p <= a <= ceil_div(a, p) * p,
        ceil_div(a, p) * p - floor_div(a, p) * p <= p,
        a - p < floor_div(a, p) * p,
        ceil_div(a, p) * p < a + p,
{
    lemma_tdiv_trem(a, p);
    lemma_round_from_tdiv(a, p);
    let q = tdiv(a, p);
    let r = trem(a, p);
    let f = floor_div(a, p);
    let c = ceil_div(a, p);
    assert(f * p <= a < f * p + p && c * p - p < a <= c * p && c - f <= 1) by (nonlinear_arith)
        requires
            a == p * q + r,
            -p < r < p,
            r == 0 || (r < 0) == (a < 0),
            f == q - (if r != 0 && a < 0 { 1int } else { 0int }),
            c == q + (if r != 0 && a >= 0 { 1int } else { 0int }),
            p > 0,
    {
        if r != 0 && a < 0 {
            assert(f * p == q * p - p);
        }
        if r != 0 && a >= 0 {
            assert(c * p == q * p + p);
        }
    }
    assert(c * p - f * p <= p) by (nonlinear_arith)
        requires c - f <= 1, p > 0;
}

} // verus!
