use vstd::prelude::*;

verus! {

/// Absolute value of a mathematical integer.
pub open spec fn abs(a: int) -> int {
    if a < 0 { -a } else { a }
}

/// Quotient rounded towards zero, as Rust's `/` on integers computes it.
pub open spec fn tdiv(a: int, b: int) -> int {
    let q = abs(a) / abs(b);
    if (a < 0) != (b < 0) { -q } else { q }
}

/// Remainder that matches `tdiv`; it carries the sign of the dividend, as
/// Rust's `%` on integers does.
pub open spec fn trem(a: int, b: int) -> int {
    if a < 0 { -(abs(a) % abs(b)) } else { abs(a) % abs(b) }
}

/// Quotient rounded towards negative infinity.
pub open spec fn floor_div(a: int, b: int) -> int {
    if b > 0 { a / b } else { (-a) / (-b) }
}

/// Quotient rounded towards positive infinity.
pub open spec fn ceil_div(a: int, b: int) -> int {
    -floor_div(-a, b)
}

/// `base` raised to `exp`.
pub open spec fn pow(base: int, exp: nat) -> int
    decreases exp,
{
    if exp == 0 { 1 } else { base * pow(base, (exp - 1) as nat) }
}

/// The exponent of the largest power of `base` not above `x`.
pub open spec fn ilog(base: int, x: int) -> nat
    decreases x,
{
    if base <= 1 || x < base {
        0
    } else {
        proof {
            assert(x / base < x) by (nonlinear_arith)
                requires
                    base > 1,
                    x >= base,
            ;
        }
        1 + ilog(base, x / base)
    }
}

/// `x` reduced into the range of a machine integer with `modulus` values:
/// `[0, modulus)` when unsigned, `[-modulus / 2, modulus / 2)` when signed.
pub open spec fn wrap(x: int, modulus: int, signed: bool) -> int {
    let m = x % modulus;
    if signed && m >= modulus / 2 { m - modulus } else { m }
}

/// Ten raised to `exp`.
pub open spec fn pow10(exp: nat) -> int {
    pow(10, exp)
}

/// `x` clamped into `[lo, hi]`.
pub open spec fn clamp(x: int, lo: int, hi: int) -> int {
    if x > hi { hi } else if x < lo { lo } else { x }
}

/// `r` is the floored square root of `n`.
pub open spec fn is_isqrt(n: int, r: int) -> bool {
    &&& 0 <= r
    &&& r * r <= n
    &&& n < (r + 1) * (r + 1)
}

pub proof fn lemma_pow_positive(base: int, exp: nat)
    requires
        base > 0,
    ensures
        pow(base, exp) > 0,
    decreases exp,
{
    if exp > 0 {
        lemma_pow_positive(base, (exp - 1) as nat);
        assert(base * pow(base, (exp - 1) as nat) > 0) by (nonlinear_arith)
            requires base > 0, pow(base, (exp - 1) as nat) > 0;
    }
}

pub proof fn lemma_pow_monotone(base: int, a: nat, b: nat)
    requires
        base >= 1,
        a <= b,
    ensures
        pow(base, a) <= pow(base, b),
    decreases b,
{
    if a < b {
        lemma_pow_monotone(base, a, (b - 1) as nat);
        lemma_pow_positive(base, (b - 1) as nat);
        assert(pow(base, (b - 1) as nat) <= base * pow(base, (b - 1) as nat)) by (nonlinear_arith)
            requires base >= 1, pow(base, (b - 1) as nat) > 0;
    }
}

pub proof fn lemma_pow_add(base: int, a: nat, b: nat)
    ensures
        pow(base, a + b) == pow(base, a) * pow(base, b),
    decreases a,
{
    if a > 0 {
        lemma_pow_add(base, (a - 1) as nat, b);
        assert((a + b - 1) as nat == ((a - 1) as nat + b) as nat);
        assert(base * (pow(base, (a - 1) as nat) * pow(base, b)) == (base * pow(base, (a - 1) as nat))
            * pow(base, b)) by (nonlinear_arith);
    }
}

/// The powers of ten that fit in 128 bits.
pub proof fn lemma_pow10_bounds(n: nat)
    requires
        n <= 38,
    ensures
        1 <= pow10(n) <= pow10(38),
        pow10(38) == 100000000000000000000000000000000000000,
{
    reveal_with_fuel(pow, 39);
    assert(pow(10, 38) == 100000000000000000000000000000000000000);
    lemma_pow_positive(10, n);
    lemma_pow_monotone(10, n, 38);
}

pub proof fn lemma_pow10_6()
    ensures
        pow10(6) == 1_000_000,
{
    reveal_with_fuel(pow, 7);
}

pub proof fn lemma_pow10_18()
    ensures
        pow10(18) == 1_000_000_000_000_000_000,
        pow10(9) == 1_000_000_000,
{
    reveal_with_fuel(pow, 19);
}

pub proof fn lemma_pow10_24()
    ensures
        pow10(24) == 1_000_000_000_000_000_000_000_000,
        pow10(12) == 1_000_000_000_000,
{
    reveal_with_fuel(pow, 25);
}

pub proof fn lemma_pow10_step(n: nat)
    ensures
        pow10(n + 1) == 10 * pow10(n),
{
    assert(pow(10, n + 1) == 10 * pow(10, n));
}

/// Relates the truncating quotient and remainder.
pub proof fn lemma_tdiv_trem(a: int, b: int)
    requires
        b != 0,
    ensures
        a == b * tdiv(a, b) + trem(a, b),
        abs(trem(a, b)) < abs(b),
        trem(a, b) == 0 || (trem(a, b) < 0) == (a < 0),
        abs(tdiv(a, b)) <= abs(a),
{
    let q = abs(a) / abs(b);
    let r = abs(a) % abs(b);
    assert(abs(a) == abs(b) * q + r) by (nonlinear_arith)
        requires abs(b) > 0, q == abs(a) / abs(b), r == abs(a) % abs(b);
    assert(0 <= r < abs(b)) by (nonlinear_arith)
        requires abs(b) > 0, r == abs(a) % abs(b);
    assert(q <= abs(a)) by (nonlinear_arith)
        requires abs(b) > 0, q == abs(a) / abs(b), abs(a) >= 0;
    if a < 0 {
        if b < 0 {
            assert(a == b * q + (-r)) by (nonlinear_arith)
                requires abs(a) == -a, abs(b) == -b, abs(a) == abs(b) * q + r;
        } else {
            assert(a == b * (-q) + (-r)) by (nonlinear_arith)
                requires abs(a) == -a, abs(b) == b, abs(a) == abs(b) * q + r;
        }
    } else {
        if b < 0 {
            assert(a == b * (-q) + r) by (nonlinear_arith)
                requires abs(a) == a, abs(b) == -b, abs(a) == abs(b) * q + r;
        } else {
            assert(a == b * q + r) by (nonlinear_arith)
                requires abs(a) == a, abs(b) == b, abs(a) == abs(b) * q + r;
        }
    }
}

pub proof fn lemma_ilog_bounds(base: int, x: int)
    requires
        base > 1,
        x >= 1,
    ensures
        pow(base, ilog(base, x)) <= x,
        x < pow(base, ilog(base, x) + 1),
    decreases x,
{
    if x >= base {
        assert(x / base < x && x / base >= 1) by (nonlinear_arith)
            requires base > 1, x >= base;
        lemma_ilog_bounds(base, x / base);
        let k = ilog(base, x / base);
        assert(ilog(base, x) == k + 1);
        assert(pow(base, k + 1) == base * pow(base, k));
        assert(pow(base, k + 2) == base * pow(base, k + 1));
        assert(base * pow(base, k) <= x) by (nonlinear_arith)
            requires pow(base, k) <= x / base, base > 1, x >= 0;
        assert(x < base * pow(base, k + 1)) by (nonlinear_arith)
            requires x / base < pow(base, k + 1), base > 1, x >= 0;
    } else {
        assert(pow(base, 0) == 1);
        assert(pow(base, 1) == base * pow(base, 0));
    }
}

/// An exponent whose power of two does not exceed a value below two to the
/// `bits` is below `bits`.
pub proof fn lemma_log_below(k: nat, x: int, bits: nat)
    requires
        pow(2, k) <= x,
        x < pow(2, bits),
    ensures
        k < bits,
{
    if k >= bits {
        lemma_pow_monotone(2, bits, k);
    }
}

/// An exponent whose power of ten does not exceed a value below two to the
/// `bits` is below `bits`.
pub proof fn lemma_log10_below(k: nat, x: int, bits: nat)
    requires
        pow(10, k) <= x,
        x < pow(2, bits),
    ensures
        k < bits,
{
    if k >= bits {
        lemma_pow_base_monotone(2, 10, bits);
        lemma_pow_monotone(10, bits, k);
    }
}

/// A larger base gives a larger power.
pub proof fn lemma_pow_base_monotone(a: int, b: int, e: nat)
    requires
        1 <= a <= b,
    ensures
        pow(a, e) <= pow(b, e),
    decreases e,
{
    if e > 0 {
        lemma_pow_base_monotone(a, b, (e - 1) as nat);
        lemma_pow_positive(a, (e - 1) as nat);
        assert(a * pow(a, (e - 1) as nat) <= b * pow(b, (e - 1) as nat)) by (nonlinear_arith)
            requires
                1 <= a <= b,
                0 < pow(a, (e - 1) as nat) <= pow(b, (e - 1) as nat),
        ;
    }
}

pub proof fn lemma_pow2_32()
    ensures
        pow(2, 32) == 0x1_0000_0000,
{
    reveal_with_fuel(pow, 33);
}

pub proof fn lemma_pow2_64()
    ensures
        pow(2, 64) == 0x1_0000_0000_0000_0000,
{
    reveal_with_fuel(pow, 65);
}

pub proof fn lemma_pow2_128()
    ensures
        pow(2, 128) == 0x1_0000_0000_0000_0000_0000_0000_0000_0000int,
{
    lemma_pow2_64();
    lemma_pow_add(2, 64, 64);
}

/// The truncating quotient shrinks the dividend, by half at least when the
/// divisor is not a unit.
pub proof fn lemma_tdiv_shrinks(a: int, b: int)
    requires
        b != 0,
    ensures
        abs(tdiv(a, b)) <= abs(a),
        abs(b) >= 2 ==> 2 * abs(tdiv(a, b)) <= abs(a),
        b == 1 ==> tdiv(a, b) == a,
        b == -1 ==> tdiv(a, b) == -a,
        abs(trem(a, b)) < abs(b),
        abs(trem(a, b)) <= abs(a),
{
    let q = abs(a) / abs(b);
    assert(q <= abs(a)) by (nonlinear_arith) requires abs(b) >= 1, q == abs(a) / abs(b), abs(a) >= 0;
    if abs(b) >= 2 {
        assert(2 * q <= abs(a)) by (nonlinear_arith)
            requires abs(b) >= 2, q == abs(a) / abs(b), abs(a) >= 0;
    }
    let r = abs(a) % abs(b);
    assert(r < abs(b) && r <= abs(a)) by (nonlinear_arith)
        requires abs(b) >= 1, r == abs(a) % abs(b), abs(a) >= 0;
}

pub proof fn lemma_pow2_256()
    ensures
        pow(2, 256) == 0x1_0000_0000_0000_0000_0000_0000_0000_0000_0000_0000_0000_0000_0000_0000_0000_0000int,
{
    lemma_pow2_128();
    lemma_pow_add(2, 128, 128);
}

pub proof fn lemma_pow2_512()
    ensures
        pow(2, 512) == pow(2, 256) * pow(2, 256),
        pow(2, 256) == 0x1_0000_0000_0000_0000_0000_0000_0000_0000_0000_0000_0000_0000_0000_0000_0000_0000int,
{
    lemma_pow2_256();
    lemma_pow_add(2, 256, 256);
}

/// The product of two values of a type whose range is `[lo, hi]`, with
/// `lo` zero or the negated successor of `hi`, stays within the square of the
/// range.
pub proof fn lemma_full_mul_fits(a: int, b: int, lo: int, hi: int)
    requires
        lo <= a <= hi,
        lo <= b <= hi,
        hi > 0,
        lo == 0 || lo == -hi - 1,
    ensures
        abs(a * b) <= (hi + 1) * (hi + 1),
        a * b > 0 <==> (a > 0 && b > 0) || (a < 0 && b < 0),
        a * b == 0 <==> a == 0 || b == 0,
        lo == 0 ==> 0 <= a * b <= hi * hi,
{
    if lo == 0 {
        assert(a * b <= hi * hi) by (nonlinear_arith) requires 0 <= a <= hi, 0 <= b <= hi;
    }
    assert(abs(a) <= hi + 1 && abs(b) <= hi + 1);
    assert(abs(a * b) == abs(a) * abs(b)) by (nonlinear_arith);
    assert(abs(a) * abs(b) <= (hi + 1) * (hi + 1)) by (nonlinear_arith)
        requires 0 <= abs(a) <= hi + 1, 0 <= abs(b) <= hi + 1;
    assert(a * b > 0 <==> (a > 0 && b > 0) || (a < 0 && b < 0)) by (nonlinear_arith);
    assert(a * b == 0 <==> a == 0 || b == 0) by (nonlinear_arith);
}

/// Rounding a quotient down or up, from the truncated quotient and its
/// remainder.
pub proof fn lemma_round_from_tdiv(a: int, b: int)
    requires
        b != 0,
    ensures
        floor_div(a, b) == tdiv(a, b) - (if trem(a, b) != 0 && (a < 0) != (b < 0) { 1int } else { 0int }),
        ceil_div(a, b) == tdiv(a, b) + (if trem(a, b) != 0 && (a < 0) == (b < 0) { 1int } else { 0int }),
        trem(a, b) == 0 <==> b * tdiv(a, b) == a,
        a == 0 ==> tdiv(a, b) == 0,
        a != 0 && (a > 0) == (b > 0) ==> tdiv(a, b) >= 0,
        a != 0 && (a > 0) != (b > 0) ==> tdiv(a, b) <= 0,
{
    lemma_tdiv_trem(a, b);
    let q = tdiv(a, b);
    let r = trem(a, b);
    let fa = floor_div(a, b);
    let fc = floor_div(-a, b);
    if b > 0 {
        assert(a == b * fa + a % b && 0 <= a % b < b) by (nonlinear_arith)
            requires b > 0, fa == a / b;
        assert(-a == b * fc + (-a) % b && 0 <= (-a) % b < b) by (nonlinear_arith)
            requires b > 0, fc == (-a) / b;
    } else {
        assert(-a == (-b) * fa + (-a) % (-b) && 0 <= (-a) % (-b) < -b) by (nonlinear_arith)
            requires b < 0, fa == (-a) / (-b);
        assert(a == (-b) * fc + a % (-b) && 0 <= a % (-b) < -b) by (nonlinear_arith)
            requires b < 0, fc == a / (-b);
    }
    // Both the floored and the truncated quotients are determined by their
    // remainder bounds; compare them through `b * (x - y)`.
    assert(fa == q - (if r != 0 && (a < 0) != (b < 0) { 1int } else { 0int })) by (nonlinear_arith)
        requires
            b != 0,
            a == b * q + r,
            abs(r) < abs(b),
            r == 0 || (r < 0) == (a < 0),
            b > 0 ==> (a == b * fa + (a - b * fa) && 0 <= a - b * fa < b),
            b < 0 ==> (0 <= -a - (-b) * fa < -b),
    ;
    assert(-fc == q + (if r != 0 && (a < 0) == (b < 0) { 1int } else { 0int })) by (nonlinear_arith)
        requires
            b != 0,
            a == b * q + r,
            abs(r) < abs(b),
            r == 0 || (r < 0) == (a < 0),
            b > 0 ==> 0 <= -a - b * fc < b,
            b < 0 ==> 0 <= a - (-b) * fc < -b,
    ;
    if a == 0 {
        assert(abs(a) / abs(b) == 0) by (nonlinear_arith) requires abs(a) == 0, abs(b) > 0;
    }
    assert(abs(a) / abs(b) >= 0) by (nonlinear_arith) requires abs(b) > 0, abs(a) >= 0;
}

/// The first estimate of the Babylonian square root is above the root.
pub proof fn lemma_sqrt_first_estimate(n: int, k: nat)
    requires
        n > 0,
        pow(2, k) <= n,
        n < pow(2, k + 1),
    ensures
        pow(2, k / 2 + 1) * pow(2, k / 2 + 1) > n,
{
    let h = (k / 2 + 1) as nat;
    lemma_pow_add(2, h, h);
    lemma_pow_monotone(2, k + 1, h + h);
}

/// One Babylonian step keeps the estimate at or above the floored root, and
/// stops only once the estimate has reached it.
pub proof fn lemma_sqrt_step(n: int, x: int)
    requires
        n > 0,
        x > 0,
        (x + 1) * (x + 1) > n,
    ensures
        n / x <= x + 2,
        0 <= (x + n / x) / 2,
        ((x + n / x) / 2 + 1) * ((x + n / x) / 2 + 1) > n,
        (x + n / x) / 2 >= x ==> x * x <= n,
{
    let q = n / x;
    let m = n % x;
    assert(n == x * q + m && 0 <= m < x) by (nonlinear_arith)
        requires x > 0, q == n / x, m == n % x;
    assert(q >= 0) by (nonlinear_arith) requires x > 0, n > 0, q == n / x;
    assert(q <= x + 2) by (nonlinear_arith)
        requires x > 0, n == x * q + m, 0 <= m, (x + 1) * (x + 1) > n;
    let y = (x + q) / 2;
    assert(2 * (y + 1) >= x + q + 1);
    assert((y + 1) * (y + 1) > n) by (nonlinear_arith)
        requires
            2 * (y + 1) >= x + q + 1,
            x > 0,
            q >= 0,
            n == x * q + m,
            m < x,
    {
        assert((x + q + 1) * (x + q + 1) >= 4 * x * (q + 1));
        assert(4 * (y + 1) * (y + 1) >= (x + q + 1) * (x + q + 1));
    }
    if y >= x {
        assert(x * x <= n) by (nonlinear_arith)
            requires y >= x, y == (x + q) / 2, n == x * q + m, 0 <= m, x > 0;
    }
}

/// A power of a hundred is the power of ten with twice the exponent.
pub proof fn lemma_pow100_is_pow10(i: nat)
    ensures
        pow(100, i) == pow10(2 * i),
    decreases i,
{
    if i > 0 {
        lemma_pow100_is_pow10((i - 1) as nat);
        lemma_pow10_step((2 * (i - 1)) as nat);
        lemma_pow10_step((2 * (i - 1) + 1) as nat);
        assert((2 * (i - 1) + 2) as nat == 2 * i);
    }
}

/// The floored root of a value below `2^128` is below `2^64`.
pub proof fn lemma_root_bound(n: int, root: int)
    requires
        is_isqrt(n, root),
        n < 0x1_0000_0000_0000_0000_0000_0000_0000_0000int,
    ensures
        root < 0x1_0000_0000_0000_0000int,
{
    if root >= 0x1_0000_0000_0000_0000int {
        assert(root * root >= 0x1_0000_0000_0000_0000int * 0x1_0000_0000_0000_0000int) by (nonlinear_arith)
            requires root >= 0x1_0000_0000_0000_0000int;
    }
}

/// A quotient that leaves a remainder is at most half the dividend, so it
/// can move one step towards either bound without leaving the range.
pub proof fn lemma_quotient_room(a: int, p: int)
    requires
        p >= 1,
    ensures
        trem(a, p) != 0 ==> abs(tdiv(a, p)) * 2 <= abs(a),
{
    if trem(a, p) != 0 {
        let x = abs(a);
        if p == 1 {
            assert(x % 1 == 0) by (nonlinear_arith);
        }
        assert((x / p) * 2 <= x) by (nonlinear_arith)
            requires p >= 2, x >= 0;
    }
}

} // verus!
