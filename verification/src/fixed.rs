//! Fixed-point arithmetic helpers for the feature encoder.
//!
//! The encoder needs a base-10 logarithm in micro units: `magnitude_micros`
//! computes `max(log10(x), 0)` for a USD amount `x` given in micros, itself
//! returned in micros. The integer part comes from counting decimal digits;
//! the fractional part comes from the classic digit-by-digit method (square
//! the normalized mantissa, shift whenever it passes 10). Every step is
//! integer arithmetic, so the result is a deterministic, exactly specified
//! function of the input.

use vstd::prelude::*;
use vstd::arithmetic::div_mod::lemma_fundamental_div_mod;
use vstd::arithmetic::div_mod::lemma_div_is_ordered;
use vstd::arithmetic::div_mod::lemma_div_by_multiple;
use vstd::arithmetic::mul::lemma_mul_inequality;
use vstd::arithmetic::mul::lemma_mul_is_commutative;
use vstd::arithmetic::mul::lemma_mul_upper_bound;
use crate::MICRO;

verus! {

/// `10^k`.
pub open spec fn pow10(k: nat) -> nat
    decreases k,
{
    if k == 0 {
        1
    } else {
        10 * pow10((k - 1) as nat)
    }
}

/// Largest `k` with `10^k <= n` (0 for `n < 10`, including `n == 0`).
pub open spec fn log10_floor(n: nat) -> nat
    decreases n,
{
    if n < 10 {
        0
    } else {
        1 + log10_floor(n / 10)
    }
}

pub proof fn lemma_pow10_pos(k: nat)
    ensures
        pow10(k) >= 1,
    decreases k,
{
    if k > 0 {
        lemma_pow10_pos((k - 1) as nat);
    }
}

pub proof fn lemma_pow10_monotone(a: nat, b: nat)
    requires
        a <= b,
    ensures
        pow10(a) <= pow10(b),
    decreases b,
{
    if a < b {
        lemma_pow10_monotone(a, (b - 1) as nat);
    }
}

pub proof fn lemma_pow10_values()
    ensures
        pow10(1) == 10,
        pow10(6) == 1_000_000,
        pow10(18) == 1_000_000_000_000_000_000,
        pow10(19) == 10_000_000_000_000_000_000,
        pow10(20) == 100_000_000_000_000_000_000,
{
    reveal_with_fuel(pow10, 21);
}

/// `10^k <= n < 10^(k+1)` for `k == log10_floor(n)`, whenever `n >= 1`.
pub proof fn lemma_log10_floor_bounds(n: nat)
    requires
        n >= 1,
    ensures
        pow10(log10_floor(n)) <= n,
        n < pow10(log10_floor(n) + 1),
    decreases n,
{
    if n < 10 {
        assert(pow10(1) == 10) by {
            lemma_pow10_values();
        }
    } else {
        lemma_log10_floor_bounds(n / 10);
        let l: nat = log10_floor(n / 10);
        assert(pow10(l + 1) == 10 * pow10(l));
        assert(10 * (n / 10) <= n);
        assert(n < 10 * (n / 10) + 10);
        assert(n / 10 + 1 <= pow10(l + 1));
        assert(n < 10 * pow10(l + 1));
        assert(pow10(l + 2) == 10 * pow10(l + 1));
    }
}

/// A `u64` has at most 20 decimal digits.
pub proof fn lemma_log10_floor_u64(n: u64)
    ensures
        log10_floor(n as nat) <= 19,
{
    if n >= 1 {
        lemma_log10_floor_bounds(n as nat);
        if log10_floor(n as nat) > 19 {
            lemma_pow10_monotone(20, log10_floor(n as nat));
            lemma_pow10_values();
        }
    }
}

/// `a < c * d` forces `a / d < c` (for nonnegative `a`, positive `d`).
pub proof fn lemma_div_lt(a: int, d: int, c: int)
    requires
        0 <= a,
        0 < d,
        a < c * d,
    ensures
        a / d < c,
{
    lemma_fundamental_div_mod(a, d);
    if a / d >= c {
        lemma_mul_inequality(c, a / d, d);
        lemma_mul_is_commutative(c, d);
        lemma_mul_is_commutative(a / d, d);
    }
}

/// `a >= c * d` forces `a / d >= c` (for positive `d`, nonnegative `c`).
pub proof fn lemma_div_ge(a: int, d: int, c: int)
    requires
        0 < d,
        0 <= c,
        c * d <= a,
    ensures
        c <= a / d,
{
    lemma_div_is_ordered(c * d, a, d);
    lemma_div_by_multiple(c, d);
}

/// `10^k` as a machine integer.
pub fn pow10_u64(k: u64) -> (r: u64)
    requires
        k <= 19,
    ensures
        r == pow10(k as nat),
{
    let mut i: u64 = 0;
    let mut r: u64 = 1;
    while i < k
        invariant
            i <= k,
            k <= 19,
            r == pow10(i as nat),
        decreases k - i,
    {
        proof {
            lemma_pow10_monotone(i as nat, 18);
            lemma_pow10_values();
        }
        r = r * 10;
        i = i + 1;
    }
    r
}

/// Number of decimal digits of `n`, minus one.
pub fn log10_floor_u64(n: u64) -> (r: u64)
    requires
        n >= 1,
    ensures
        r == log10_floor(n as nat),
        r <= 19,
{
    proof {
        lemma_log10_floor_u64(n);
    }
    let mut m: u64 = n;
    let mut l: u64 = 0;
    while m >= 10
        invariant
            m >= 1,
            log10_floor(n as nat) == l + log10_floor(m as nat),
            log10_floor(n as nat) <= 19,
        decreases m,
    {
        m = m / 10;
        l = l + 1;
    }
    l
}

/// One round of the digit-by-digit log: square the mantissa `y` (scaled by
/// `MICRO`), renormalize if it passed 10, and recurse with the next smaller
/// output bit. Returns the fractional part of `log10(y / MICRO)` in micros,
/// to within the resolution of `bit`.
pub open spec fn frac_steps(y: nat, bit: nat) -> nat
    decreases bit,
{
    if bit == 0 {
        0
    } else {
        let y2 = (y * y) / (MICRO as nat);
        if y2 >= 10 * MICRO {
            bit + frac_steps(y2 / 10, bit / 2)
        } else {
            frac_steps(y2, bit / 2)
        }
    }
}

pub proof fn lemma_frac_steps_bound(y: nat, bit: nat)
    ensures
        bit == 0 ==> frac_steps(y, bit) == 0,
        bit >= 1 ==> frac_steps(y, bit) <= 2 * bit - 1,
    decreases bit,
{
    if bit >= 1 {
        let y2 = (y * y) / (MICRO as nat);
        lemma_frac_steps_bound(y2 / 10, bit / 2);
        lemma_frac_steps_bound(y2, bit / 2);
    }
}

/// A mantissa of exactly 1.0 stays 1.0: all fractional bits are zero.
pub proof fn lemma_frac_steps_one(bit: nat)
    ensures
        frac_steps(MICRO as nat, bit) == 0,
    decreases bit,
{
    if bit >= 1 {
        lemma_div_by_multiple(MICRO as int, MICRO as int);
        assert(((MICRO * MICRO) as nat) / (MICRO as nat) == MICRO as nat);
        lemma_frac_steps_one(bit / 2);
    }
}

/// The normalized mantissa of `x`: `x` scaled so that it lies in
/// `[MICRO, 10 * MICRO)`.
pub open spec fn mantissa(x: u64) -> int
    recommends
        x >= 1,
{
    (x * MICRO) as int / pow10(log10_floor(x as nat)) as int
}

/// `max(log10(x / MICRO), 0)` in micros, as computed digit by digit with
/// 19 fractional bits of resolution.
pub open spec fn spec_magnitude(x: u64) -> int {
    if x < MICRO {
        0
    } else {
        (log10_floor(x as nat) - 6) * MICRO + frac_steps(mantissa(x) as nat, (MICRO / 2) as nat)
    }
}

pub proof fn lemma_mantissa_range(x: u64)
    requires
        x >= MICRO,
    ensures
        MICRO <= mantissa(x) < 10 * MICRO,
{
    let l = log10_floor(x as nat);
    let p = pow10(l) as int;
    lemma_log10_floor_bounds(x as nat);
    assert(p >= 1);
    lemma_mul_inequality(p, x as int, MICRO as int);
    assert(p * MICRO <= (x as int) * (MICRO as int));
    lemma_div_ge((x * MICRO) as int, p, MICRO as int);
    assert((x as int) + 1 <= 10 * p);
    lemma_mul_inequality(x as int + 1, 10 * p, MICRO as int);
    assert((x as int) * (MICRO as int) < (10 * p) * (MICRO as int));
    lemma_div_lt((x * MICRO) as int, p, 10 * (MICRO as int));
}

/// Whether `x` is `10^k` micros for some `k`: exactly a nonnegative
/// integer power of ten USD.
pub open spec fn is_pow10_micros(x: u64) -> bool {
    x >= MICRO && x == pow10(log10_floor(x as nat))
}

/// `max(log10(amount), 0)` in micros, for `amount_micros` a USD amount in
/// micros. Amounts under one dollar are floored to zero. The result is the
/// exactly specified `spec_magnitude`, always under 14 whole units, and on
/// exact powers of ten it is the exact logarithm.
pub fn magnitude_micros(amount_micros: u64) -> (r: u64)
    ensures
        r == spec_magnitude(amount_micros),
        r < 14 * MICRO,
        amount_micros < MICRO ==> r == 0,
        is_pow10_micros(amount_micros) ==> r == (log10_floor(amount_micros as nat) - 6) * MICRO,
{
    if amount_micros < MICRO {
        return 0;
    }
    let x = amount_micros;
    let lf = log10_floor_u64(x);
    assert(lf >= 6) by {
        lemma_log10_floor_bounds(x as nat);
        if log10_floor(x as nat) < 6 {
            lemma_pow10_monotone(log10_floor(x as nat) + 1, 6);
            lemma_pow10_values();
        }
    }
    let p = pow10_u64(lf);
    proof {
        lemma_pow10_pos(lf as nat);
        lemma_mantissa_range(x);
        lemma_pow10_values();
        lemma_pow10_monotone(lf as nat, 19);
    }
    let y_wide: u128 = (x as u128) * (MICRO as u128) / (p as u128);
    assert(y_wide == mantissa(x));
    let y_start: u64 = y_wide as u64;
    let mut y: u64 = y_start;
    let ghost total: nat = frac_steps(y_start as nat, (MICRO / 2) as nat);
    proof {
        lemma_frac_steps_bound(y_start as nat, (MICRO / 2) as nat);
    }
    let mut bit: u64 = MICRO / 2;
    let mut frac: u64 = 0;
    while bit >= 1
        invariant
            MICRO <= y < 10 * MICRO,
            frac + frac_steps(y as nat, bit as nat) == total,
            total <= MICRO - 1,
        decreases bit,
    {
        proof {
            lemma_mul_inequality(MICRO as int, y as int, MICRO as int);
            lemma_mul_inequality(MICRO as int, y as int, y as int);
            lemma_mul_is_commutative(MICRO as int, y as int);
            lemma_div_ge((y * y) as int, MICRO as int, MICRO as int);
            assert(((y * y) as int) < (100 * (MICRO as int)) * (MICRO as int)) by (nonlinear_arith)
                requires
                    MICRO <= y < 10 * MICRO;
            lemma_div_lt((y * y) as int, MICRO as int, 100 * (MICRO as int));
        }
        let y2: u64 = y * y / MICRO;
        if y2 >= 10 * MICRO {
            y = y2 / 10;
            frac = frac + bit;
        } else {
            y = y2;
        }
        bit = bit / 2;
    }
    proof {
        if is_pow10_micros(x) {
            lemma_div_by_multiple(MICRO as int, x as int);
            lemma_mul_is_commutative(MICRO as int, x as int);
            assert(mantissa(x) == MICRO);
            lemma_frac_steps_one((MICRO / 2) as nat);
        }
    }
    (lf - 6) * MICRO + frac
}

} // verus!
