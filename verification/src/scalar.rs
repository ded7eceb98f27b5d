//! Fixed-point scalar arithmetic.
//!
//! Every real-valued quantity of the optimizers (positions, velocities,
//! loudness, pulse rates, fragrance, fitness) is carried as an `i64`
//! holding the quantity scaled by [`SCALE`]: one unit of the underlying
//! quantity is `SCALE` ticks.  Arithmetic saturates at the `i64` range
//! instead of overflowing, and division is total: a zero divisor yields
//! the saturated value of the matching sign, in the way an infinity
//! would propagate.

use vstd::prelude::*;

verus! {

/// Number of ticks in one unit: all scaled quantities are i64 counts of
/// millionths.
pub const SCALE: i64 = 1_000_000;

/// Absolute value over mathematical integers.
pub open spec fn abs_int(x: int) -> int {
    if x >= 0 {
        x
    } else {
        -x
    }
}

/// Saturation of a mathematical integer into the `i64` range.
pub open spec fn sat64(x: int) -> int {
    if x > i64::MAX {
        i64::MAX as int
    } else if x < i64::MIN {
        i64::MIN as int
    } else {
        x
    }
}

/// Truncating division (the semantics of `/` on machine integers),
/// extended with 0 for a zero divisor.
pub open spec fn trunc_div(a: int, d: int) -> int {
    if d == 0 {
        0
    } else if (a >= 0) == (d >= 0) {
        abs_int(a) / abs_int(d)
    } else {
        -(abs_int(a) / abs_int(d))
    }
}

/// Total division of scaled values: `n / d` carried back into scale,
/// saturated; a zero divisor propagates a saturated value of the sign
/// of the numerator, as dividing by zero would propagate an infinity.
pub open spec fn div_total(n: int, d: int) -> int {
    if d == 0 {
        if n > 0 {
            i64::MAX as int
        } else if n < 0 {
            i64::MIN as int
        } else {
            0
        }
    } else {
        sat64(trunc_div(n * SCALE, d))
    }
}

/// Product of two scaled values, rescaled and saturated.
pub open spec fn mul_down(a: int, b: int) -> int {
    sat64(trunc_div(a * b, SCALE as int))
}

/// `x` forced into `[lo, hi]`: the value of one clamped component.
pub open spec fn clamp_int(x: int, lo: int, hi: int) -> int {
    if x < lo {
        lo
    } else if x > hi {
        hi
    } else {
        x
    }
}

pub open spec fn min_int(a: int, b: int) -> int {
    if a <= b {
        a
    } else {
        b
    }
}

pub open spec fn max_int(a: int, b: int) -> int {
    if a >= b {
        a
    } else {
        b
    }
}

/// Saturating addition of two scaled values.
pub fn sat_add(a: i64, b: i64) -> (r: i64)
    ensures
        r == sat64(a + b),
{
    match a.checked_add(b) {
        Some(v) => v,
        None => {
            if a > 0 {
                i64::MAX
            } else {
                i64::MIN
            }
        },
    }
}

/// Saturating subtraction of two scaled values.
pub fn sat_sub(a: i64, b: i64) -> (r: i64)
    ensures
        r == sat64(a - b),
{
    match a.checked_sub(b) {
        Some(v) => v,
        None => {
            if a >= 0 {
                i64::MAX
            } else {
                i64::MIN
            }
        },
    }
}

/// Saturation of an `i128` into the `i64` range.
fn clip_to_i64(q: i128) -> (r: i64)
    ensures
        r == sat64(q as int),
{
    if q > i64::MAX as i128 {
        i64::MAX
    } else if q < i64::MIN as i128 {
        i64::MIN
    } else {
        q as i64
    }
}

/// Product of two `i64` values, exact in the wider type.
pub fn widening_mul(a: i64, b: i64) -> (p: i128)
    ensures
        p == a as int * b as int,
{
    proof {
        assert(i128::MIN <= a as int * b as int <= i128::MAX) by (nonlinear_arith)
            requires
                i64::MIN <= a as int <= i64::MAX,
                i64::MIN <= b as int <= i64::MAX,
        ;
    }
    (a as i128) * (b as i128)
}

/// Product of two scaled values, rescaled back by `SCALE` and saturated.
pub fn mul_scaled(a: i64, b: i64) -> (r: i64)
    ensures
        r == mul_down(a as int, b as int),
{
    let p: i128 = widening_mul(a, b);
    let q: i128 = match p.checked_div(SCALE as i128) {
        Some(v) => v,
        None => 0,
    };
    proof {
        assert(q == trunc_div(p as int, SCALE as int));
    }
    clip_to_i64(q)
}

/// Total division of scaled values; see [`div_total`].
pub fn div_scaled(n: i64, d: i64) -> (r: i64)
    ensures
        r == div_total(n as int, d as int),
{
    if d == 0 {
        if n > 0 {
            i64::MAX
        } else if n < 0 {
            i64::MIN
        } else {
            0
        }
    } else {
        let p: i128 = widening_mul(n, SCALE);
        let q: i128 = match p.checked_div(d as i128) {
            Some(v) => v,
            None => 0,
        };
        clip_to_i64(q)
    }
}

/// `x` forced into `[lo, hi]` (`lo` wins where the interval is empty).
pub fn clamp_i64(x: i64, lo: i64, hi: i64) -> (r: i64)
    ensures
        r == clamp_int(x as int, lo as int, hi as int),
{
    if x < lo {
        lo
    } else if x > hi {
        hi
    } else {
        x
    }
}

/// Rescaled products of unit-interval values stay in the unit
/// interval.
pub proof fn lemma_mul_down_unit(a: int, b: int)
    requires
        0 <= a <= SCALE,
        0 <= b <= SCALE,
    ensures
        0 <= mul_down(a, b) <= SCALE,
{
    assert(0 <= a * b <= SCALE * SCALE) by (nonlinear_arith)
        requires
            0 <= a <= SCALE,
            0 <= b <= SCALE,
    ;
    let q = trunc_div(a * b, SCALE as int);
    assert(q == a * b / (SCALE as int));
    vstd::arithmetic::div_mod::lemma_fundamental_div_mod(a * b, SCALE as int);
    vstd::arithmetic::div_mod::lemma_mod_bound(a * b, SCALE as int);
    assert(0 <= q <= SCALE) by (nonlinear_arith)
        requires
            a * b == SCALE * q + (a * b) % (SCALE as int),
            0 <= (a * b) % (SCALE as int) < SCALE,
            0 <= a * b <= SCALE * SCALE,
            SCALE > 0,
    ;
}

/// Scaling a non-negative value by a unit-interval factor never grows
/// it and never takes it below zero.
pub proof fn lemma_mul_down_contract(a: int, c: int)
    requires
        0 <= a <= i64::MAX,
        0 <= c <= SCALE,
    ensures
        0 <= mul_down(a, c) <= a,
{
    assert(0 <= a * c <= a * SCALE) by (nonlinear_arith)
        requires
            0 <= a,
            0 <= c <= SCALE,
    ;
    let q = trunc_div(a * c, SCALE as int);
    assert(q == a * c / (SCALE as int));
    vstd::arithmetic::div_mod::lemma_div_pos_is_pos(a * c, SCALE as int);
    vstd::arithmetic::div_mod::lemma_div_is_ordered(a * c, a * SCALE, SCALE as int);
    vstd::arithmetic::div_mod::lemma_div_multiples_vanish(a, SCALE as int);
    assert(a * SCALE == (SCALE as int) * a);
}

/// `r` is the integer square root of `x`: the unique non-negative root
/// whose square does not exceed `x`.
pub open spec fn is_isqrt_of(x: int, r: int) -> bool {
    0 <= r && r * r <= x && x < (r + 1) * (r + 1)
}

/// The integer square root as a value.
pub open spec fn isqrt_spec(x: int) -> int
    recommends
        x >= 0,
{
    choose|r: int| is_isqrt_of(x, r)
}

/// At most one non-negative integer squares to just below a value.
pub proof fn lemma_isqrt_unique(x: int, r1: int, r2: int)
    requires
        0 <= r1,
        0 <= r2,
        r1 * r1 <= x < (r1 + 1) * (r1 + 1),
        r2 * r2 <= x < (r2 + 1) * (r2 + 1),
    ensures
        r1 == r2,
{
    assert(!(r1 < r2) && !(r2 < r1)) by (nonlinear_arith)
        requires
            0 <= r1,
            0 <= r2,
            r1 * r1 <= x < (r1 + 1) * (r1 + 1),
            r2 * r2 <= x < (r2 + 1) * (r2 + 1),
    ;
}

/// Integer square root: the greatest integer whose square does not
/// exceed the argument.
pub fn isqrt_u64(x: u64) -> (r: u64)
    ensures
        r * r <= x,
        (r + 1) * (r + 1) > x,
        r == isqrt_spec(x as int),
{
    let mut lo: u64 = 0;
    let mut hi: u64 = 0xFFFF_FFFF;
    proof {
        assert((hi + 1) * (hi + 1) > u64::MAX) by (nonlinear_arith)
            requires
                hi == 0xFFFF_FFFFu64,
        ;
    }
    while lo < hi
        invariant
            lo <= hi <= 0xFFFF_FFFF,
            lo * lo <= x,
            (hi + 1) * (hi + 1) > x,
        decreases hi - lo,
    {
        let mid = lo + (hi - lo + 1) / 2;
        proof {
            assert(mid * mid <= u64::MAX) by (nonlinear_arith)
                requires
                    0 <= mid <= 0xFFFF_FFFF,
            ;
        }
        let sq = mid * mid;
        if sq <= x {
            lo = mid;
        } else {
            hi = mid - 1;
        }
    }
    proof {
        let ground = lo as int;
        let next = ground + 1;
        assert(0 <= ground && ground * ground <= x as int && (x as int) < next * next);
        assert(is_isqrt_of(x as int, ground));
        let c = isqrt_spec(x as int);
        assert(is_isqrt_of(x as int, c));
        lemma_isqrt_unique(x as int, lo as int, c);
    }
    lo
}

/// Square root of a scaled unit-interval value, staying in scale: the
/// result squares, up to rounding, back to the argument.
pub fn sqrt_scaled(x: i64) -> (r: i64)
    requires
        0 <= x <= SCALE,
    ensures
        0 <= r <= SCALE,
        r * r <= x * SCALE,
        (r + 1) * (r + 1) > x * SCALE,
        r == isqrt_spec(x as int * SCALE),
{
    proof {
        assert(x as int * SCALE <= 1_000_000_000_000) by (nonlinear_arith)
            requires
                0 <= x as int <= SCALE,
                SCALE == 1_000_000,
        ;
    }
    let prod: u64 = (x as u64) * (SCALE as u64);
    let r = isqrt_u64(prod);
    proof {
        assert(r <= SCALE) by (nonlinear_arith)
            requires
                r * r <= prod,
                prod <= 1_000_000_000_000,
                SCALE == 1_000_000,
                r >= 0,
        ;
    }
    r as i64
}

/// Binary exponentiation of a whole exponent over rescaled products,
/// carried by an accumulator.
pub open spec fn pow_bits(acc: int, cur: int, n: nat) -> int
    decreases n,
{
    if n == 0 {
        acc
    } else {
        pow_bits(
            if n % 2 == 1 {
                mul_down(acc, cur)
            } else {
                acc
            },
            mul_down(cur, cur),
            n / 2,
        )
    }
}

/// The fractional part of an exponent, worked off binary digit by
/// binary digit with one square root per digit.
pub open spec fn pow_fraction_bits(acc: int, s: int, fraction: int, k: nat) -> int
    decreases k,
{
    if k == 0 {
        acc
    } else {
        let s2 = isqrt_spec(s * SCALE);
        let f2 = fraction * 2;
        if f2 >= SCALE {
            pow_fraction_bits(mul_down(acc, s2), s2, f2 - SCALE, (k - 1) as nat)
        } else {
            pow_fraction_bits(acc, s2, f2, (k - 1) as nat)
        }
    }
}

/// Number of binary fraction digits [`pow_frac`] works off.
pub const POW_FRACTION_DIGITS: u64 = 20;

/// The value [`pow_frac`] computes: the whole part of the exponent by
/// binary exponentiation, then its fraction by bisected square roots.
/// A negative exponent is treated as zero.
pub open spec fn pow_frac_spec(base: int, exponent: int) -> int {
    let e = if exponent < 0 {
        0
    } else {
        exponent
    };
    let whole = pow_bits(SCALE as int, base, (e / (SCALE as int)) as nat);
    pow_fraction_bits(whole, base, e % (SCALE as int), POW_FRACTION_DIGITS as nat)
}

/// A unit-interval base raised to a non-negative scaled exponent,
/// staying in the unit interval: repeated squaring for the whole part
/// of the exponent and bisected square roots for its fraction.
pub fn pow_frac(base: i64, exponent: i64) -> (r: i64)
    requires
        0 <= base <= SCALE,
    ensures
        0 <= r <= SCALE,
        r == pow_frac_spec(base as int, exponent as int),
{
    let e: u64 = if exponent < 0 {
        0
    } else {
        exponent as u64
    };
    let ghost n0: nat = (e / (SCALE as u64)) as nat;
    let mut n: u64 = e / (SCALE as u64);
    let mut fraction: i64 = (e % (SCALE as u64)) as i64;
    let ghost fraction0: int = fraction as int;
    let mut acc: i64 = SCALE;
    let mut cur: i64 = base;
    while n > 0
        invariant
            0 <= acc <= SCALE,
            0 <= cur <= SCALE,
            pow_bits(acc as int, cur as int, n as nat) == pow_bits(SCALE as int, base as int, n0),
        decreases n,
    {
        if n % 2 == 1 {
            proof {
                lemma_mul_down_unit(acc as int, cur as int);
            }
            acc = mul_scaled(acc, cur);
        }
        proof {
            lemma_mul_down_unit(cur as int, cur as int);
        }
        cur = mul_scaled(cur, cur);
        n = n / 2;
    }
    let ghost whole: int = acc as int;
    let mut s: i64 = base;
    let mut k: u64 = 0;
    while k < POW_FRACTION_DIGITS
        invariant
            k <= POW_FRACTION_DIGITS,
            0 <= acc <= SCALE,
            0 <= s <= SCALE,
            0 <= fraction < SCALE,
            pow_fraction_bits(acc as int, s as int, fraction as int, (POW_FRACTION_DIGITS - k) as nat)
                == pow_fraction_bits(whole, base as int, fraction0, POW_FRACTION_DIGITS as nat),
        decreases POW_FRACTION_DIGITS - k,
    {
        s = sqrt_scaled(s);
        fraction = fraction * 2;
        if fraction >= SCALE {
            fraction = fraction - SCALE;
            proof {
                lemma_mul_down_unit(acc as int, s as int);
            }
            acc = mul_scaled(acc, s);
        }
        k += 1;
    }
    acc
}

/// Raising to the exponent zero yields one, whatever the base.
pub proof fn lemma_pow_frac_zero_exponent(base: int)
    requires
        0 <= base <= SCALE,
    ensures
        pow_frac_spec(base, 0) == SCALE,
{
    lemma_pow_fraction_of_zero(SCALE as int, base, POW_FRACTION_DIGITS as nat);
}

/// Raising to the exponent one yields the base back.
pub proof fn lemma_pow_frac_unit_exponent(base: int)
    requires
        0 <= base <= SCALE,
    ensures
        pow_frac_spec(base, SCALE as int) == base,
{
    assert(SCALE as int / SCALE as int == 1 && SCALE as int % SCALE as int == 0) by {
        vstd::arithmetic::div_mod::lemma_div_basics(SCALE as int);
        vstd::arithmetic::div_mod::lemma_mod_self_0(SCALE as int);
    }
    assert(mul_down(SCALE as int, base) == base) by {
        vstd::arithmetic::div_mod::lemma_div_multiples_vanish(base, SCALE as int);
        assert(SCALE as int * base == base * SCALE);
    }
    assert(pow_bits(SCALE as int, base, 1) == pow_bits(base, mul_down(base, base), 0));
    lemma_pow_fraction_of_zero(base, base, POW_FRACTION_DIGITS as nat);
}

/// A zero fraction multiplies nothing in, whatever the digit budget.
proof fn lemma_pow_fraction_of_zero(acc: int, s: int, k: nat)
    ensures
        pow_fraction_bits(acc, s, 0, k) == acc,
    decreases k,
{
    if k > 0 {
        lemma_pow_fraction_of_zero(acc, isqrt_spec(s * SCALE), (k - 1) as nat);
    }
}

} // verus!
