//! Exact integer arithmetic for money.
//!
//! Prices and cash are whole numbers of one minor unit (the caller chooses
//! which: cents, pips, ...), positions are whole lots, and a commission rate
//! is a number of parts per [`RATE_SCALE`]. Every formula is evaluated
//! exactly and rounded once: a cash amount is rounded down to a whole
//! unit, so that a commission counts a fraction of a unit as a whole one,
//! and a number of lots loses its fraction. Results therefore never depend
//! on how the arithmetic was carried out.

use vstd::arithmetic::div_mod::lemma_fundamental_div_mod;
use vstd::arithmetic::div_mod::lemma_fundamental_div_mod_converse;
use vstd::prelude::*;

verus! {

/// A commission rate `r` stands for the fraction `r / RATE_SCALE`.
pub const RATE_SCALE: u32 = 1_000_000;

/// The largest magnitude that the product of two `i64` values can reach.
pub const PRODUCT_LIMIT: i128 = 0x4000_0000_0000_0000_0000_0000_0000_0000;

/// `x` can be stored as an `i64`.
pub open spec fn fits_i64(x: int) -> bool {
    i64::MIN <= x <= i64::MAX
}

/// The absolute value of `x`.
pub open spec fn magnitude(x: int) -> int {
    if x >= 0 {
        x
    } else {
        -x
    }
}

/// The quotient `n / d` with its fraction dropped, for a positive `d`:
/// rounded down when `n` is positive and up when it is negative.
pub open spec fn toward_zero(n: int, d: int) -> int
    recommends
        d > 0,
{
    if n >= 0 {
        n / d
    } else {
        -((-n) / d)
    }
}

/// The commission due on a trade of the given notional value: the rate
/// applied to the notional's magnitude, a fraction of a unit counting as a
/// whole unit.
pub open spec fn commission_on(notional: int, rate: int) -> int {
    (magnitude(notional) * rate + (RATE_SCALE - 1)) / (RATE_SCALE as int)
}

/// A commission is never negative and never more than the notional it is
/// charged on, and a zero rate charges nothing.
pub proof fn lemma_commission_bounds(notional: int, rate: int)
    requires
        0 <= rate < RATE_SCALE,
    ensures
        0 <= commission_on(notional, rate) <= magnitude(notional),
        rate == 0 ==> commission_on(notional, rate) == 0,
        notional == 0 ==> commission_on(notional, rate) == 0,
{
    let m = magnitude(notional);
    assert(0 <= m * rate <= m * (RATE_SCALE - 1)) by (nonlinear_arith)
        requires
            0 <= m,
            0 <= rate <= RATE_SCALE - 1,
    ;
    assert(m * (RATE_SCALE - 1) == m * RATE_SCALE - m) by (nonlinear_arith);
    if rate == 0 {
        assert(m * rate == 0) by (nonlinear_arith)
            requires
                rate == 0,
        ;
    }
    if notional == 0 {
        assert(m * rate == 0) by (nonlinear_arith)
            requires
                m == 0,
        ;
    }
}

/// The exact product of two `i64` values.
pub fn product(a: i64, b: i64) -> (r: i128)
    ensures
        r == a * b,
        -PRODUCT_LIMIT <= r <= PRODUCT_LIMIT,
{
    assert(-PRODUCT_LIMIT <= a * b <= PRODUCT_LIMIT) by (nonlinear_arith)
        requires
            -0x8000_0000_0000_0000 <= a <= 0x7fff_ffff_ffff_ffff,
            -0x8000_0000_0000_0000 <= b <= 0x7fff_ffff_ffff_ffff,
    ;
    (a as i128) * (b as i128)
}

/// How [`toward_zero`] relates to the remainder it leaves and to the
/// quotient rounded down: the remainder is smaller than the divisor and has
/// the sign of the dividend, and rounding down takes one more unit exactly
/// when the remainder is negative.
pub proof fn lemma_toward_zero(n: int, d: int)
    requires
        d > 0,
    ensures
        ({
            let q = toward_zero(n, d);
            let r = n - q * d;
            &&& n >= 0 ==> 0 <= r < d && q >= 0 && 0 <= q * d <= n && r == n % d
            &&& n <= 0 ==> -d < r <= 0 && q <= 0 && n <= q * d <= 0 && r == -((-n) % d)
            &&& n / d == if r < 0 { q - 1 } else { q }
            &&& magnitude(q * d) <= magnitude(n)
            &&& magnitude(q) <= magnitude(n)
        }),
{
    let q = toward_zero(n, d);
    let r = n - q * d;
    let m = magnitude(n);
    let k = m / d;
    lemma_fundamental_div_mod(m, d);
    assert(d * k == k * d) by (nonlinear_arith);
    assert(0 <= k) by (nonlinear_arith)
        requires
            d > 0,
            m >= 0,
            m == k * d + m % d,
            m % d < d,
    ;
    assert(0 <= k * d) by (nonlinear_arith)
        requires
            0 <= k,
            d > 0,
    ;
    assert(k <= k * d) by (nonlinear_arith)
        requires
            0 <= k,
            d >= 1,
    ;
    if n >= 0 {
        assert(q == k);
    } else {
        assert(q == -k);
        assert(q * d == -(k * d)) by (nonlinear_arith)
            requires
                q == -k,
        ;
        if r < 0 {
            assert((q - 1) * d == q * d - d) by (nonlinear_arith);
            lemma_fundamental_div_mod_converse(n, d, q - 1, r + d);
        } else {
            lemma_fundamental_div_mod_converse(n, d, q, 0);
        }
    }
}

/// `n / d` rounded toward zero, for a positive `d`.
pub fn trunc_div(n: i128, d: i128) -> (q: i128)
    requires
        d > 0,
    ensures
        q == toward_zero(n as int, d as int),
{
    proof {
        lemma_toward_zero(n as int, d as int);
    }
    n / d
}

/// `n / d` rounded down, for a positive `d`.
pub fn floor_div(n: i128, d: i128) -> (q: i128)
    requires
        d > 0,
    ensures
        q == (n as int) / (d as int),
{
    proof {
        lemma_toward_zero(n as int, d as int);
    }
    let q: i128 = n / d;
    let r: i128 = n % d;
    if r < 0 {
        assert(q * d <= 2 * q) by (nonlinear_arith)
            requires
                q <= 0,
                d >= 2,
        ;
        q - 1
    } else {
        q
    }
}

/// The commission due on `notional` at `rate`, computed without leaving
/// 128 bits.
pub fn commission(notional: i128, rate: u32) -> (fee: i128)
    requires
        rate < RATE_SCALE,
    ensures
        fee == commission_on(notional as int, rate as int),
        0 <= fee <= magnitude(notional as int),
{
    let size: u128 = if notional >= 0 {
        notional as u128
    } else if notional == i128::MIN {
        0x8000_0000_0000_0000_0000_0000_0000_0000
    } else {
        (-notional) as u128
    };
    let scale: u128 = RATE_SCALE as u128;
    let whole: u128 = size / scale;
    let part: u128 = size % scale;
    proof {
        lemma_commission_bounds(notional as int, rate as int);
        assert(size * rate == scale * (whole * rate) + part * rate) by (nonlinear_arith)
            requires
                size == scale * whole + part,
        ;
        assert(0 <= whole * rate <= whole * (scale - 1)) by (nonlinear_arith)
            requires
                0 <= rate <= scale - 1,
                0 <= whole,
        ;
        assert(0 <= part * rate <= 1_000_000 * 1_000_000) by (nonlinear_arith)
            requires
                0 <= rate <= 1_000_000,
                0 <= part <= 1_000_000,
        ;
    }
    let fee: u128 = whole * (rate as u128) + (part * (rate as u128) + (scale - 1)) / scale;
    fee as i128
}

} // verus!
