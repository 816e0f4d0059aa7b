//! Fixed-point scalars: one world unit is `ONE` raw units, and a value is
//! finite while its magnitude stays within `COORD_MAX`.
use vstd::prelude::*;

verus! {

/// Raw units per world unit (and per second, and per whole fraction).
pub const ONE: i64 = 1_000_000;

/// One world unit the other way.
pub const MINUS_ONE: i64 = -1_000_000;

/// Largest magnitude that counts as finite: 2^41 raw units.
pub const COORD_MAX: i64 = 2_199_023_255_552;

/// Whether `a` lies in the finite range.
pub open spec fn in_range(a: int) -> bool {
    -COORD_MAX <= a <= COORD_MAX
}

/// Magnitude of an integer.
pub open spec fn magnitude(a: int) -> int {
    if a >= 0 {
        a
    } else {
        -a
    }
}

/// `n / d` rounded to the nearest integer, halves away from zero. Meant for `d > 0`.
pub open spec fn round_div(n: int, d: int) -> int {
    if n >= 0 {
        (2 * n + d) / (2 * d)
    } else {
        -((2 * (-n) + d) / (2 * d))
    }
}

/// The finite value `a`, or nothing where `a` has left the finite range.
pub open spec fn finite_or_none(a: int) -> Option<i64> {
    if in_range(a) {
        Some(a as i64)
    } else {
        None
    }
}

/// Rounded quotient of two wide integers.
pub fn div_round(n: i128, d: i128) -> (q: i128)
    requires
        d > 0,
        2 * magnitude(n as int) + d <= u128::MAX,
        magnitude(n as int) < i128::MAX,
    ensures
        q == round_div(n as int, d as int),
{
    let den: u128 = d as u128;
    if n >= 0 {
        let m: u128 = n as u128;
        let q: u128 = (2 * m + den) / (2 * den);
        proof {
            // the quotient is at most half the dividend, which fits
            vstd::arithmetic::div_mod::lemma_div_is_ordered_by_denominator(
                (2 * m + den) as int,
                2,
                (2 * den) as int,
            );
        }
        q as i128
    } else {
        let m: u128 = (-n) as u128;
        let q: u128 = (2 * m + den) / (2 * den);
        proof {
            // the quotient is at most half the dividend, which fits
            vstd::arithmetic::div_mod::lemma_div_is_ordered_by_denominator(
                (2 * m + den) as int,
                2,
                (2 * den) as int,
            );
        }
        -(q as i128)
    }
}

/// `a * num / den`, rounded, where the result is finite.
pub fn mul_div(a: i64, num: i64, den: i64) -> (res: Option<i64>)
    requires
        den > 0,
    ensures
        res == finite_or_none(round_div(a * num, den as int)),
{
    assert(-0x4000_0000_0000_0000_0000_0000_0000_0000 <= a * num
        <= 0x4000_0000_0000_0000_0000_0000_0000_0000) by (nonlinear_arith)
        requires
            -0x8000_0000_0000_0000 <= a <= 0x7fff_ffff_ffff_ffff,
            -0x8000_0000_0000_0000 <= num <= 0x7fff_ffff_ffff_ffff,
    ;
    let wide: i128 = (a as i128) * (num as i128);
    let q: i128 = div_round(wide, den as i128);
    if -(COORD_MAX as i128) <= q && q <= COORD_MAX as i128 {
        Some(q as i64)
    } else {
        None
    }
}

/// A product is bounded by the product of its factors' bounds.
pub proof fn lemma_product_bound(a: int, b: int, ma: int, mb: int)
    by (nonlinear_arith)
    requires
        -ma <= a <= ma,
        -mb <= b <= mb,
    ensures
        -(ma * mb) <= a * b <= ma * mb,
{
}

/// A multiple of the divisor is divided without rounding.
pub proof fn lemma_round_div_exact(q: int, d: int)
    requires
        d > 0,
    ensures
        round_div(q * d, d) == q,
{
    if q >= 0 {
        assert(q * d >= 0) by (nonlinear_arith)
            requires
                q >= 0,
                d > 0,
        ;
        assert(2 * (q * d) + d == q * (2 * d) + d) by (nonlinear_arith);
        vstd::arithmetic::div_mod::lemma_fundamental_div_mod_converse(
            2 * (q * d) + d,
            2 * d,
            q,
            d,
        );
    } else {
        assert(q * d < 0) by (nonlinear_arith)
            requires
                q < 0,
                d > 0,
        ;
        assert(2 * (-(q * d)) + d == (-q) * (2 * d) + d) by (nonlinear_arith);
        vstd::arithmetic::div_mod::lemma_fundamental_div_mod_converse(
            2 * (-(q * d)) + d,
            2 * d,
            -q,
            d,
        );
    }
}

/// A rounded quotient is within half a unit of the exact one.
pub proof fn lemma_round_div_near(n: int, d: int)
    requires
        d > 0,
    ensures
        -d <= 2 * (round_div(n, d) * d - n) <= d,
{
    let m: int = magnitude(n);
    let x: int = 2 * m + d;
    let q: int = x / (2 * d);
    let r: int = x % (2 * d);
    vstd::arithmetic::div_mod::lemma_fundamental_div_mod(x, 2 * d);
    vstd::arithmetic::div_mod::lemma_mod_bound(x, 2 * d);
    assert((2 * d) * q == 2 * (q * d)) by (nonlinear_arith);
    assert(2 * (q * d - m) == d - r);
    if n < 0 {
        assert((-q) * d == -(q * d)) by (nonlinear_arith);
    }
}

/// Rounded division keeps the order of the dividends, and the sign of the dividend.
pub proof fn lemma_round_div_monotone(a: int, b: int, d: int)
    requires
        a <= b,
        d > 0,
    ensures
        round_div(a, d) <= round_div(b, d),
        a >= 0 ==> round_div(a, d) >= 0,
        b <= 0 ==> round_div(b, d) <= 0,
{
    vstd::arithmetic::div_mod::lemma_div_pos_is_pos(2 * magnitude(a) + d, 2 * d);
    vstd::arithmetic::div_mod::lemma_div_pos_is_pos(2 * magnitude(b) + d, 2 * d);
    if a >= 0 {
        vstd::arithmetic::div_mod::lemma_div_is_ordered(2 * a + d, 2 * b + d, 2 * d);
    } else if b < 0 {
        vstd::arithmetic::div_mod::lemma_div_is_ordered(2 * (-b) + d, 2 * (-a) + d, 2 * d);
    }
    if b == 0 {
        assert((2 * 0 + d) / (2 * d) == 0) by (nonlinear_arith)
            requires
                d > 0,
        ;
    }
}

} // verus!
