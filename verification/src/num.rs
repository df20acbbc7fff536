//! Fixed-point arithmetic helpers shared by the viewport, zoom, tick and
//! sampling modules: truncating and flooring division by a positive divisor,
//! rounding to a multiple, and clamping.

use vstd::prelude::*;

verus! {

/// Quotient of `a / b` rounded toward zero, as Rust's `/` computes it
/// for a positive divisor `b`.
pub open spec fn div_trunc(a: int, b: int) -> int {
    if a >= 0 {
        a / b
    } else {
        -((-a) / b)
    }
}

/// Remainder of `a / b` with the sign of `a`, as Rust's `%` computes it
/// for a positive divisor `b`.
pub open spec fn rem_trunc(a: int, b: int) -> int {
    a - b * div_trunc(a, b)
}

/// `v` rounded to the nearest multiple of `m`, halves away from zero.
pub open spec fn round_to_multiple(v: int, m: int) -> int {
    if v >= 0 {
        ((v + m / 2) / m) * m
    } else {
        -((((-v) + m / 2) / m) * m)
    }
}

/// `v` pulled into the interval `[lo, hi]`.
pub open spec fn spec_clamp(v: int, lo: int, hi: int) -> int {
    if v < lo {
        lo
    } else if v > hi {
        hi
    } else {
        v
    }
}

/// Truncating division of machine integers, pinned to `div_trunc`.
pub fn exec_div_trunc(a: i64, b: i64) -> (r: i64)
    requires
        b > 0,
        a != i64::MIN,
    ensures
        r == div_trunc(a as int, b as int),
{
    a / b
}

/// Truncating division and remainder satisfy the division identity, with
/// the remainder in `(-b, b)` on the side of the dividend's sign.
pub proof fn lemma_fundamental_div_rem_trunc(a: int, b: int)
    requires
        b > 0,
    ensures
        a == b * div_trunc(a, b) + rem_trunc(a, b),
        a >= 0 ==> rem_trunc(a, b) == a % b && 0 <= rem_trunc(a, b) < b,
        a < 0 ==> rem_trunc(a, b) == -((-a) % b) && -b < rem_trunc(a, b) <= 0,
{
    if a >= 0 {
        vstd::arithmetic::div_mod::lemma_fundamental_div_mod(a, b);
        vstd::arithmetic::div_mod::lemma_mod_division_less_than_divisor(a, b);
    } else {
        vstd::arithmetic::div_mod::lemma_fundamental_div_mod(-a, b);
        vstd::arithmetic::div_mod::lemma_mod_division_less_than_divisor(-a, b);
        vstd::arithmetic::mul::lemma_mul_unary_negation(b, (-a) / b);
    }
}

/// Truncating remainder of machine integers, pinned to `rem_trunc`.
pub fn exec_rem_trunc(a: i64, b: i64) -> (r: i64)
    requires
        b > 0,
        a != i64::MIN,
    ensures
        r == rem_trunc(a as int, b as int),
{
    proof {
        lemma_fundamental_div_rem_trunc(a as int, b as int);
    }
    a % b
}

/// Flooring division of machine integers; for a positive divisor this is
/// the Euclidean quotient `a / b` of the specification language.
pub fn exec_div_floor(a: i64, b: i64) -> (r: i64)
    requires
        b > 0,
        a != i64::MIN,
    ensures
        r == a as int / b as int,
{
    let q: i64 = a / b;
    let rem: i64 = a % b;
    proof {
        lemma_fundamental_div_rem_trunc(a as int, b as int);
        vstd::arithmetic::mul::lemma_mul_is_distributive_sub_other_way(
            b as int,
            q as int,
            1,
        );
        vstd::arithmetic::mul::lemma_mul_is_commutative(q as int, b as int);
        vstd::arithmetic::div_mod::lemma_fundamental_div_mod_converse(
            a as int,
            b as int,
            if rem < 0 { q - 1 } else { q as int },
            if rem < 0 { rem + b } else { rem as int },
        );
    }
    if rem < 0 {
        q - 1
    } else {
        q
    }
}

/// Clamping of machine integers, pinned to `spec_clamp`.
pub fn exec_clamp(v: i64, lo: i64, hi: i64) -> (r: i64)
    requires
        lo <= hi,
    ensures
        r == spec_clamp(v as int, lo as int, hi as int),
        lo <= r <= hi,
{
    if v < lo {
        lo
    } else if v > hi {
        hi
    } else {
        v
    }
}

/// A product of bounded factors is bounded by the product of the bounds.
pub proof fn lemma_mul_bounds_abs(v: int, s: int, vb: int, sb: int)
    by (nonlinear_arith)
    requires
        -vb <= v <= vb,
        0 <= s <= sb,
        0 <= vb,
    ensures
        -(vb * sb) <= v * s <= vb * sb,
{
}

/// For a nonnegative dividend, the quotient times the divisor stays
/// between zero and the dividend.
pub proof fn lemma_div_mul_le(s: int, m: int)
    requires
        s >= 0,
        m > 0,
    ensures
        0 <= (s / m) * m <= s,
{
    vstd::arithmetic::div_mod::lemma_fundamental_div_mod(s, m);
    vstd::arithmetic::div_mod::lemma_mod_division_less_than_divisor(s, m);
    vstd::arithmetic::div_mod::lemma_div_pos_is_pos(s, m);
    vstd::arithmetic::mul::lemma_mul_nonnegative(s / m, m);
    vstd::arithmetic::mul::lemma_mul_is_commutative(s / m, m);
}

/// Rounding of machine integers to a multiple, pinned to `round_to_multiple`.
pub fn exec_round_to_multiple(v: i64, m: i64) -> (r: i64)
    requires
        0 < m <= 1_000_000,
        -1_000_000_000_000_000_000 < v < 1_000_000_000_000_000_000,
    ensures
        r == round_to_multiple(v as int, m as int),
        v >= 0 ==> 0 <= r <= v + m / 2,
        v < 0 ==> v - m / 2 <= r <= 0,
{
    let half: i64 = m / 2;
    if v >= 0 {
        let s: i64 = v + half;
        let q: i64 = s / m;
        proof {
            lemma_div_mul_le(s as int, m as int);
        }
        q * m
    } else {
        let s: i64 = -v + half;
        let q: i64 = s / m;
        proof {
            lemma_div_mul_le(s as int, m as int);
        }
        -(q * m)
    }
}

} // verus!
