//! Integer facts shared by the fixed-point code: Rust's truncating signed
//! division and the value of shifts on non-negative signed integers.
use vstd::prelude::*;
use vstd::arithmetic::power2::{pow2, lemma2_to64, lemma_pow2_pos, lemma_pow2_strictly_increases};
use vstd::bits::{lemma_u32_shl_is_mul, lemma_u32_shr_is_div, lemma_u64_shr_is_div};

verus! {

/// Rust's `/` on signed integers: the quotient rounded toward zero. (Verus's
/// `/` on `int` is Euclidean: for `a >= 0` it already rounds toward zero, for
/// either sign of `b`.)
pub open spec fn tdiv(a: int, b: int) -> int {
    if a >= 0 {
        a / b
    } else {
        -((-a) / b)
    }
}

/// `x` lies in the range of `i32`.
pub open spec fn fits_i32(x: int) -> bool {
    i32::MIN <= x <= i32::MAX
}

/// `x` lies in the range of `i64`.
pub open spec fn fits_i64(x: int) -> bool {
    i64::MIN <= x <= i64::MAX
}

/// A quotient rounded toward zero by a positive divisor keeps the sign of the
/// dividend and does not exceed it in magnitude.
pub proof fn lemma_tdiv_bound(a: int, b: int)
    requires
        b > 0,
    ensures
        a >= 0 ==> 0 <= tdiv(a, b) <= a,
        a < 0 ==> a <= tdiv(a, b) <= 0,
{
    if a >= 0 {
        vstd::arithmetic::div_mod::lemma_div_pos_is_pos(a, b);
        vstd::arithmetic::div_mod::lemma_div_is_ordered_by_denominator(a, 1, b);
    } else {
        vstd::arithmetic::div_mod::lemma_div_pos_is_pos(-a, b);
        vstd::arithmetic::div_mod::lemma_div_is_ordered_by_denominator(-a, 1, b);
    }
}

/// A left shift of a non-negative `i32` that does not overflow is a multiplication by a power of two.
pub proof fn lemma_i32_shl_nonneg(x: i32, s: u32)
    requires
        0 <= x,
        s < 31,
        x * pow2(s as nat) <= i32::MAX,
    ensures
        x << s == x * pow2(s as nat),
{
    assert(x << s == ((x as u32) << s) as i32) by (bit_vector)
        requires
            0 <= x,
            s < 31,
    ;
    lemma_u32_shl_is_mul(x as u32, s);
}

/// A right shift of a non-negative `i32` is a division by a power of two.
pub proof fn lemma_i32_shr_nonneg(x: i32, s: u32)
    requires
        0 <= x,
        s < 31,
    ensures
        x >> s == (x as int) / (pow2(s as nat) as int),
        0 <= x >> s <= x,
{
    assert(x >> s == ((x as u32) >> s) as i32) by (bit_vector)
        requires
            0 <= x,
            s < 31,
    ;
    lemma_u32_shr_is_div(x as u32, s);
    lemma_pow2_pos(s as nat);
    vstd::arithmetic::div_mod::lemma_div_is_ordered_by_denominator(x as int, 1, pow2(s as nat) as int);
    vstd::arithmetic::div_mod::lemma_div_pos_is_pos(x as int, pow2(s as nat) as int);
}

/// A right shift of a non-negative `i64` is a division by a power of two.
pub proof fn lemma_i64_shr_nonneg(x: i64, s: u64)
    requires
        0 <= x,
        s < 63,
    ensures
        x >> s == (x as int) / (pow2(s as nat) as int),
        0 <= x >> s <= x,
{
    assert(x >> s == ((x as u64) >> s) as i64) by (bit_vector)
        requires
            0 <= x,
            s < 63,
    ;
    lemma_u64_shr_is_div(x as u64, s);
    lemma_pow2_pos(s as nat);
    vstd::arithmetic::div_mod::lemma_div_is_ordered_by_denominator(x as int, 1, pow2(s as nat) as int);
    vstd::arithmetic::div_mod::lemma_div_pos_is_pos(x as int, pow2(s as nat) as int);
}

/// Powers of two used by the angle scales: `pow2(a) * pow2(b) == pow2(a + b)`, and the
/// values of the exponents the observer relies on.
pub proof fn lemma_pow2_facts(a: nat, b: nat)
    ensures
        pow2(a) * pow2(b) == pow2(a + b),
        a < b ==> pow2(a) < pow2(b),
        pow2(23) == 0x80_0000,
        pow2(24) == 0x100_0000,
        pow2(30) == 0x4000_0000,
        pow2(a) > 0,
{
    vstd::arithmetic::power2::lemma_pow2_adds(a, b);
    if a < b {
        lemma_pow2_strictly_increases(a, b);
    }
    lemma2_to64();
    lemma_pow2_pos(a);
}

/// `x` clamped to the range of `i64`.
pub open spec fn saturate_i64(x: int) -> int {
    if x > i64::MAX {
        i64::MAX as int
    } else if x < i64::MIN {
        i64::MIN as int
    } else {
        x
    }
}

/// The product, clamped to the range of `i64` (as `i64::saturating_mul`).
pub fn i64_saturating_mul(x: i64, y: i64) -> (r: i64)
    ensures
        r == saturate_i64(x * y),
{
    match x.checked_mul(y) {
        Some(p) => p,
        None => {
            if (x < 0) == (y < 0) {
                assert(x * y >= 0) by (nonlinear_arith)
                    requires (x < 0) == (y < 0);
                i64::MAX
            } else {
                assert(x * y <= 0) by (nonlinear_arith)
                    requires (x < 0) != (y < 0);
                i64::MIN
            }
        }
    }
}

/// The sum, clamped to the range of `i64` (as `i64::saturating_add`).
pub fn i64_saturating_add(x: i64, y: i64) -> (r: i64)
    ensures
        r == saturate_i64(x + y),
{
    match x.checked_add(y) {
        Some(v) => v,
        None => {
            if x < 0 {
                i64::MIN
            } else {
                i64::MAX
            }
        }
    }
}

/// Euclidean division of a non-negative number by a negative divisor rounds toward zero.
pub proof fn lemma_div_by_negative(x: int, d: int)
    ensures
        x >= 0 && d < 0 ==> x / d == -(x / (-d)),
{
    if x >= 0 && d < 0 {
        assert(x / d == -(x / (-d))) by (nonlinear_arith)
            requires x >= 0, d < 0;
    }
}

/// `a / b` on `i32`: the quotient rounded toward zero.
pub fn div_i32(a: i32, b: i32) -> (r: i32)
    requires
        b != 0,
        !(a == i32::MIN && b == -1),
    ensures
        r == tdiv(a as int, b as int),
{
    proof {
        lemma_div_by_negative(a as int, b as int);
        lemma_div_by_negative(-(a as int), b as int);
    }
    if a == i32::MIN && b == i32::MIN {
        proof { vstd::arithmetic::div_mod::lemma_div_by_self(-(a as int)); }
        1
    } else if a == i32::MIN && b < 0 {
        proof {
            vstd::arithmetic::div_mod::lemma_div_is_ordered_by_denominator(-(a as int), 2, -(b as int));
        }
        -(a / -b)
    } else {
        a / b
    }
}

/// `a / b` on `i64`: the quotient rounded toward zero.
pub fn div_i64(a: i64, b: i64) -> (r: i64)
    requires
        b != 0,
        !(a == i64::MIN && b == -1),
    ensures
        r == tdiv(a as int, b as int),
{
    proof {
        lemma_div_by_negative(a as int, b as int);
        lemma_div_by_negative(-(a as int), b as int);
    }
    if a == i64::MIN && b == i64::MIN {
        proof { vstd::arithmetic::div_mod::lemma_div_by_self(-(a as int)); }
        1
    } else if a == i64::MIN && b < 0 {
        proof {
            vstd::arithmetic::div_mod::lemma_div_is_ordered_by_denominator(-(a as int), 2, -(b as int));
        }
        -(a / -b)
    } else {
        a / b
    }
}
} // verus!
