//! `IntAngle<BITS>`: a rotor angle counted in steps of `1 / 2^BITS` of a turn,
//! so that a full turn is `2^BITS` and half a turn `2^(BITS - 1)`.
use vstd::prelude::*;
use vstd::arithmetic::power2::pow2;
use crate::arith::{lemma_i32_shl_nonneg, lemma_pow2_facts};

verus! {

/// The raw count of a full turn for a `bits`-bit angle, `2^bits`.
pub open spec fn full_turn(bits: nat) -> int {
    pow2(bits) as int
}

/// The raw count of half a turn for a `bits`-bit angle, `2^(bits - 1)`.
pub open spec fn half_turn(bits: nat) -> int {
    pow2((bits - 1) as nat) as int
}

/// The range of `i32` values, `2^32`.
pub open spec fn i32_range() -> int {
    0x1_0000_0000
}

/// A value congruent to `x` modulo `2^32` is congruent to it modulo a full
/// turn of `bits <= 30` bits: wrapping `i32` arithmetic on raw counts is exact
/// as arithmetic on angles.
pub proof fn lemma_wrap_exact_mod_turn(x: int, v: int, bits: nat)
    requires
        1 <= bits <= 30,
        (v - x) % i32_range() == 0,
    ensures
        v % full_turn(bits) == x % full_turn(bits),
{
    let t = full_turn(bits);
    lemma_pow2_facts(bits, (32 - bits) as nat);
    vstd::arithmetic::power2::lemma2_to64();
    let c = pow2((32 - bits) as nat) as int;
    let q = (v - x) / i32_range();
    vstd::arithmetic::div_mod::lemma_fundamental_div_mod(v - x, i32_range());
    assert(v == x + (c * q) * t) by (nonlinear_arith)
        requires
            v - x == i32_range() * q + 0,
            t * c == i32_range();
    vstd::arithmetic::div_mod::lemma_mod_multiples_vanish(c * q, x, t);
}

/// Wrapping an integer into `i32` changes it by a multiple of `2^32`.
proof fn lemma_crop_congruent(x: int)
    ensures
        (vstd::wrapping::i32_specs::signed_crop(x) as int - x) % i32_range() == 0,
{
    let r = i32_range();
    vstd::arithmetic::div_mod::lemma_fundamental_div_mod(x, r);
    vstd::arithmetic::div_mod::lemma_mod_bound(x, r);
    let k = x / r;
    if x % r > i32::MAX {
        assert(vstd::wrapping::i32_specs::signed_crop(x) as int - x == (-k - 1) * r) by (nonlinear_arith)
            requires
                x == r * k + x % r,
                vstd::wrapping::i32_specs::signed_crop(x) as int == x % r - r;
        vstd::arithmetic::div_mod::lemma_mod_multiples_basic(-k - 1, r);
    } else {
        assert(vstd::wrapping::i32_specs::signed_crop(x) as int - x == (-k) * r) by (nonlinear_arith)
            requires
                x == r * k + x % r,
                vstd::wrapping::i32_specs::signed_crop(x) as int == x % r;
        vstd::arithmetic::div_mod::lemma_mod_multiples_basic(-k, r);
    }
}

/// Wrapping addition and subtraction on `i32` change the exact result by a multiple of `2^32`.
pub proof fn lemma_add_sub_congruent(x: i32, y: i32)
    ensures
        (x.wrapping_add(y) - (x + y)) % i32_range() == 0,
        (x.wrapping_sub(y) - (x - y)) % i32_range() == 0,
{
    let r = i32_range();
    vstd::arithmetic::div_mod::lemma_mod_multiples_basic(0, r);
    vstd::arithmetic::div_mod::lemma_mod_multiples_basic(1, r);
    vstd::arithmetic::div_mod::lemma_mod_multiples_basic(-1, r);
}

/// An angle with `BITS` bits of resolution per turn, held as a signed raw count.
/// The raw count is not reduced modulo a turn: arithmetic on it is the caller's.
#[derive(Clone, Copy, Debug)]
pub struct IntAngle<const BITS: usize> {
    raw: i32,
}

impl<const BITS: usize> View for IntAngle<BITS> {
    type V = i32;

    /// The raw count of the angle.
    closed spec fn view(&self) -> i32 {
        self.raw
    }
}

impl<const BITS: usize> Default for IntAngle<BITS> {
    /// The zero angle.
    fn default() -> (a: Self)
        ensures
            a@ == 0,
    {
        IntAngle { raw: 0 }
    }
}

impl<const BITS: usize> IntAngle<BITS> {
    /// The angle whose raw count is `raw`.
    pub fn from_raw(raw: i32) -> (a: Self)
        ensures
            a@ == raw,
    {
        IntAngle { raw }
    }

    /// The raw count of this angle.
    pub fn raw_value(&self) -> (r: i32)
        ensures
            r == self@,
    {
        self.raw
    }

    /// A full turn, `2^BITS` counts.
    pub fn a360() -> (a: Self)
        requires
            1 <= BITS <= 30,
        ensures
            a@ == full_turn(BITS as nat),
    {
        proof {
            lemma_pow2_facts(BITS as nat, 30);
            lemma_i32_shl_nonneg(1, BITS as u32);
        }
        IntAngle { raw: 1i32 << (BITS as u32) }
    }

    /// Half a turn, `2^(BITS - 1)` counts.
    pub fn a180() -> (a: Self)
        requires
            1 <= BITS <= 30,
        ensures
            a@ == half_turn(BITS as nat),
    {
        proof {
            lemma_pow2_facts((BITS - 1) as nat, 30);
            lemma_i32_shl_nonneg(1, (BITS - 1) as u32);
        }
        IntAngle { raw: 1i32 << ((BITS - 1) as u32) }
    }

    /// This angle multiplied by an integer factor (for instance mechanical to
    /// electrical angle through the pole pairs), wrapping on `i32`; since a full
    /// turn divides `2^32`, the product is exact modulo a turn.
    pub fn times(self, factor: i32) -> (a: Self)
        ensures
            a@ == self@.wrapping_mul(factor),
            1 <= BITS <= 30 ==> (a@ as int) % full_turn(BITS as nat) == (self@ * factor) % full_turn(BITS as nat),
    {
        proof {
            if 1 <= BITS <= 30 {
                lemma_crop_congruent(self@ * factor);
                lemma_wrap_exact_mod_turn(self@ * factor, self@.wrapping_mul(factor) as int, BITS as nat);
            }
        }
        IntAngle { raw: self.raw.wrapping_mul(factor) }
    }

    /// The opposite angle, `-raw`, wrapping on `i32`.
    pub fn negate(self) -> (a: Self)
        ensures
            a@ == (0i32).wrapping_sub(self@),
            1 <= BITS <= 30 ==> (a@ as int) % full_turn(BITS as nat) == (-self@) % full_turn(BITS as nat),
    {
        proof {
            if 1 <= BITS <= 30 {
                lemma_add_sub_congruent(0, self@);
                lemma_wrap_exact_mod_turn(-self@, (0i32).wrapping_sub(self@) as int, BITS as nat);
            }
        }
        IntAngle { raw: 0i32.wrapping_sub(self.raw) }
    }

    /// The difference of two angles, wrapping on `i32`.
    pub fn minus(self, other: Self) -> (a: Self)
        ensures
            a@ == self@.wrapping_sub(other@),
            1 <= BITS <= 30 ==> (a@ as int) % full_turn(BITS as nat) == (self@ - other@) % full_turn(BITS as nat),
    {
        proof {
            if 1 <= BITS <= 30 {
                lemma_add_sub_congruent(self@, other@);
                lemma_wrap_exact_mod_turn(self@ - other@, self@.wrapping_sub(other@) as int, BITS as nat);
            }
        }
        IntAngle { raw: self.raw.wrapping_sub(other.raw) }
    }
}

} // verus!
