//! Floating-point settings, read through their bit patterns.

use vstd::arithmetic::power2::{
    lemma2_to64, lemma2_to64_rest, lemma_pow2_adds, lemma_pow2_pos, pow2,
};
use vstd::prelude::*;

verus! {

/// 2 to the power 52: one above the largest fraction.
pub const FRACTION_RANGE: u64 = 0x10_0000_0000_0000;

/// One above the largest exponent field.
pub const EXPONENT_RANGE: u64 = 0x800;

/// The exponent field of infinities and of what is not a number.
pub const SPECIAL_EXPONENT: u64 = 0x7ff;

/// The smallest bit pattern with the sign bit set.
pub const SIGN_BIT: u64 = 0x8000_0000_0000_0000;

/// An IEEE 754 double, as its bit pattern.
#[derive(Clone, Copy, Debug, PartialEq, Eq, Structural)]
pub struct Float64 {
    pub bits: u64,
}

impl Float64 {
    /// The exponent field.
    pub open spec fn exponent(self) -> nat {
        (self.bits / FRACTION_RANGE % EXPONENT_RANGE) as nat
    }

    /// The fraction field.
    pub open spec fn fraction(self) -> nat {
        (self.bits % FRACTION_RANGE) as nat
    }

    /// Whether this is a number and not an infinity.
    pub open spec fn finite(self) -> bool {
        self.exponent() != SPECIAL_EXPONENT
    }

    /// The absolute value of a finite number, times 2 to the power 1074. That
    /// product is an integer for every finite number.
    pub open spec fn magnitude(self) -> nat {
        if self.exponent() == 0 {
            self.fraction()
        } else {
            (FRACTION_RANGE as nat + self.fraction()) * pow2((self.exponent() - 1) as nat)
        }
    }

    /// The value of a finite number, times 2 to the power 1074.
    pub open spec fn scaled(self) -> int {
        if self.bits < SIGN_BIT {
            self.magnitude() as int
        } else {
            -(self.magnitude() as int)
        }
    }

    /// Whether this is the integer `value`.
    pub open spec fn is_integer(self, value: int) -> bool {
        self.finite() && self.scaled() == value * pow2(1074)
    }

    /// Whether this is a number and not an infinity.
    pub fn is_finite(&self) -> (finite: bool)
        ensures
            finite == self.finite(),
    {
        self.bits / FRACTION_RANGE % EXPONENT_RANGE != SPECIAL_EXPONENT
    }

    /// Whether this finite number is greater than zero.
    pub fn is_positive(&self) -> (positive: bool)
        requires
            self.finite(),
        ensures
            positive == (self.scaled() > 0),
    {
        proof {
            lemma_magnitude(*self);
        }
        self.bits != 0 && self.bits < SIGN_BIT
    }

    /// Whether this finite number is less than zero.
    pub fn is_negative(&self) -> (negative: bool)
        requires
            self.finite(),
        ensures
            negative == (self.scaled() < 0),
    {
        proof {
            lemma_magnitude(*self);
        }
        self.bits > SIGN_BIT
    }
}

/// Only the two zeros have no magnitude.
proof fn lemma_magnitude(value: Float64)
    ensures
        value.magnitude() == 0 <==> value.bits == 0 || value.bits == SIGN_BIT,
{
    let bits = value.bits;
    if value.exponent() != 0 {
        lemma_pow2_pos((value.exponent() - 1) as nat);
        let power = pow2((value.exponent() - 1) as nat);
        let significand = FRACTION_RANGE as nat + value.fraction();
        assert(significand * power > 0) by (nonlinear_arith)
            requires
                significand > 0,
                power > 0,
        ;
    }
    assert(bits == bits / FRACTION_RANGE * FRACTION_RANGE + bits % FRACTION_RANGE) by (
    nonlinear_arith);
    assert(SIGN_BIT == 2048 * FRACTION_RANGE);
}

/// A number is the integer `value` if its significand is `value` times the power
/// of two that its exponent lacks.
pub(crate) proof fn lemma_integer(number: Float64, value: nat, lacking: nat)
    requires
        number.bits < SIGN_BIT,
        0 < number.exponent() < SPECIAL_EXPONENT,
        number.exponent() - 1 + lacking == 1074,
        FRACTION_RANGE + number.fraction() == value * pow2(lacking),
    ensures
        number.is_integer(value as int),
{
    let shift = (number.exponent() - 1) as nat;
    lemma_pow2_adds(lacking, shift);
    assert(value * pow2(lacking) * pow2(shift) == value * (pow2(lacking) * pow2(shift)))
        by (nonlinear_arith);
}

/// A number is finite unless all bits of its exponent are set, and its sign is that
/// of its highest bit; the two zeros have none.
pub proof fn law_sign_and_finiteness(value: Float64)
    ensures
        value.finite() <==> value.bits & 0x7ff0_0000_0000_0000 != 0x7ff0_0000_0000_0000,
        value.scaled() > 0 <==> 0 < value.bits < 0x8000_0000_0000_0000,
        value.scaled() < 0 <==> value.bits > 0x8000_0000_0000_0000,
{
    let bits = value.bits;
    lemma_magnitude(value);
    assert((bits / 0x10_0000_0000_0000 % 0x800 != 0x7ff) == (bits & 0x7ff0_0000_0000_0000
        != 0x7ff0_0000_0000_0000)) by (bit_vector);
}

/// Setting the highest bit turns the sign around.
pub proof fn law_highest_bit_is_the_sign(value: Float64, negated: Float64)
    requires
        value.bits < 0x8000_0000_0000_0000,
        negated.bits == value.bits + 0x8000_0000_0000_0000,
    ensures
        negated.scaled() == -value.scaled(),
        negated.finite() == value.finite(),
{
    let (a, b) = (value.bits, negated.bits);
    assert(b % 0x10_0000_0000_0000 == a % 0x10_0000_0000_0000 && b / 0x10_0000_0000_0000 % 0x800
        == a / 0x10_0000_0000_0000 % 0x800) by (bit_vector)
        requires
            a < 0x8000_0000_0000_0000,
            b == a + 0x8000_0000_0000_0000,
    ;
}

/// One more in the exponent doubles a number.
pub proof fn law_next_exponent_doubles(value: Float64, doubled: Float64)
    requires
        0x10_0000_0000_0000 <= value.bits < 0x7fe0_0000_0000_0000,
        doubled.bits == value.bits + 0x10_0000_0000_0000,
    ensures
        doubled.scaled() == 2 * value.scaled(),
{
    let (a, b) = (value.bits, doubled.bits);
    assert(b % 0x10_0000_0000_0000 == a % 0x10_0000_0000_0000 && b / 0x10_0000_0000_0000 % 0x800
        == a / 0x10_0000_0000_0000 % 0x800 + 1 && a / 0x10_0000_0000_0000 % 0x800 > 0)
        by (bit_vector)
        requires
            0x10_0000_0000_0000 <= a < 0x7fe0_0000_0000_0000,
            b == a + 0x10_0000_0000_0000,
    ;
    let shift = (value.exponent() - 1) as nat;
    lemma_pow2_adds(1, shift);
    lemma2_to64();
    let significand = FRACTION_RANGE as nat + value.fraction();
    assert(significand * (2 * pow2(shift)) == 2 * (significand * pow2(shift))) by (nonlinear_arith);
}

/// Among numbers that are not negative, a larger bit pattern is a larger number.
pub proof fn law_larger_patterns_are_larger_numbers(smaller: Float64, larger: Float64)
    requires
        smaller.bits < larger.bits < 0x7ff0_0000_0000_0000,
    ensures
        smaller.scaled() < larger.scaled(),
{
    let (a, b) = (smaller.bits, larger.bits);
    assert(a / 0x10_0000_0000_0000 % 0x800 < b / 0x10_0000_0000_0000 % 0x800 || (a
        / 0x10_0000_0000_0000 % 0x800 == b / 0x10_0000_0000_0000 % 0x800 && a % 0x10_0000_0000_0000
        < b % 0x10_0000_0000_0000)) by (bit_vector)
        requires
            a < b < 0x7ff0_0000_0000_0000,
    ;
    let range = FRACTION_RANGE as nat;
    let (low, high) = (smaller.exponent(), larger.exponent());
    if high == 0 {
    } else {
        let step = pow2((high - 1) as nat);
        lemma_pow2_pos((high - 1) as nat);
        if low == high {
            assert((range + smaller.fraction()) * step < (range + larger.fraction()) * step)
                by (nonlinear_arith)
                requires
                    smaller.fraction() < larger.fraction(),
                    step > 0,
            ;
        } else {
            assert(range * step <= (range + larger.fraction()) * step) by (nonlinear_arith)
                requires
                    step > 0,
            ;
            if low == 0 {
                assert(range <= range * step) by (nonlinear_arith)
                    requires
                        step > 0,
                ;
            } else {
                let below = pow2((low - 1) as nat);
                let gap = (high - low) as nat;
                lemma_pow2_pos((low - 1) as nat);
                lemma_pow2_adds((low - 1) as nat, gap);
                lemma_pow2_adds(1, (gap - 1) as nat);
                lemma_pow2_pos((gap - 1) as nat);
                lemma2_to64();
                assert(pow2(gap) >= 2);
                assert((range + smaller.fraction()) * below < 2 * range * below)
                    by (nonlinear_arith)
                    requires
                        smaller.fraction() < range,
                        below > 0,
                ;
                assert(2 * range * below <= range * (below * pow2(gap))) by (nonlinear_arith)
                    requires
                        pow2(gap) >= 2,
                ;
            }
        }
    }
}

/// The unit is where the standard puts it, and integers are multiples of it.
pub proof fn law_one_is_the_unit(value: Float64, integer: int)
    ensures
        (Float64 { bits: 0x3ff0_0000_0000_0000 }).is_integer(1),
        value.is_integer(integer) <==> value.finite() && value.scaled() == integer * (Float64 {
            bits: 0x3ff0_0000_0000_0000,
        }).scaled(),
{
    lemma2_to64();
    lemma2_to64_rest();
    lemma_integer(Float64 { bits: 0x3ff0_0000_0000_0000 }, 1, 52);
}

} // verus!
