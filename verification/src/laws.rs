//! What holds of every sum and difference: the sign of a sum of zeros, the
//! difference of equal operands, where addition commutes, and where a result
//! is a denormalized number after all.

use vstd::prelude::*;
use crate::arithmetic::leading_bit;
use crate::arithmetic::lemma_leading_bit_bounds;
use crate::arithmetic::lemma_leading_bit_found;
use crate::arithmetic::lemma_leading_bit_is_top;
use crate::arithmetic::lemma_leading_bit_reaches;
use crate::abnormal::abnormal_outcome;
use crate::encoding::lemma_fields_round_trip;
use crate::encoding::lemma_word_round_trip;
use crate::encoding::lemma_named_values;
use crate::encoding::Ps2Float;
use crate::encoding::{
    MAX_FLOATING_POINT_VALUE, MIN_FLOATING_POINT_VALUE, NEGATIVE_INFINITY_VALUE,
    POSITIVE_INFINITY_VALUE,
};
use crate::ordering::lemma_equal_signed_magnitudes;
use vstd::arithmetic::power2::pow2;

verus! {

impl Ps2Float {
    /// Whether the exponent is zero while the mantissa is not: a number that
    /// the PS2 does not have.
    pub open spec fn is_nonzero_denormal(&self) -> bool {
        self.exponent == 0 && self.mantissa != 0
    }

    /// Whether `self - other` goes through the adder and cancels down to
    /// just under the normal range: the aligned mantissas leave a difference
    /// whose leading bit is below position 23, bringing it up to there uses
    /// up the exponent exactly, and a fraction is left under the leading
    /// bit.
    pub open spec fn cancels_into_denormal(&self, other: &Ps2Float) -> bool {
        let remainder = self.combined_mantissa(other, false);
        let top = leading_bit(remainder);
        &&& !self.is_denormalized() && !other.is_denormalized()
        &&& !(self.is_abnormal() && other.is_abnormal())
        &&& self.signed_magnitude() != other.signed_magnitude()
        &&& 0 <= top < 23
        &&& self.aligned_exponent(other) == 23 - top
        &&& (remainder << ((23 - top) as u32)) & 0x7F_FFFF != 0
    }

    /// Whether the first of two canonical operands has the larger exponent,
    /// or both the same, and the difference of their aligned magnitudes is
    /// under the smallest normal number and over half of it.
    ///
    /// A magnitude is the mantissa with its implicit bit, times two to the
    /// power of the exponent less one, in units of two to the power -149.
    /// Alignment drops the bits of the second operand that lie below the
    /// last place of the first, so both magnitudes are whole multiples of
    /// two to the power of the first exponent less one.
    pub open spec fn difference_is_under_normal(&self, other: &Ps2Float) -> bool {
        let distance = (self.exponent - other.exponent) as nat;
        let own = 0x80_0000 + self.mantissa;
        let their = (0x80_0000 + other.mantissa) / (pow2(distance) as int);
        &&& 1 <= other.exponent <= self.exponent <= 23
        &&& 0x40_0000 < (own - their) * pow2((self.exponent - 1) as nat) < 0x80_0000
    }
}

/// The sign of a sum of two zeros: `(-0) + (-0)` is `-0`, and every other
/// sum of two zeros is `+0`.
pub proof fn lemma_sum_of_zeros(a: Ps2Float, b: Ps2Float)
    requires
        a.is_zero(),
        b.is_zero(),
    ensures
        a.sum(&b) == (Ps2Float { sign: a.sign && b.sign, exponent: 0, mantissa: 0 }),
        a.sum(&b)@ == (if a.sign && b.sign { 0x8000_0000u32 } else { 0u32 }),
{
    lemma_zero_is_denormalized(a);
    lemma_zero_is_denormalized(b);
    assert(0x8000_0000u32 | ((0u8 as u32) << 23) | 0u32 == 0x8000_0000u32 && 0u32 | ((0u8 as u32)
        << 23) | 0u32 == 0u32) by (bit_vector);
}

/// Operands that are equal in the order and are neither denormalized nor
/// both abnormal have a zero as their difference.
pub proof fn lemma_difference_of_equals(a: Ps2Float, b: Ps2Float)
    requires
        a.signed_magnitude() == b.signed_magnitude(),
        !a.is_denormalized(),
        !b.is_denormalized(),
        !(a.is_abnormal() && b.is_abnormal()),
    ensures
        a.difference(&b)@ & 0x7FFF_FFFF == 0,
        a.difference(&b).is_zero(),
{
    let sign = Ps2Float::subtraction_sign(&a, &b);
    assert(((if sign { 0x8000_0000u32 } else { 0u32 }) | ((0u8 as u32) << 23) | 0u32)
        & 0x7FFF_FFFF == 0) by (bit_vector);
}

/// Addition of canonical values commutes exactly where the operands have
/// the same sign or are both zero.
pub proof fn lemma_sum_commutes(a: Ps2Float, b: Ps2Float)
    requires
        a.is_canonical(),
        b.is_canonical(),
        a.combines_with(&b),
        b.combines_with(&a),
    ensures
        a.sign == b.sign || (a.is_zero() && b.is_zero()) ==> a.sum(&b) == b.sum(&a),
        a.sum(&b)@ == b.sum(&a)@ <==> a.sign == b.sign || (a.is_zero()
            && b.is_zero()),
{
    lemma_named_values();
    lemma_canonical_fields(a);
    lemma_canonical_fields(b);
    let forth = a.sum(&b);
    let back = b.sum(&a);
    if a.is_denormalized() || b.is_denormalized() {
    } else if a.is_abnormal() && b.is_abnormal() {
        lemma_word_round_trip(abnormal_outcome(a@, b@, true));
        lemma_word_round_trip(abnormal_outcome(b@, a@, true));
    } else if a.sign == b.sign {
        let own = a.mantissa | 0x80_0000;
        let their = b.mantissa | 0x80_0000;
        assert(own >> 0u32 == own && their >> 0u32 == their) by (bit_vector);
    } else {
        lemma_normalized_sign(
            Ps2Float::subtraction_sign(&a, &b),
            a.aligned_exponent(&b),
            a.combined_mantissa(&b, false),
        );
        lemma_normalized_sign(
            Ps2Float::subtraction_sign(&b, &a),
            b.aligned_exponent(&a),
            b.combined_mantissa(&a, false),
        );
    }
    lemma_sign_shows_in_bits(forth);
    lemma_sign_shows_in_bits(back);
}

/// No sum and no difference of canonical values is a denormalized number
/// other than zero, except where the difference lands under the smallest
/// normal number and over half of it; the sum only where the signs differ as
/// well. There the result always is such a number.
pub proof fn lemma_no_denormal_results(a: Ps2Float, b: Ps2Float)
    requires
        a.is_canonical(),
        b.is_canonical(),
    ensures
        !a.difference_is_under_normal(&b) ==> (a.difference(&b).exponent == 0 ==> a.difference(
            &b,
        ).mantissa == 0),
        !(a.sign != b.sign && a.difference_is_under_normal(&b)) ==> (a.sum(&b).exponent == 0
            ==> a.sum(&b).mantissa == 0),
        a.difference_is_under_normal(&b) ==> a.difference(&b).is_nonzero_denormal(),
        a.sign != b.sign && a.difference_is_under_normal(&b) ==> a.sum(&b).is_nonzero_denormal(),
{
    lemma_cancelling_in_numbers(a, b);
    lemma_denormal_difference(a, b);
    lemma_denormal_sum(a, b);
}

/// Where one operand has an exponent of 24 or more, neither the sum nor the
/// difference of two canonical values is a denormalized number other than
/// zero.
pub proof fn lemma_no_denormal_above_threshold(a: Ps2Float, b: Ps2Float)
    requires
        a.is_canonical(),
        b.is_canonical(),
        a.exponent >= 24 || b.exponent >= 24,
    ensures
        a.sum(&b).exponent == 0 ==> a.sum(&b).mantissa == 0,
        a.difference(&b).exponent == 0 ==> a.difference(&b).mantissa == 0,
{
    lemma_denormal_difference(a, b);
    lemma_denormal_sum(a, b);
}

/// No difference is a denormalized number other than zero, except where the
/// operands cancel into one: there it always is.
pub proof fn lemma_denormal_difference(a: Ps2Float, b: Ps2Float)
    ensures
        !a.cancels_into_denormal(&b) ==> (a.difference(&b).exponent == 0 ==> a.difference(
            &b,
        ).mantissa == 0),
        a.cancels_into_denormal(&b) ==> a.difference(&b).is_nonzero_denormal(),
{
    lemma_named_values();
    lemma_leading_bit_bounds(a.combined_mantissa(&b, false));
}

/// No sum of canonical values is a denormalized number other than zero,
/// except where the signs differ and the operands cancel into one: there it
/// always is.
pub proof fn lemma_denormal_sum(a: Ps2Float, b: Ps2Float)
    requires
        a.is_canonical(),
        b.is_canonical(),
    ensures
        !(a.sign != b.sign && a.cancels_into_denormal(&b)) ==> (a.sum(&b).exponent == 0 ==> a.sum(
            &b,
        ).mantissa == 0),
        a.sign != b.sign && a.cancels_into_denormal(&b) ==> a.sum(&b).is_nonzero_denormal(),
{
    lemma_named_values();
    lemma_denormal_difference(a, b);
    if !a.is_denormalized() && !b.is_denormalized() && !(a.is_abnormal() && b.is_abnormal())
        && a.sign == b.sign {
        lemma_sum_keeps_implicit_bit(a, b);
    }
}

/// In numbers: with the magnitudes counted in units of two to the power
/// -149, canonical operands cancel into a denormalized number exactly where
/// the first has the larger exponent, or both the same, and the difference of
/// the aligned magnitudes lies strictly between two to the power 22 and two
/// to the power 23 of these units, which is under the smallest normal number
/// and over half of it.
pub proof fn lemma_cancelling_in_numbers(a: Ps2Float, b: Ps2Float)
    requires
        a.is_canonical(),
        b.is_canonical(),
    ensures
        a.cancels_into_denormal(&b) <==> a.difference_is_under_normal(&b),
{
    lemma_canonical_fields(a);
    lemma_canonical_fields(b);
    lemma_fields_round_trip(a);
    lemma_fields_round_trip(b);
    lemma_named_values();
    if a.cancels_into_denormal(&b) {
        lemma_cancelling_operands(a, b);
    }
    if 1 <= b.exponent <= a.exponent <= 23 {
        let own = a.mantissa | 0x80_0000;
        let whole = b.mantissa | 0x80_0000;
        let distance = (a.exponent - b.exponent) as u32;
        let their = whole >> distance;
        let remainder = a.combined_mantissa(&b, false);
        let exponent = a.exponent as u32;
        let own_fraction = a.mantissa;
        let their_fraction = b.mantissa;
        assert(own == 0x80_0000 + own_fraction && whole == 0x80_0000 + their_fraction && their
            < 0x100_0000) by (bit_vector)
            requires
                own_fraction <= 0x7F_FFFF,
                their_fraction <= 0x7F_FFFF,
                own == own_fraction | 0x80_0000,
                whole == their_fraction | 0x80_0000,
                their == whole >> distance,
        ;
        lemma_word_round_trip(MAX_FLOATING_POINT_VALUE);
        lemma_word_round_trip(MIN_FLOATING_POINT_VALUE);
        lemma_word_round_trip(POSITIVE_INFINITY_VALUE);
        lemma_word_round_trip(NEGATIVE_INFINITY_VALUE);
        assert((0x7F80_0000u32 >> 23) & 0xFF == 0xFF && (0xFF80_0000u32 >> 23) & 0xFF == 0xFF)
            by (bit_vector);
        assert(!a.is_abnormal());
        if a.signed_magnitude() == b.signed_magnitude() {
            lemma_equal_signed_magnitudes(a, b);
            assert(whole >> 0u32 == whole) by (bit_vector);
        }
        lemma_leading_bit_bounds(remainder);
        vstd::bits::lemma_u32_shr_is_div(whole, distance);
        let scale = pow2((a.exponent - 1) as nat);
        vstd::arithmetic::power2::lemma_pow2_pos((a.exponent - 1) as nat);
        if own > their {
            let top = leading_bit(remainder) as u32;
            let wide = remainder as u64;
            let places = (exponent - 1) as u64;
            lemma_leading_bit_is_top(remainder);
            assert((exponent == 23 - top && top < 23 && (remainder << ((23 - top) as u32))
                & 0x7F_FFFF != 0) <==> 0x40_0000 < (wide << places) < 0x80_0000) by (bit_vector)
                requires
                    remainder >> top == 1,
                    top <= 31,
                    1 <= exponent <= 23,
                    wide == remainder as u64,
                    places == (exponent - 1) as u64,
            ;
            vstd::arithmetic::power2::lemma2_to64();
            if places < 22 {
                vstd::arithmetic::power2::lemma_pow2_strictly_increases(places as nat, 22);
            }
            assert(wide * scale <= u64::MAX) by (nonlinear_arith)
                requires
                    wide <= 0xFFFF_FFFF,
                    0 < scale <= 0x40_0000,
            ;
            vstd::bits::lemma_u64_shl_is_mul(wide, places);
        } else {
            assert((own - their) * scale <= 0) by (nonlinear_arith)
                requires
                    own - their <= 0,
                    scale > 0,
            ;
            if own < their {
                assert(remainder >> 31u32 == 1) by (bit_vector)
                    requires
                        own < their < 0x100_0000,
                        remainder == (own + 0x1_0000_0000 - their) as u32,
                ;
                lemma_leading_bit_found(remainder, 31);
            }
        }
    }
}

/// Canonical operands cancel into a denormalized number only from the
/// bottom of the range: the first operand has the larger exponent, or both
/// have the same, and that exponent is 23 at most.
pub proof fn lemma_cancelling_operands(a: Ps2Float, b: Ps2Float)
    requires
        a.is_canonical(),
        b.is_canonical(),
        a.cancels_into_denormal(&b),
    ensures
        1 <= b.exponent <= a.exponent <= 23,
{
    lemma_canonical_fields(a);
    lemma_canonical_fields(b);
    if a.exponent < b.exponent {
        let shift = a.alignment_shift(&b);
        let own = a.mantissa | 0x80_0000;
        let their = b.mantissa | 0x80_0000;
        let remainder = a.combined_mantissa(&b, false);
        assert(shift == 0 || remainder >> 31u32 == 1) by (bit_vector)
            requires
                shift < 32,
                0x80_0000 <= own < 0x100_0000,
                0x80_0000 <= their < 0x100_0000,
                remainder == (if (own >> shift) < their {
                    ((own >> shift) + 0x1_0000_0000 - their) as u32
                } else {
                    ((own >> shift) - their) as u32
                }),
        ;
        if shift != 0 {
            lemma_leading_bit_found(remainder, 31);
        }
    }
}

/// The sum and the difference of canonical values are canonical: each is the
/// value that its own encoding decodes to.
pub proof fn lemma_results_are_canonical(a: Ps2Float, b: Ps2Float)
    requires
        a.is_canonical(),
        b.is_canonical(),
    ensures
        a.sum(&b).is_canonical(),
        a.difference(&b).is_canonical(),
        Ps2Float::of_bits(a.sum(&b)@) == a.sum(&b),
        Ps2Float::of_bits(a.difference(&b)@) == a.difference(&b),
{
    lemma_word_round_trip(abnormal_outcome(a@, b@, true));
    lemma_word_round_trip(abnormal_outcome(a@, b@, false));
    lemma_normalized_sign(a.sign, a.aligned_exponent(&b), a.combined_mantissa(&b, true));
    lemma_normalized_sign(
        Ps2Float::subtraction_sign(&a, &b),
        a.aligned_exponent(&b),
        a.combined_mantissa(&b, false),
    );
    lemma_fields_round_trip(a.sum(&b));
    lemma_fields_round_trip(a.difference(&b));
}

/// What the fields of a canonical value say of its encoding: zero only with
/// a zero exponent, and a mantissa that takes the implicit bit without
/// carry.
proof fn lemma_canonical_fields(value: Ps2Float)
    requires
        value.is_canonical(),
    ensures
        value.is_zero() <==> value.exponent == 0 && value.mantissa == 0,
        value@ >= 0x8000_0000 <==> value.sign,
        0x80_0000 <= (value.mantissa | 0x80_0000) < 0x100_0000,
{
    let sign = value.sign;
    let exponent = value.exponent;
    let mantissa = value.mantissa;
    let word = value@;
    assert((word & 0x7FFF_FFFF == 0 <==> exponent == 0 && mantissa == 0) && (word >= 0x8000_0000
        <==> sign) && 0x80_0000 <= (mantissa | 0x80_0000) < 0x100_0000) by (bit_vector)
        requires
            mantissa <= 0x7F_FFFF,
            word == (if sign { 0x8000_0000u32 } else { 0u32 }) | ((exponent as u32) << 23)
                | mantissa,
    ;
}

/// A zero has a zero exponent, canonical or not.
proof fn lemma_zero_is_denormalized(value: Ps2Float)
    requires
        value.is_zero(),
    ensures
        value.is_denormalized(),
{
    let sign = value.sign;
    let exponent = value.exponent;
    let mantissa = value.mantissa;
    let word = value@;
    assert(exponent == 0) by (bit_vector)
        requires
            word & 0x7FFF_FFFF == 0,
            word == (if sign { 0x8000_0000u32 } else { 0u32 }) | ((exponent as u32) << 23)
                | mantissa,
    ;
}

/// Values with different signs have different encodings, where they are
/// canonical.
proof fn lemma_sign_shows_in_bits(value: Ps2Float)
    ensures
        value.is_canonical() ==> (value@ >= 0x8000_0000 <==> value.sign),
{
    if value.is_canonical() {
        lemma_canonical_fields(value);
    }
}

/// Normalization keeps the sign and gives a canonical value.
proof fn lemma_normalized_sign(sign: bool, exponent: u8, mantissa: u32)
    ensures
        Ps2Float::normalized(sign, exponent, mantissa).sign == sign,
        Ps2Float::normalized(sign, exponent, mantissa).is_canonical(),
{
    let top = leading_bit(mantissa);
    let down = mantissa >> ((top - 23) as u32);
    let up = mantissa << ((23 - top) as u32);
    assert(down & 0x7F_FFFF <= 0x7F_FFFF && up & 0x7F_FFFF <= 0x7F_FFFF) by (bit_vector);
}

/// The mantissas of two canonical values add up to at least the implicit
/// bit, without wrapping.
proof fn lemma_sum_keeps_implicit_bit(a: Ps2Float, b: Ps2Float)
    requires
        a.is_canonical(),
        b.is_canonical(),
    ensures
        leading_bit(a.combined_mantissa(&b, true)) >= 23,
        a.combined_mantissa(&b, true) != 0,
{
    lemma_canonical_fields(a);
    lemma_canonical_fields(b);
    let shift = a.alignment_shift(&b);
    let own = a.mantissa | 0x80_0000;
    let their = b.mantissa | 0x80_0000;
    assert((own >> shift) <= own && (their >> shift) <= their) by (bit_vector);
    let total = a.combined_mantissa(&b, true);
    assert(0x80_0000 <= total < 0x200_0000);
    assert(total >> 23u32 >= 1) by (bit_vector)
        requires
            0x80_0000 <= total,
    ;
    lemma_leading_bit_reaches(total, 23);
}

} // verus!
