//! Addition and subtraction: alignment of the exponents, combination of the
//! mantissas, and normalization with saturation and flush to zero.

use vstd::prelude::*;
use crate::encoding::lemma_fields_round_trip;
use crate::encoding::Ps2Float;

verus! {

/// The bit position of the implicit leading bit in the mantissa.
pub const IMPLICIT_LEADING_BIT_POS: i32 = 23;

/// The position of the highest set bit of `value`, counted from zero at the
/// low end, and `-1` where no bit is set.
pub open spec fn leading_bit(value: u32) -> int
    decreases value,
{
    if value == 0 {
        -1
    } else {
        1 + leading_bit(value / 2)
    }
}

/// The leading bit of a word lies within the word, and only zero has none.
pub proof fn lemma_leading_bit_bounds(value: u32)
    ensures
        -1 <= leading_bit(value) <= 31,
        value == 0 <==> leading_bit(value) == -1,
{
    assert(value >> 31u32 <= 1) by (bit_vector);
    lemma_leading_bit_at_most(value, 31);
    lemma_leading_bit_at_least(value);
}

proof fn lemma_leading_bit_at_least(value: u32)
    ensures
        -1 <= leading_bit(value),
        value != 0 ==> 0 <= leading_bit(value),
    decreases value,
{
    if value != 0 {
        lemma_leading_bit_at_least(value / 2);
    }
}

proof fn lemma_leading_bit_at_most(value: u32, position: u32)
    requires
        position <= 31,
        value >> position <= 1,
    ensures
        leading_bit(value) <= position,
    decreases position,
{
    if value == 0 {
    } else if position == 0 {
        lemma_shift_step(value, 0);
        assert(leading_bit(1u32 / 2) == -1);
    } else {
        lemma_halving(value, position);
        lemma_leading_bit_at_most(value / 2, (position - 1) as u32);
    }
}

/// A word with a bit set at `position` or above has its leading bit there
/// or above.
pub proof fn lemma_leading_bit_reaches(value: u32, position: u32)
    requires
        position <= 31,
        value >> position >= 1,
    ensures
        leading_bit(value) >= position,
    decreases position,
{
    if position == 0 {
        lemma_shift_step(value, 0);
        lemma_leading_bit_at_least(value);
    } else {
        lemma_halving(value, position);
        lemma_leading_bit_reaches(value / 2, (position - 1) as u32);
    }
}

/// A word whose bits above `position` are clear and whose bit there is set
/// has its leading bit there.
pub proof fn lemma_leading_bit_found(value: u32, position: u32)
    requires
        position <= 31,
        value >> position == 1,
    ensures
        leading_bit(value) == position,
    decreases position,
{
    if position == 0 {
        lemma_shift_step(value, 0);
        assert(leading_bit(1u32 / 2) == -1);
    } else {
        lemma_halving(value, position);
        lemma_leading_bit_found(value / 2, (position - 1) as u32);
    }
}

/// The leading bit of a word other than zero is the one that a shift by its
/// position leaves alone.
pub proof fn lemma_leading_bit_is_top(value: u32)
    requires
        value != 0,
    ensures
        0 <= leading_bit(value) <= 31,
        value >> (leading_bit(value) as u32) == 1,
    decreases value,
{
    lemma_leading_bit_bounds(value);
    if value == 1 {
        assert(leading_bit(1u32 / 2) == -1);
        assert(1u32 >> 0u32 == 1) by (bit_vector);
    } else {
        lemma_leading_bit_is_top(value / 2);
        lemma_leading_bit_bounds(value / 2);
        let below = leading_bit(value / 2) as u32;
        assert(value >> ((below + 1) as u32) == 1) by (bit_vector)
            requires
                below < 31,
                (value / 2) >> below == 1,
        ;
    }
}

/// Halving a word moves each of its bits one place down.
proof fn lemma_halving(value: u32, position: u32)
    by (bit_vector)
    requires
        0 < position <= 31,
    ensures
        (value / 2) >> ((position - 1) as u32) == value >> position,
        value >> position != 0 ==> value != 0,
{
}

/// One more step of a shift by `distance`, in either direction, and a shift
/// by nothing.
proof fn lemma_shift_step(value: u32, distance: u32)
    by (bit_vector)
    requires
        distance < 31,
    ensures
        (value >> distance) >> 1u32 == value >> ((distance + 1) as u32),
        (value << distance) << 1u32 == value << ((distance + 1) as u32),
        value >> 0u32 == value,
        value << 0u32 == value,
{
}

/// What is known of bit `position` of a word whose higher bits are clear.
proof fn lemma_bit_under_clear_bits(value: u32, position: u32)
    by (bit_vector)
    requires
        position <= 31,
        position == 31 || value >> ((position + 1) as u32) == 0,
    ensures
        (value >> position) & 1 != 0 ==> value >> position == 1,
        (value >> position) & 1 == 0 ==> value >> position == 0,
{
}

impl Ps2Float {
    /// The larger of the two exponents, which the sum or difference starts
    /// from.
    pub open spec fn aligned_exponent(&self, other: &Ps2Float) -> u8 {
        if self.exponent >= other.exponent {
            self.exponent
        } else {
            other.exponent
        }
    }

    /// How far the mantissa of the operand with the smaller exponent moves
    /// to the right: the distance between the exponents, of which the
    /// shifter reads the low five bits only.
    pub open spec fn alignment_shift(&self, other: &Ps2Float) -> u32 {
        if self.exponent >= other.exponent {
            ((self.exponent - other.exponent) as u32) % 32
        } else {
            ((other.exponent - self.exponent) as u32) % 32
        }
    }

    /// The sum (`add`) or difference of the two mantissas, each with its
    /// implicit leading bit, after alignment. Bits shifted out are lost, and
    /// the sum or difference wraps at thirty-two bits.
    pub open spec fn combined_mantissa(&self, other: &Ps2Float, add: bool) -> u32 {
        let shift = self.alignment_shift(other);
        let own = if self.exponent >= other.exponent {
            self.mantissa | 0x80_0000
        } else {
            (self.mantissa | 0x80_0000) >> shift
        };
        let their = if self.exponent >= other.exponent {
            (other.mantissa | 0x80_0000) >> shift
        } else {
            other.mantissa | 0x80_0000
        };
        if add {
            own.wrapping_add(their)
        } else {
            own.wrapping_sub(their)
        }
    }

    /// The value with the given sign whose magnitude is `mantissa` scaled by
    /// `exponent`, where bit 23 of `mantissa` has the weight of the implicit
    /// leading bit.
    ///
    /// The leading bit of `mantissa` is brought to position 23 and the
    /// exponent follows it. An exponent that would pass 255 saturates to
    /// `Fmax`; one that would pass below zero flushes to zero. Bits that
    /// leave at the low end are dropped. A `mantissa` of zero is kept with
    /// the exponent as it is.
    pub open spec fn normalized(sign: bool, exponent: u8, mantissa: u32) -> Ps2Float {
        let top = leading_bit(mantissa);
        if mantissa == 0 {
            Ps2Float { sign, exponent, mantissa: 0 }
        } else if top >= 23 {
            if exponent + (top - 23) > 255 {
                Ps2Float::saturated(sign)
            } else {
                Ps2Float {
                    sign,
                    exponent: (exponent + (top - 23)) as u8,
                    mantissa: (mantissa >> ((top - 23) as u32)) & 0x7F_FFFF,
                }
            }
        } else {
            if exponent - (23 - top) < 0 {
                Ps2Float { sign, exponent: 0, mantissa: 0 }
            } else {
                Ps2Float {
                    sign,
                    exponent: (exponent - (23 - top)) as u8,
                    mantissa: (mantissa << ((23 - top) as u32)) & 0x7F_FFFF,
                }
            }
        }
    }

    /// What the adder gives for two operands that are neither denormalized
    /// nor both abnormal.
    pub open spec fn arithmetic_result(&self, other: &Ps2Float, add: bool) -> Ps2Float {
        let sign = if add {
            self.sign
        } else {
            Ps2Float::subtraction_sign(self, other)
        };
        Ps2Float::normalized(
            sign,
            self.aligned_exponent(other),
            self.combined_mantissa(other, add),
        )
    }

    /// Returns the place of the leading set bit in the given value.
    pub fn get_most_significant_bit_position(value: u32) -> (bit: i32)
        ensures
            bit == leading_bit(value),
            -1 <= bit <= 31,
    {
        let mut bit: i32 = 31;

        while bit >= 0
            invariant
                -1 <= bit <= 31,
                bit == 31 || value >> ((bit + 1) as u32) == 0,
            decreases bit + 1,
        {
            proof {
                lemma_bit_under_clear_bits(value, bit as u32);
            }
            if ((value >> (bit as u32)) & 1) != 0 {
                proof {
                    lemma_leading_bit_found(value, bit as u32);
                }
                return bit;
            }
            bit -= 1;
        }

        proof {
            lemma_shift_step(value, 0);
        }
        bit
    }

    /// Returns only the integer part of the float.
    ///
    /// The encoding is read as an unsigned integer, and an integer has
    /// nothing after the decimal point to discard: the result holds the
    /// fields of that same encoding.
    pub fn round_towards_zero(&self) -> (r: Ps2Float)
        ensures
            r == Ps2Float::of_bits(self@),
    {
        Ps2Float::new(self.as_u32())
    }

    /// The adder: adds `other` to `self`, or subtracts it where `add` is
    /// not set.
    ///
    /// Addition and subtraction differ only in how the mantissas are
    /// combined and in the sign, so one function serves both. It takes any
    /// operands; `add` and `sub` hand it those that are neither
    /// denormalized nor both abnormal.
    pub fn do_add_or_sub(&self, other: &Ps2Float, add: bool) -> (r: Ps2Float)
        ensures
            r == self.arithmetic_result(other, add),
            r.is_canonical(),
    {
        // Find the absolute value of the exponent difference.
        let exp_diff: u8 = if self.exponent >= other.exponent {
            self.exponent - other.exponent
        } else {
            other.exponent - self.exponent
        };

        // Add implicit leading bit to both mantissa.
        let mut self_mantissa: u32 = self.mantissa | 0x80_0000;
        let mut other_mantissa: u32 = other.mantissa | 0x80_0000;

        let mut result = Ps2Float::zero();

        // Align the exponents.
        if self.exponent >= other.exponent {
            other_mantissa = other_mantissa.wrapping_shr(exp_diff as u32);
            result.exponent = self.exponent;
        } else {
            self_mantissa = self_mantissa.wrapping_shr(exp_diff as u32);
            result.exponent = other.exponent;
        }

        if add {
            result.mantissa = self_mantissa.wrapping_add(other_mantissa);
            // Both numbers have the same sign.
            result.sign = self.sign;
        } else {
            result.mantissa = self_mantissa.wrapping_sub(other_mantissa);
            // Take the sign of the bigger mantissa.
            result.sign = Ps2Float::determine_subtraction_operation_sign(self, other);
        }

        let ghost sign = result.sign;
        let ghost exponent = result.exponent;
        let ghost mantissa = result.mantissa;

        // Normalize the result if needed.
        if result.mantissa > 0 {
            let mut leading_bit_position: i32 = Ps2Float::get_most_significant_bit_position(
                result.mantissa,
            );
            let ghost top = leading_bit_position;
            proof {
                lemma_leading_bit_bounds(mantissa);
                lemma_shift_step(mantissa, 0);
            }
            while leading_bit_position != IMPLICIT_LEADING_BIT_POS
                invariant
                    mantissa != 0,
                    top == leading_bit(mantissa),
                    0 <= top <= 31,
                    result.sign == sign,
                    self.arithmetic_result(other, add) == Ps2Float::normalized(
                        sign,
                        exponent,
                        mantissa,
                    ),
                    // On the way down from a leading bit above position 23.
                    top >= 23 ==> {
                        &&& 23 <= leading_bit_position <= top
                        &&& result.exponent == exponent + (top - leading_bit_position)
                        &&& result.mantissa == mantissa >> ((top - leading_bit_position) as u32)
                    },
                    // On the way up from a leading bit below position 23.
                    top < 23 ==> {
                        &&& top <= leading_bit_position <= 23
                        &&& result.exponent == exponent - (leading_bit_position - top)
                        &&& result.mantissa == mantissa << ((leading_bit_position - top) as u32)
                    },
                decreases
                        if leading_bit_position >= 23 {
                            leading_bit_position - 23
                        } else {
                            23 - leading_bit_position
                        },
            {
                if leading_bit_position > IMPLICIT_LEADING_BIT_POS {
                    proof {
                        lemma_shift_step(mantissa, (top - leading_bit_position) as u32);
                    }
                    result.mantissa = result.mantissa.wrapping_shr(1);

                    // Check for exponent overflow, if so return +/- max
                    // value depending on the sign.
                    let checked_exponent_increment = result.exponent.checked_add(1);
                    match checked_exponent_increment {
                        None => {
                            return if result.sign {
                                Ps2Float::min()
                            } else {
                                Ps2Float::max()
                            };
                        },
                        Some(res) => result.exponent = res,
                    }
                    leading_bit_position -= 1;
                } else {
                    proof {
                        lemma_shift_step(mantissa, (leading_bit_position - top) as u32);
                    }
                    result.mantissa = result.mantissa.wrapping_shl(1);

                    // Check for exponent underflow, if so the result is a
                    // denormalized float which doesn't exist so return +/- 0
                    // depending on the sign.
                    let checked_exponent_decrement = result.exponent.checked_sub(1);
                    match checked_exponent_decrement {
                        None => return Ps2Float::from_params(result.sign, 0, 0),
                        Some(res) => result.exponent = res,
                    }
                    leading_bit_position += 1;
                }
            }
        }

        // Remove implicit leading bit from mantissa.
        let ghost unmasked = result.mantissa;
        result.mantissa &= 0x7F_FFFF;
        proof {
            assert(unmasked & 0x7F_FFFF <= 0x7F_FFFF && (0u32 & 0x7F_FFFF) == 0) by (bit_vector);
            lemma_fields_round_trip(result);
        }

        result.round_towards_zero()
    }
}

} // verus!
