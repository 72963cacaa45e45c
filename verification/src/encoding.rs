//! The 32-bit layout: one sign bit, eight exponent bits, twenty-three
//! mantissa bits.

use vstd::prelude::*;

verus! {

/// The encoding of `+Fmax`, the largest value.
pub const MAX_FLOATING_POINT_VALUE: u32 = 0x7FFF_FFFF;

/// The encoding of `-Fmax`, the smallest value.
pub const MIN_FLOATING_POINT_VALUE: u32 = 0xFFFF_FFFF;

/// The encoding that IEEE 754 reads as positive infinity.
pub const POSITIVE_INFINITY_VALUE: u32 = 0x7F80_0000;

/// The encoding that IEEE 754 reads as negative infinity.
pub const NEGATIVE_INFINITY_VALUE: u32 = 0xFF80_0000;

/// A floating point number in the PS2's IEEE 754 variant format.
///
/// The three fields are kept exactly as given. A value decoded from a word
/// is canonical: its mantissa fits in twenty-three bits.
#[derive(Debug, Clone, Copy, PartialEq, Eq, Structural)]
pub struct Ps2Float {
    /// Set for negative values.
    pub sign: bool,
    /// The exponent, biased by 127.
    pub exponent: u8,
    /// The fraction bits; a leading one is implied when `exponent` is not
    /// zero.
    pub mantissa: u32,
}

impl View for Ps2Float {
    type V = u32;

    /// The 32-bit word that encodes the value: the three fields laid over
    /// each other at bit 31, bit 23 and bit 0.
    open spec fn view(&self) -> u32 {
        (if self.sign { 0x8000_0000u32 } else { 0u32 })
            | ((self.exponent as u32) << 23)
            | self.mantissa
    }
}

impl Ps2Float {
    /// The value that a 32-bit word decodes to.
    pub open spec fn of_bits(value: u32) -> Ps2Float {
        Ps2Float {
            sign: (value >> 31) & 1 != 0,
            exponent: ((value >> 23) & 0xFF) as u8,
            mantissa: value & 0x7F_FFFF,
        }
    }

    /// Whether the mantissa stays within its twenty-three bits, as it does
    /// in every value decoded from a word.
    pub open spec fn is_canonical(&self) -> bool {
        self.mantissa <= 0x7F_FFFF
    }

    /// Positive zero.
    pub open spec fn spec_zero() -> Ps2Float {
        Ps2Float { sign: false, exponent: 0, mantissa: 0 }
    }

    /// `+Fmax` or `-Fmax`, the value that an overflow saturates to.
    pub open spec fn saturated(sign: bool) -> Ps2Float {
        Ps2Float { sign, exponent: 0xFF, mantissa: 0x7F_FFFF }
    }

    /// Creates a new PS2 float from its 32-bit encoding.
    pub fn new(value: u32) -> (r: Ps2Float)
        ensures
            r == Ps2Float::of_bits(value),
            r@ == value,
            r.is_canonical(),
    {
        proof {
            lemma_word_round_trip(value);
        }
        Ps2Float {
            sign: ((value >> 31) & 1) != 0,
            exponent: ((value >> 23) & 0xFF) as u8,
            mantissa: value & 0x7F_FFFF,
        }
    }

    /// Creates a new PS2 float from the given sign, exponent and mantissa,
    /// each stored as it is.
    pub fn from_params(sign: bool, exponent: u8, mantissa: u32) -> (r: Ps2Float)
        ensures
            r == (Ps2Float { sign, exponent, mantissa }),
    {
        Ps2Float { sign, exponent, mantissa }
    }

    /// Returns the maximum possible value, `+Fmax`.
    pub fn max() -> (r: Ps2Float)
        ensures
            r == Ps2Float::saturated(false),
            r@ == MAX_FLOATING_POINT_VALUE,
    {
        proof {
            lemma_named_values();
        }
        Ps2Float::new(MAX_FLOATING_POINT_VALUE)
    }

    /// Returns the minimum possible value, `-Fmax`.
    pub fn min() -> (r: Ps2Float)
        ensures
            r == Ps2Float::saturated(true),
            r@ == MIN_FLOATING_POINT_VALUE,
    {
        proof {
            lemma_named_values();
        }
        Ps2Float::new(MIN_FLOATING_POINT_VALUE)
    }

    /// Returns positive zero.
    #[verifier::when_used_as_spec(spec_zero)]
    pub fn zero() -> (r: Ps2Float)
        ensures
            r == Ps2Float::spec_zero(),
            r@ == 0,
    {
        proof {
            lemma_named_values();
        }
        Ps2Float { sign: false, exponent: 0, mantissa: 0 }
    }

    /// Returns the 32-bit encoding of `self`.
    pub fn as_u32(&self) -> (r: u32)
        ensures
            r == self@,
    {
        let mut result: u32 = 0;
        result |= (if self.sign { 1u32 } else { 0u32 }) << 31;
        result |= (self.exponent as u32) << 23;
        result |= self.mantissa;
        proof {
            lemma_pack(self.sign, self.exponent, self.mantissa);
        }
        result
    }
}

impl Default for Ps2Float {
    /// Positive zero.
    fn default() -> (r: Ps2Float)
        ensures
            r == Ps2Float::spec_zero(),
    {
        Ps2Float::zero()
    }
}

/// Round trip from the word: splitting any word into its three fields and
/// packing them again gives the word back, and the fields are canonical.
pub proof fn lemma_word_round_trip(value: u32)
    ensures
        Ps2Float::of_bits(value)@ == value,
        Ps2Float::of_bits(value).is_canonical(),
{
    assert({
        &&& (if (value >> 31) & 1 != 0 { 0x8000_0000u32 } else { 0u32 })
            | (((((value >> 23) & 0xFF) as u8) as u32) << 23)
            | (value & 0x7F_FFFF) == value
        &&& value & 0x7F_FFFF <= 0x7F_FFFF
    }) by (bit_vector);
}

/// Round trip from the fields: packing a canonical value and splitting the
/// word again gives the value back.
pub proof fn lemma_fields_round_trip(value: Ps2Float)
    requires
        value.is_canonical(),
    ensures
        Ps2Float::of_bits(value@) == value,
{
    let sign = value.sign;
    let exponent = value.exponent;
    let mantissa = value.mantissa;
    let word = (if sign { 0x8000_0000u32 } else { 0u32 }) | ((exponent as u32) << 23) | mantissa;
    assert(((word >> 31) & 1 != 0) == sign && ((word >> 23) & 0xFF) as u8 == exponent
        && word & 0x7F_FFFF == mantissa) by (bit_vector)
        requires
            mantissa <= 0x7F_FFFF,
            word == (if sign { 0x8000_0000u32 } else { 0u32 }) | ((exponent as u32) << 23)
                | mantissa,
    ;
}

/// The fields of the named encodings.
pub proof fn lemma_named_values()
    ensures
        Ps2Float::of_bits(MAX_FLOATING_POINT_VALUE) == Ps2Float::saturated(false),
        Ps2Float::of_bits(MIN_FLOATING_POINT_VALUE) == Ps2Float::saturated(true),
        Ps2Float::of_bits(0) == Ps2Float::spec_zero(),
        Ps2Float::spec_zero()@ == 0,
{
    assert({
        &&& (0x7FFF_FFFFu32 >> 31) & 1 == 0
        &&& ((0x7FFF_FFFFu32 >> 23) & 0xFF) as u8 == 0xFFu8
        &&& 0x7FFF_FFFFu32 & 0x7F_FFFF == 0x7F_FFFFu32
        &&& (0xFFFF_FFFFu32 >> 31) & 1 == 1
        &&& ((0xFFFF_FFFFu32 >> 23) & 0xFF) as u8 == 0xFFu8
        &&& 0xFFFF_FFFFu32 & 0x7F_FFFF == 0x7F_FFFFu32
        &&& (0u32 >> 31) & 1 == 0
        &&& ((0u32 >> 23) & 0xFF) as u8 == 0u8
        &&& 0u32 & 0x7F_FFFF == 0u32
        &&& 0u32 | ((0u8 as u32) << 23) | 0u32 == 0u32
    }) by (bit_vector);
}

/// Setting the three fields into an empty word one after the other lays
/// them over each other.
proof fn lemma_pack(sign: bool, exponent: u8, mantissa: u32)
    by (bit_vector)
    ensures
        (0u32 | ((if sign { 1u32 } else { 0u32 }) << 31)) | ((exponent as u32) << 23) | mantissa
            == (if sign { 0x8000_0000u32 } else { 0u32 }) | ((exponent as u32) << 23) | mantissa,
{
}

} // verus!
