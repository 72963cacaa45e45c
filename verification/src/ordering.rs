//! The total order on encodings: each word is read as a sign and a
//! thirty-one bit magnitude.

use vstd::prelude::*;
use std::cmp::Ordering;
use crate::encoding::lemma_fields_round_trip;
use crate::encoding::lemma_word_round_trip;
use crate::encoding::Ps2Float;

verus! {

impl Ps2Float {
    /// The integer that orders `self`: the low thirty-one bits of the
    /// encoding, negated when the sign is set.
    pub open spec fn signed_magnitude(&self) -> int {
        let magnitude = (self@ & 0x7FFF_FFFF) as int;
        if self.sign {
            -magnitude
        } else {
            magnitude
        }
    }

    /// How `self` stands to `other`: as their signed magnitudes stand.
    pub open spec fn compare(&self, other: &Ps2Float) -> Ordering {
        if self.signed_magnitude() < other.signed_magnitude() {
            Ordering::Less
        } else if self.signed_magnitude() == other.signed_magnitude() {
            Ordering::Equal
        } else {
            Ordering::Greater
        }
    }

    /// Returns the signed magnitude of `self` as a machine integer.
    pub fn signed_value(&self) -> (r: i32)
        ensures
            r == self.signed_magnitude(),
    {
        let word = self.as_u32();
        assert(word & 0x7FFF_FFFF <= 0x7FFF_FFFF) by (bit_vector);
        let magnitude = (word & 0x7FFF_FFFF) as i32;
        if self.sign {
            -magnitude
        } else {
            magnitude
        }
    }

    /// Compares two floats and returns the [`Ordering`] between `self` and
    /// `other`.
    pub fn cmp(&self, other: &Ps2Float) -> (o: Ordering)
        ensures
            o == self.compare(other),
    {
        let own = self.signed_value();
        let their = other.signed_value();
        if own < their {
            Ordering::Less
        } else if own == their {
            Ordering::Equal
        } else {
            Ordering::Greater
        }
    }
}

/// The integer that a word stands for when bit 31 is read as a sign and the
/// other bits as a magnitude.
pub open spec fn word_signed_magnitude(word: u32) -> int {
    if word < 0x8000_0000 {
        word as int
    } else {
        0x8000_0000 - word
    }
}

/// The order reads a decoded word as a sign and a magnitude.
pub proof fn lemma_signed_magnitude_of_word(word: u32)
    ensures
        Ps2Float::of_bits(word).signed_magnitude() == word_signed_magnitude(word),
{
    lemma_word_round_trip(word);
    assert(((word >> 31) & 1 != 0) == (word >= 0x8000_0000) && (word < 0x8000_0000 ==> word
        & 0x7FFF_FFFF == word) && (word >= 0x8000_0000 ==> word & 0x7FFF_FFFF == (word
        - 0x8000_0000) as u32)) by (bit_vector);
}

/// The order on decoded words is the order of the integers that they stand
/// for, so `+0` and `-0` are equal in it and every negative value is below
/// every positive one.
pub proof fn lemma_order_of_words(a: u32, b: u32)
    ensures
        word_signed_magnitude(a) < word_signed_magnitude(b) <==> Ps2Float::of_bits(a).compare(
            &Ps2Float::of_bits(b),
        ) == Ordering::Less,
        word_signed_magnitude(a) == word_signed_magnitude(b) <==> Ps2Float::of_bits(a).compare(
            &Ps2Float::of_bits(b),
        ) == Ordering::Equal,
        word_signed_magnitude(a) > word_signed_magnitude(b) <==> Ps2Float::of_bits(a).compare(
            &Ps2Float::of_bits(b),
        ) == Ordering::Greater,
{
    lemma_signed_magnitude_of_word(a);
    lemma_signed_magnitude_of_word(b);
}

/// The order is total: any two values are comparable, each value equals
/// itself, and turning a pair around turns the answer around.
pub proof fn lemma_order_is_total(a: Ps2Float, b: Ps2Float)
    ensures
        a.compare(&a) == Ordering::Equal,
        a.compare(&b) == Ordering::Less <==> b.compare(&a) == Ordering::Greater,
        a.compare(&b) == Ordering::Equal <==> b.compare(&a) == Ordering::Equal,
        a.compare(&b) == Ordering::Greater <==> b.compare(&a) == Ordering::Less,
        a.compare(&b) != Ordering::Greater || b.compare(&a) != Ordering::Greater,
{
}

/// The order is transitive, in its strict and in its weak form.
pub proof fn lemma_order_is_transitive(a: Ps2Float, b: Ps2Float, c: Ps2Float)
    ensures
        a.compare(&b) != Ordering::Greater && b.compare(&c) != Ordering::Greater ==> a.compare(&c)
            != Ordering::Greater,
        a.compare(&b) == Ordering::Less && b.compare(&c) != Ordering::Greater ==> a.compare(&c)
            == Ordering::Less,
        a.compare(&b) != Ordering::Greater && b.compare(&c) == Ordering::Less ==> a.compare(&c)
            == Ordering::Less,
        a.compare(&b) == Ordering::Equal && b.compare(&c) == Ordering::Equal ==> a.compare(&c)
            == Ordering::Equal,
{
}

/// Canonical values have the same signed magnitude exactly where they are
/// the same value or the two zeros.
pub proof fn lemma_equal_signed_magnitudes(a: Ps2Float, b: Ps2Float)
    requires
        a.is_canonical(),
        b.is_canonical(),
    ensures
        a.signed_magnitude() == b.signed_magnitude() <==> a == b || (a.is_zero() && b.is_zero()),
{
    lemma_fields_round_trip(a);
    lemma_fields_round_trip(b);
    lemma_signed_magnitude_of_word(a@);
    lemma_signed_magnitude_of_word(b@);
    let x = a@;
    let y = b@;
    assert((x & 0x7FFF_FFFF == 0 <==> x == 0 || x == 0x8000_0000) && (y & 0x7FFF_FFFF == 0 <==> y
        == 0 || y == 0x8000_0000)) by (bit_vector);
}

/// Canonical values that are equal in the order have the same encoding, or
/// are the two zeros.
pub proof fn lemma_order_equality(a: Ps2Float, b: Ps2Float)
    requires
        a.is_canonical(),
        b.is_canonical(),
    ensures
        a.compare(&b) == Ordering::Equal <==> a == b || (a.is_zero() && b.is_zero()),
{
    lemma_equal_signed_magnitudes(a, b);
}

impl PartialOrd for Ps2Float {
    /// The order of the signed magnitudes, in which any two values are
    /// comparable.
    fn partial_cmp(&self, other: &Ps2Float) -> (r: Option<Ordering>) {
        Some(self.cmp(other))
    }
}

impl vstd::std_specs::cmp::PartialOrdSpecImpl for Ps2Float {
    open spec fn obeys_partial_cmp_spec() -> bool {
        true
    }

    open spec fn partial_cmp_spec(&self, other: &Ps2Float) -> Option<Ordering> {
        Some(self.compare(other))
    }
}

} // verus!
