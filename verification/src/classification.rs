//! The three classes that arithmetic dispatches on: zero, denormalized and
//! abnormal.

use vstd::prelude::*;
use crate::encoding::Ps2Float;
use crate::encoding::{
    MAX_FLOATING_POINT_VALUE, MIN_FLOATING_POINT_VALUE, NEGATIVE_INFINITY_VALUE,
    POSITIVE_INFINITY_VALUE,
};

verus! {

impl Ps2Float {
    /// Whether the low thirty-one bits of the encoding are clear, which
    /// admits both `+0` and `-0`.
    pub open spec fn spec_is_zero(&self) -> bool {
        self@ & 0x7FFF_FFFF == 0
    }

    /// Whether the exponent is zero. Both zeros are denormalized too.
    pub open spec fn spec_is_denormalized(&self) -> bool {
        self.exponent == 0
    }

    /// Whether the encoding is one of `+Fmax`, `-Fmax`, `+Inf` and `-Inf`.
    pub open spec fn spec_is_abnormal(&self) -> bool {
        ||| self@ == MAX_FLOATING_POINT_VALUE
        ||| self@ == MIN_FLOATING_POINT_VALUE
        ||| self@ == POSITIVE_INFINITY_VALUE
        ||| self@ == NEGATIVE_INFINITY_VALUE
    }

    /// Returns if the float is denormalized.
    ///
    /// Denormalized floats have an exponent of 0.
    #[verifier::when_used_as_spec(spec_is_denormalized)]
    pub fn is_denormalized(&self) -> (r: bool)
        ensures
            r == self.spec_is_denormalized(),
    {
        self.exponent == 0
    }

    /// Returns if the float has an abnormal value.
    ///
    /// Abnormal values are `+/-Inf` and `+/-Fmax`.
    #[verifier::when_used_as_spec(spec_is_abnormal)]
    pub fn is_abnormal(&self) -> (r: bool)
        ensures
            r == self.spec_is_abnormal(),
    {
        let val = self.as_u32();

        val == MAX_FLOATING_POINT_VALUE || val == MIN_FLOATING_POINT_VALUE || val
            == POSITIVE_INFINITY_VALUE || val == NEGATIVE_INFINITY_VALUE
    }

    /// Returns if the float is zero.
    ///
    /// Checks if the absolute value of the float is zero.
    #[verifier::when_used_as_spec(spec_is_zero)]
    pub fn is_zero(&self) -> (r: bool)
        ensures
            r == self.spec_is_zero(),
    {
        self.as_u32() & 0x7FFF_FFFF == 0
    }
}

} // verus!
