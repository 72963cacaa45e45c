//! Sums and differences with a denormalized operand. The PS2 has no
//! denormalized numbers: such an operand counts as zero.

use vstd::prelude::*;
use crate::encoding::Ps2Float;

verus! {

impl Ps2Float {
    /// The sum (`add`) or difference of `a` and `b` where at least one of
    /// them is denormalized: the exponent and mantissa of the operand that
    /// is not, or of zero where both are, under the sign that the operation
    /// gives.
    pub open spec fn denormal_outcome(a: &Ps2Float, b: &Ps2Float, add: bool) -> Ps2Float {
        let kept = if !b.is_denormalized() {
            *b
        } else if !a.is_denormalized() {
            *a
        } else {
            Ps2Float::zero()
        };
        Ps2Float {
            sign: if add {
                Ps2Float::addition_sign(a, b)
            } else {
                Ps2Float::subtraction_sign(a, b)
            },
            exponent: kept.exponent,
            mantissa: kept.mantissa,
        }
    }

    /// Solves an addition or subtraction operation where at least one of the
    /// floats is denormalized.
    pub fn solve_demoralized_operation(a: &Ps2Float, b: &Ps2Float, add: bool) -> (r: Ps2Float)
        requires
            a.is_denormalized() || b.is_denormalized(),
        ensures
            r == Ps2Float::denormal_outcome(a, b, add),
    {
        let mut result;
        if a.is_denormalized() && !b.is_denormalized() {
            result = *b;
        } else if !a.is_denormalized() && b.is_denormalized() {
            result = *a;
        } else {
            result = Ps2Float::zero();
        }

        if add {
            result.sign = Ps2Float::determine_addition_operation_sign(a, b);
        } else {
            result.sign = Ps2Float::determine_subtraction_operation_sign(a, b);
        }

        result
    }
}

} // verus!
