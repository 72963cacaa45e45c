//! The arithmetic that the type offers: `add` and `sub`, and the two
//! operations that are not defined yet.

use vstd::prelude::*;
use std::cmp::Ordering;
use crate::abnormal::abnormal_outcome;
use crate::abnormal::abnormal_pair_listed;
use crate::encoding::lemma_named_values;
use crate::encoding::Ps2Float;

verus! {

/// An operation that has no defined result yet.
#[derive(Debug, Clone, Copy, PartialEq, Eq, Structural)]
pub enum Unimplemented {
    /// The product of two floats.
    Multiplication,
    /// The quotient of two floats.
    Division,
}

impl Ps2Float {
    /// Whether `self` and `other` have a sum and a difference. Only a pair
    /// of abnormal values that the table of abnormal outcomes does not list
    /// has none.
    pub open spec fn spec_combines_with(&self, other: &Ps2Float) -> bool {
        !self.is_denormalized() && !other.is_denormalized() && self.is_abnormal()
            && other.is_abnormal() ==> abnormal_pair_listed(self@, other@)
    }

    /// The difference `self - other`.
    ///
    /// A denormalized operand counts as zero. Two abnormal operands are
    /// looked up. Operands that are equal in the order give a zero. All
    /// others go through the adder, which subtracts the aligned mantissas
    /// whatever the signs are.
    pub open spec fn difference(&self, other: &Ps2Float) -> Ps2Float {
        if self.is_denormalized() || other.is_denormalized() {
            Ps2Float::denormal_outcome(self, other, false)
        } else if self.is_abnormal() && other.is_abnormal() {
            Ps2Float::of_bits(abnormal_outcome(self@, other@, false))
        } else if self.signed_magnitude() == other.signed_magnitude() {
            Ps2Float { sign: Ps2Float::subtraction_sign(self, other), exponent: 0, mantissa: 0 }
        } else {
            self.arithmetic_result(other, false)
        }
    }

    /// The sum `self + other`.
    ///
    /// A denormalized operand counts as zero. Two abnormal operands are
    /// looked up. Operands of different sign are subtracted instead, with
    /// `other` as it is. All others go through the adder.
    pub open spec fn sum(&self, other: &Ps2Float) -> Ps2Float {
        if self.is_denormalized() || other.is_denormalized() {
            Ps2Float::denormal_outcome(self, other, true)
        } else if self.is_abnormal() && other.is_abnormal() {
            Ps2Float::of_bits(abnormal_outcome(self@, other@, true))
        } else if self.sign != other.sign {
            self.difference(other)
        } else {
            self.arithmetic_result(other, true)
        }
    }

    /// Returns if `self` and `other` can be added and subtracted.
    #[verifier::when_used_as_spec(spec_combines_with)]
    pub fn combines_with(&self, other: &Ps2Float) -> (r: bool)
        ensures
            r == self.spec_combines_with(other),
    {
        if self.is_denormalized() || other.is_denormalized() {
            return true;
        }
        if !(self.is_abnormal() && other.is_abnormal()) {
            return true;
        }
        Ps2Float::is_listed_abnormal_pair(self, other)
    }

    /// Adds two PS2 floats together.
    pub fn add(&self, addend: &Ps2Float) -> (r: Ps2Float)
        requires
            self.combines_with(addend),
        ensures
            r == self.sum(addend),
    {
        // Check if either number is denormalized because denormalized floats
        // don't exist on the PS2 and are truncated to zero during arithmetic
        // operations.
        if self.is_denormalized() || addend.is_denormalized() {
            return Ps2Float::solve_demoralized_operation(self, addend, true);
        }

        // Check if abnormal operation between two Fmax or Inf numbers.
        if self.is_abnormal() && addend.is_abnormal() {
            return Ps2Float::solve_abnormal_addition_or_subtraction_operation(self, addend, true);
        }

        // Only add floats with the same sign, otherwise subtract.
        if self.sign != addend.sign {
            return self.sub(addend);
        }

        self.do_add_or_sub(addend, true)
    }

    /// Subtracts two PS2 floats from each other.
    pub fn sub(&self, subtrahend: &Ps2Float) -> (r: Ps2Float)
        requires
            self.combines_with(subtrahend),
        ensures
            r == self.difference(subtrahend),
    {
        // Check if either number is denormalized because denormalized floats
        // don't exist on the PS2 and are truncated to zero during arithmetic
        // operations.
        if self.is_denormalized() || subtrahend.is_denormalized() {
            return Ps2Float::solve_demoralized_operation(self, subtrahend, false);
        }

        // Check if abnormal operation between two Fmax or Inf numbers.
        if self.is_abnormal() && subtrahend.is_abnormal() {
            return Ps2Float::solve_abnormal_addition_or_subtraction_operation(
                self,
                subtrahend,
                false,
            );
        }

        // Check if both numbers are equal, if so the result is zero.
        match self.cmp(subtrahend) {
            Ordering::Equal => {
                let mut result = Ps2Float::new(0);
                proof {
                    lemma_named_values();
                }
                result.sign = Ps2Float::determine_subtraction_operation_sign(self, subtrahend);
                return result;
            },
            _ => {},
        }

        self.do_add_or_sub(subtrahend, false)
    }

    /// Multiplication is not defined yet: every call reports so and makes up
    /// no product.
    pub fn mul(&self, _factor: &Ps2Float) -> (r: Result<Ps2Float, Unimplemented>)
        ensures
            r == Err::<Ps2Float, Unimplemented>(Unimplemented::Multiplication),
    {
        Err(Unimplemented::Multiplication)
    }

    /// Division is not defined yet: every call reports so and makes up no
    /// quotient.
    pub fn div(&self, _factor: &Ps2Float) -> (r: Result<Ps2Float, Unimplemented>)
        ensures
            r == Err::<Ps2Float, Unimplemented>(Unimplemented::Division),
    {
        Err(Unimplemented::Division)
    }
}

} // verus!
