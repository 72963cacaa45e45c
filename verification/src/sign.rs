//! The sign of a sum and of a difference, which the signed zeros make less
//! obvious than it looks.

use vstd::prelude::*;
use std::cmp::Ordering;
use crate::encoding::Ps2Float;

verus! {

impl Ps2Float {
    /// The sign of `a + b`: that of `a`, except that two zeros give a
    /// negative zero only when both are negative.
    pub open spec fn addition_sign(a: &Ps2Float, b: &Ps2Float) -> bool {
        if a.is_zero() && b.is_zero() {
            a.sign && b.sign
        } else {
            a.sign
        }
    }

    /// The sign of `a - b`. Two zeros give a negative zero only for
    /// `(-0) - (+0)`. Otherwise the sign is that of `a`, unless `a` is
    /// below `b` in the order, where it is the opposite of the sign of `b`.
    pub open spec fn subtraction_sign(a: &Ps2Float, b: &Ps2Float) -> bool {
        if a.is_zero() && b.is_zero() {
            a.sign && !b.sign
        } else if a.signed_magnitude() < b.signed_magnitude() {
            !b.sign
        } else {
            a.sign
        }
    }

    /// Determines the sign of an addition operation.
    pub fn determine_addition_operation_sign(a: &Ps2Float, b: &Ps2Float) -> (negative: bool)
        ensures
            negative == Ps2Float::addition_sign(a, b),
    {
        if a.is_zero() && b.is_zero() {
            if !a.sign || !b.sign {
                return false;
            } else {
                return true;
            }
        }
        a.sign
    }

    /// Determines the sign of a subtraction operation.
    pub fn determine_subtraction_operation_sign(a: &Ps2Float, b: &Ps2Float) -> (negative: bool)
        ensures
            negative == Ps2Float::subtraction_sign(a, b),
    {
        if a.is_zero() && b.is_zero() {
            if !a.sign || b.sign {
                return false;
            } else {
                return true;
            }
        }

        // Flip the sign of the second number.
        let b_sign = !b.sign;

        match a.cmp(b) {
            Ordering::Less => b_sign,
            Ordering::Equal => a.sign,
            Ordering::Greater => a.sign,
        }
    }
}

} // verus!
