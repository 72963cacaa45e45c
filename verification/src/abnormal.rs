//! Sums and differences of two abnormal values, which the hardware looks up
//! rather than computes.

use vstd::prelude::*;
use crate::encoding::lemma_named_values;
use crate::encoding::Ps2Float;
use crate::encoding::{
    MAX_FLOATING_POINT_VALUE, MIN_FLOATING_POINT_VALUE, NEGATIVE_INFINITY_VALUE,
    POSITIVE_INFINITY_VALUE,
};

verus! {

/// Whether the table has a row for the pair of encodings `a`, `b`.
pub open spec fn abnormal_pair_listed(a: u32, b: u32) -> bool {
    ||| a == MAX_FLOATING_POINT_VALUE && b == MAX_FLOATING_POINT_VALUE
    ||| a == MIN_FLOATING_POINT_VALUE && b == MIN_FLOATING_POINT_VALUE
    ||| a == MIN_FLOATING_POINT_VALUE && b == MAX_FLOATING_POINT_VALUE
    ||| a == MAX_FLOATING_POINT_VALUE && b == MIN_FLOATING_POINT_VALUE
    ||| a == POSITIVE_INFINITY_VALUE && b == POSITIVE_INFINITY_VALUE
    ||| a == NEGATIVE_INFINITY_VALUE && b == POSITIVE_INFINITY_VALUE
    ||| a == NEGATIVE_INFINITY_VALUE && b == NEGATIVE_INFINITY_VALUE
}

/// The encoding that the table gives for `a + b` (`add`) or `a - b` (not
/// `add`), row by row, and zero for a pair without a row.
pub open spec fn abnormal_outcome(a: u32, b: u32, add: bool) -> u32 {
    let max = MAX_FLOATING_POINT_VALUE;
    let min = MIN_FLOATING_POINT_VALUE;
    let inf = POSITIVE_INFINITY_VALUE;
    let neg_inf = NEGATIVE_INFINITY_VALUE;
    if a == max && b == max {
        if add { max } else { 0 }
    } else if a == min && b == min {
        if add { min } else { 0 }
    } else if a == min && b == max {
        if add { max } else { min }
    } else if a == max && b == min {
        if add { 0 } else { max }
    } else if a == inf && b == inf {
        if add { max } else { 0 }
    } else if a == neg_inf && b == inf {
        if add { 0 } else { min }
    } else if a == neg_inf && b == neg_inf {
        if add { min } else { 0 }
    } else {
        0
    }
}

impl Ps2Float {
    /// Returns if the table of abnormal outcomes has a row for `a` and `b`.
    pub fn is_listed_abnormal_pair(a: &Ps2Float, b: &Ps2Float) -> (r: bool)
        ensures
            r == abnormal_pair_listed(a@, b@),
    {
        let a_val = a.as_u32();
        let b_val = b.as_u32();
        if a_val == MAX_FLOATING_POINT_VALUE || a_val == MIN_FLOATING_POINT_VALUE {
            b_val == MAX_FLOATING_POINT_VALUE || b_val == MIN_FLOATING_POINT_VALUE
        } else if a_val == POSITIVE_INFINITY_VALUE {
            b_val == POSITIVE_INFINITY_VALUE
        } else if a_val == NEGATIVE_INFINITY_VALUE {
            b_val == POSITIVE_INFINITY_VALUE || b_val == NEGATIVE_INFINITY_VALUE
        } else {
            false
        }
    }

    /// Solves an addition or subtraction operation between two abnormal
    /// floats.
    pub fn solve_abnormal_addition_or_subtraction_operation(
        a: &Ps2Float,
        b: &Ps2Float,
        add: bool,
    ) -> (r: Ps2Float)
        requires
            abnormal_pair_listed(a@, b@),
        ensures
            r == Ps2Float::of_bits(abnormal_outcome(a@, b@, add)),
            r@ == abnormal_outcome(a@, b@, add),
    {
        let a_val = a.as_u32();
        let b_val = b.as_u32();
        proof {
            lemma_named_values();
        }

        if a_val == MAX_FLOATING_POINT_VALUE && b_val == MAX_FLOATING_POINT_VALUE {
            // MAX + MAX = MAX, MAX - MAX = 0
            return if add {
                Ps2Float::max()
            } else {
                Ps2Float::zero()
            };
        }
        if a_val == MIN_FLOATING_POINT_VALUE && b_val == MIN_FLOATING_POINT_VALUE {
            // -MAX + -MAX = -MAX, -MAX - -MAX = 0
            return if add {
                Ps2Float::min()
            } else {
                Ps2Float::zero()
            };
        }
        if a_val == MIN_FLOATING_POINT_VALUE && b_val == MAX_FLOATING_POINT_VALUE {
            // -MAX + MAX = MAX, -MAX - MAX = -MAX
            return if add {
                Ps2Float::max()
            } else {
                Ps2Float::min()
            };
        }
        if a_val == MAX_FLOATING_POINT_VALUE && b_val == MIN_FLOATING_POINT_VALUE {
            // MAX + -MAX = 0, MAX - -MAX = MAX
            return if add {
                Ps2Float::zero()
            } else {
                Ps2Float::max()
            };
        }
        if a_val == POSITIVE_INFINITY_VALUE && b_val == POSITIVE_INFINITY_VALUE {
            // INF + INF = MAX, INF - INF = 0
            return if add {
                Ps2Float::max()
            } else {
                Ps2Float::zero()
            };
        }
        if a_val == NEGATIVE_INFINITY_VALUE && b_val == POSITIVE_INFINITY_VALUE {
            // -INF + INF = 0, -INF - INF = -MAX
            return if add {
                Ps2Float::zero()
            } else {
                Ps2Float::min()
            };
        }
        // -INF + -INF = -MAX, -INF - -INF = 0
        if add {
            Ps2Float::min()
        } else {
            Ps2Float::zero()
        }
    }
}

} // verus!
