//! The text form of a value: its magnitude in decimal, labelled where the
//! value is not an ordinary number.
//!
//! The decimal digits come from the caller: they are a matter of floating
//! point arithmetic, which has no place in this crate. The label is decided
//! here.

use vstd::prelude::*;
use vstd::string::*;
use crate::encoding::Ps2Float;
use crate::encoding::{
    MAX_FLOATING_POINT_VALUE, MIN_FLOATING_POINT_VALUE, NEGATIVE_INFINITY_VALUE,
    POSITIVE_INFINITY_VALUE,
};

verus! {

/// The label that the text form gives a value.
#[derive(Debug, Clone, Copy, PartialEq, Eq, Structural)]
pub enum TextClass {
    /// The exponent is zero.
    Denormalized,
    /// The encoding is that of `+Fmax`.
    Fmax,
    /// The encoding is that of `-Fmax`.
    NegativeFmax,
    /// The encoding is that of `+Inf`.
    Inf,
    /// The encoding is that of `-Inf`.
    NegativeInf,
    /// Any other value: it has no label.
    Plain,
}

impl TextClass {
    /// What the text form puts before the opening bracket, and nothing for
    /// a value without a label.
    pub open spec fn spec_label(&self) -> Seq<char> {
        match self {
            TextClass::Denormalized => "Denormalized"@,
            TextClass::Fmax => "Fmax"@,
            TextClass::NegativeFmax => "-Fmax"@,
            TextClass::Inf => "Inf"@,
            TextClass::NegativeInf => "-Inf"@,
            TextClass::Plain => ""@,
        }
    }

    /// Returns the label, which is empty for a plain value.
    pub fn label(&self) -> (r: &'static str)
        ensures
            r@ == self.spec_label(),
    {
        match self {
            TextClass::Denormalized => "Denormalized",
            TextClass::Fmax => "Fmax",
            TextClass::NegativeFmax => "-Fmax",
            TextClass::Inf => "Inf",
            TextClass::NegativeInf => "-Inf",
            TextClass::Plain => "",
        }
    }
}

impl Ps2Float {
    /// The label of `self`. A zero exponent decides first; the four
    /// abnormal encodings follow.
    pub open spec fn spec_text_class(&self) -> TextClass {
        if self.is_denormalized() {
            TextClass::Denormalized
        } else if self@ == MAX_FLOATING_POINT_VALUE {
            TextClass::Fmax
        } else if self@ == MIN_FLOATING_POINT_VALUE {
            TextClass::NegativeFmax
        } else if self@ == POSITIVE_INFINITY_VALUE {
            TextClass::Inf
        } else if self@ == NEGATIVE_INFINITY_VALUE {
            TextClass::NegativeInf
        } else {
            TextClass::Plain
        }
    }

    /// The text form of `self`, given its magnitude in decimal: the
    /// magnitude alone for a plain value, and else the label with the
    /// magnitude in round brackets.
    pub open spec fn spec_text_form(&self, value: Seq<char>) -> Seq<char> {
        match self.spec_text_class() {
            TextClass::Plain => value,
            class => class.spec_label() + "("@ + value + ")"@,
        }
    }

    /// Returns the label that the text form gives `self`.
    #[verifier::when_used_as_spec(spec_text_class)]
    pub fn text_class(&self) -> (class: TextClass)
        ensures
            class == self.spec_text_class(),
    {
        let value = self.as_u32();
        if self.is_denormalized() {
            TextClass::Denormalized
        } else if value == MAX_FLOATING_POINT_VALUE {
            TextClass::Fmax
        } else if value == MIN_FLOATING_POINT_VALUE {
            TextClass::NegativeFmax
        } else if value == POSITIVE_INFINITY_VALUE {
            TextClass::Inf
        } else if value == NEGATIVE_INFINITY_VALUE {
            TextClass::NegativeInf
        } else {
            TextClass::Plain
        }
    }

    /// Returns the text form of `self`, where `value` is its magnitude
    /// written out in decimal.
    pub fn text_form(&self, value: &str) -> (text: String)
        ensures
            text@ == self.spec_text_form(value@),
    {
        let class = self.text_class();
        match class {
            TextClass::Plain => String::from_str(value),
            _ => {
                let mut text = String::from_str(class.label());
                text.append("(");
                text.append(value);
                text.append(")");
                text
            },
        }
    }
}

} // verus!
