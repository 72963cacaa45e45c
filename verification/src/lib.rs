//! The PlayStation 2 variant of IEEE 754 single-precision numbers.
//!
//! The PS2 keeps the layout of an IEEE 754 single and changes what it means:
//! there are no denormalized numbers, no infinities and no NaN, and results
//! are truncated towards zero. The encodings that IEEE 754 reads as NaN and
//! infinity are numbers here, the largest of them `Fmax`.
//!
//! [`Ps2Float`] holds the three fields of an encoding. Its sum and
//! difference are stated as the spec functions [`Ps2Float::sum`] and
//! [`Ps2Float::difference`], which [`Ps2Float::add`] and [`Ps2Float::sub`]
//! are proved to compute; the module `laws` proves what holds of them.

pub mod abnormal;
pub mod arithmetic;
pub mod classification;
pub mod denormal;
pub mod encoding;
pub mod laws;
pub mod operations;
pub mod ordering;
pub mod sign;
pub mod text;

pub use encoding::Ps2Float;
pub use operations::Unimplemented;
pub use text::TextClass;
