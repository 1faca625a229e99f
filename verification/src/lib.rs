//! Exact rational numbers over 64-bit integers.
//!
//! A [`Fraction`] stores a signed numerator over a strictly positive
//! denominator. Arithmetic keeps the stored pair as the textbook formulas
//! give it; lowest terms are reached through [`Fraction::reduce`] only.
//! Equality and order compare values by cross-multiplication, so they do
//! not depend on which pair stands for a value.

pub mod divisor;
pub mod ratio;
pub mod fraction;
pub mod order;
pub mod ops;
pub mod text;
pub mod laws;

pub use fraction::{Fraction, FractionError};
pub use ratio::Ratio;

