//! A reverse Polish notation calculator: an operand stack, and arithmetic,
//! bitwise and shift operations on it, with promotion from integers to
//! floats.
//!
//! The calculator of this crate is [`calc::Calculator`], over the values and
//! operations of [`types`]. Everything in the crate computes on integers. A
//! float is held as the 64 bits of a binary64 number ([`float`]), which is
//! enough to convert it from and to an integer, to compare it and to carry
//! it. What needs floating-point arithmetic is left to the caller and named
//! in the interface: an arithmetic operation with a float operand returns a
//! [`calc::FloatTask`], [`parser::parse`] hands a float literal on as text,
//! and [`calc::Calculator::display`] takes the texts of the floats.
//!
//! [`rpcalc`] is a second, smaller calculator over any one number type that
//! implements [`traits::Number`]. [`laws`] holds what is proved of the
//! engine beyond the contracts of its functions.

use vstd::prelude::*;

pub mod calc;
pub mod float;
pub mod laws;
pub mod parser;
pub mod rpcalc;
pub mod text;
pub mod traits;
pub mod types;

verus! {

} // verus!
