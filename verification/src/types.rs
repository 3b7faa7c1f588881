//! The values, operations and display bases of the calculator.

use crate::float;
use vstd::prelude::*;
use vstd::std_specs::cmp::PartialEqSpecImpl;
use vstd::std_specs::convert::FromSpecImpl;

verus! {

/// A value on the stack of the calculator.
///
/// A `Float` holds the 64 bits of a binary64 number; see [`crate::float`].
#[derive(Debug, Clone, Copy)]
pub enum Value {
    Integer(i64),
    Float(u64),
}

impl Value {
    /// The value as an `i64`: an integer as it is, a float rounded toward
    /// zero (see [`float::truncated`]).
    pub open spec fn as_int(self) -> i64 {
        match self {
            Value::Integer(i) => i,
            Value::Float(bits) => float::truncated(bits) as i64,
        }
    }

    /// The value as a binary64 pattern: a float as it is, an integer as the
    /// nearest binary64 number (see [`float::from_int`]).
    pub open spec fn as_float(self) -> u64 {
        match self {
            Value::Integer(i) => float::from_int(i as int),
            Value::Float(bits) => bits,
        }
    }

    /// Whether the value is a float.
    pub fn is_float(&self) -> (r: bool)
        ensures
            r == (*self is Float),
    {
        match self {
            Value::Float(_) => true,
            Value::Integer(_) => false,
        }
    }

    /// Whether the value is an integer.
    pub fn is_integer(&self) -> (r: bool)
        ensures
            r == (*self is Integer),
    {
        match self {
            Value::Integer(_) => true,
            Value::Float(_) => false,
        }
    }

    /// Converts to a binary64 pattern. An integer beyond 2^53 in magnitude may
    /// not be representable and is then rounded.
    pub fn to_float(self) -> (bits: u64)
        ensures
            bits == self.as_float(),
    {
        match self {
            Value::Integer(i) => float::from_i64(i),
            Value::Float(bits) => bits,
        }
    }
}

impl From<Value> for i64 {
    /// Converts to an integer; a float loses its fraction and is brought into
    /// range. Never fails.
    fn from(v: Value) -> (r: i64) {
        match v {
            Value::Integer(i) => i,
            Value::Float(bits) => float::to_i64(bits),
        }
    }
}

impl FromSpecImpl<Value> for i64 {
    open spec fn obeys_from_spec() -> bool {
        true
    }

    open spec fn from_spec(v: Value) -> i64 {
        v.as_int()
    }
}

impl PartialEq for Value {
    /// Integers are equal when they are the same number, floats when they
    /// compare equal as numbers (so a NaN differs from itself); an integer
    /// never equals a float.
    fn eq(&self, other: &Value) -> (r: bool) {
        match (*self, *other) {
            (Value::Integer(a), Value::Integer(b)) => a == b,
            (Value::Float(a), Value::Float(b)) => float::equal(a, b),
            _ => false,
        }
    }
}

impl PartialEqSpecImpl for Value {
    open spec fn obeys_eq_spec() -> bool {
        true
    }

    open spec fn eq_spec(&self, other: &Value) -> bool {
        match (*self, *other) {
            (Value::Integer(a), Value::Integer(b)) => a == b,
            (Value::Float(a), Value::Float(b)) => float::same_number(a, b),
            _ => false,
        }
    }
}

/// The base in which integers are shown. It has no part in any computation.
#[derive(Debug, Clone, Copy, PartialEq, Eq, Structural)]
pub enum Radix {
    Dec,
    Hex,
    Bin,
}

/// An operation that can be run on a calculator.
#[derive(Debug, Clone, Copy, PartialEq)]
pub enum Operation {
    Push(Value),
    Add,
    Subtract,
    Multiply,
    Divide,
    BitAnd,
    BitOr,
    BitXor,
    BitNot,
    LeftShift,
    RightShift,
    Swap,
    SetRadix(Radix),
}

} // verus!
