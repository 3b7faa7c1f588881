//! A calculator over any one number type: the four arithmetic operations on
//! a stack of numbers of that type, with no promotion.

use crate::traits::Number;
use vstd::prelude::*;
use vstd::string::StrSliceExecFns;

verus! {

/// All errors that happen during calculation are represented by this type.
#[derive(Debug, Clone, Copy, PartialEq, Eq, Structural)]
pub enum CalculatorError {
    StackUnderflow,
    InvalidOperation,
}

impl CalculatorError {
    /// The message that names the failure.
    pub open spec fn text(self) -> Seq<char> {
        match self {
            CalculatorError::StackUnderflow => "Stack Underflow"@,
            CalculatorError::InvalidOperation => "Invalid operation (overflow, divide by zero, ...)"@,
        }
    }

    /// The message that names the failure.
    pub fn message(&self) -> (r: String)
        ensures
            r@ == self.text(),
    {
        match self {
            CalculatorError::StackUnderflow => "Stack Underflow".to_owned(),
            CalculatorError::InvalidOperation => "Invalid operation (overflow, divide by zero, ...)".to_owned(),
        }
    }
}

/// All parsing errors are represented by this type.
#[derive(Debug, Clone, Copy, PartialEq, Eq, Structural)]
pub struct ParseError {}

impl ParseError {
    /// The message of the failure.
    pub fn message(&self) -> (r: String)
        ensures
            r@ == "Failed to parse token"@,
    {
        "Failed to parse token".to_owned()
    }
}

pub type CalculatorResult<T> = Result<T, CalculatorError>;

/// A stack of numbers, last in first out.
#[derive(Debug)]
pub struct Calculator<T: Number> {
    stack: Vec<T>,
}

/// An operation on a calculator: a number to push, or arithmetic on the top
/// two entries.
#[derive(Debug, Clone, Copy)]
pub enum Operation<T: Number> {
    Value(T),
    Add,
    Subtract,
    Multiply,
    Divide,
}

impl<T: Number> Operation<T> {
    /// What a token is read as: one of the four operators, or else a number
    /// if it is one.
    pub open spec fn read(s: Seq<char>) -> Option<Operation<T>> {
        if s == seq!['+'] {
            Some(Operation::Add)
        } else if s == seq!['-'] {
            Some(Operation::Subtract)
        } else if s == seq!['*'] {
            Some(Operation::Multiply)
        } else if s == seq!['/'] {
            Some(Operation::Divide)
        } else {
            match T::read(s) {
                Some(v) => Some(Operation::Value(v)),
                None => None,
            }
        }
    }

    /// Reads a token as an operation.
    pub fn from_str(s: &str) -> (r: Result<Self, ParseError>)
        ensures
            match Self::read(s@) {
                Some(op) => r == Ok::<Self, ParseError>(op),
                None => r is Err,
            },
    {
        if s.unicode_len() == 1 {
            let c = s.get_char(0);
            assert(s@ =~= seq![c]);
            if c == '+' {
                return Ok(Operation::Add);
            } else if c == '-' {
                return Ok(Operation::Subtract);
            } else if c == '*' {
                return Ok(Operation::Multiply);
            } else if c == '/' {
                return Ok(Operation::Divide);
            }
        }
        match T::from_text(s) {
            Some(v) => Ok(Operation::Value(v)),
            None => Err(ParseError {  }),
        }
    }

    /// What the operation makes of the operands `a` (left) and `b` (right),
    /// if it takes operands.
    pub open spec fn checked(self, a: T, b: T) -> Option<T>
        recommends
            !(self is Value),
    {
        match self {
            Operation::Add => a.sum(b),
            Operation::Subtract => a.difference(b),
            Operation::Multiply => a.product(b),
            Operation::Divide => a.ratio(b),
            Operation::Value(_) => None,
        }
    }
}

/// The stack that an operation leaves and what it returns. A number is
/// pushed. Arithmetic removes two entries, the right operand from the top,
/// and pushes its result; it fails with `StackUnderflow` where an operand is
/// missing and with `InvalidOperation` where there is no result, and the
/// entries removed before a failure stay removed.
pub open spec fn operated<T: Number>(stack: Seq<T>, op: Operation<T>) -> (
    Seq<T>,
    Result<(), CalculatorError>,
) {
    let n = stack.len() as int;
    match op {
        Operation::Value(v) => (stack.push(v), Ok(())),
        _ => if n < 2 {
            (Seq::empty(), Err(CalculatorError::StackUnderflow))
        } else {
            let rest = stack.take(n - 2);
            match op.checked(stack[n - 2], stack[n - 1]) {
                Some(x) => (rest.push(x), Ok(())),
                None => (rest, Err(CalculatorError::InvalidOperation)),
            }
        },
    }
}

impl<T: Number> View for Calculator<T> {
    type V = Seq<T>;

    /// The stack, bottom first.
    closed spec fn view(&self) -> Seq<T> {
        self.stack@
    }
}

impl<T: Number> Clone for Calculator<T> {
    fn clone(&self) -> (r: Self)
        ensures
            r@ == self@,
    {
        Calculator { stack: self.stack() }
    }
}

impl<T: Number> Default for Calculator<T> {
    fn default() -> (r: Self)
        ensures
            r@ == Seq::<T>::empty(),
    {
        Calculator { stack: Vec::new() }
    }
}

impl<T: Number> Calculator<T> {
    fn pop(&mut self) -> (r: CalculatorResult<T>)
        ensures
            old(self)@.len() == 0 ==> r == Err::<T, CalculatorError>(
                CalculatorError::StackUnderflow,
            ) && final(self)@ == old(self)@,
            old(self)@.len() > 0 ==> r == Ok::<T, CalculatorError>(old(self)@.last())
                && final(self)@ == old(self)@.drop_last(),
    {
        match self.stack.pop() {
            Some(v) => Ok(v),
            None => Err(CalculatorError::StackUnderflow),
        }
    }

    fn push(&mut self, v: T)
        ensures
            final(self)@ == old(self)@.push(v),
    {
        self.stack.push(v);
    }

    /// Runs arithmetic on the top two entries.
    fn do_2param_op(&mut self, op: Operation<T>) -> (r: CalculatorResult<()>)
        requires
            !(op is Value),
        ensures
            (final(self)@, r) == operated(old(self)@, op),
    {
        let v1 = self.pop()?;
        let v2 = self.pop()?;
        let result = match op {
            Operation::Add => v2.checked_add(v1),
            Operation::Subtract => v2.checked_sub(v1),
            Operation::Multiply => v2.checked_mul(v1),
            _ => v2.checked_div(v1),
        };
        match result {
            Some(new_v) => {
                self.push(new_v);
                Ok(())
            },
            None => Err(CalculatorError::InvalidOperation),
        }
    }

    /// Applies a single operation to the calculator.
    pub fn do_operation(&mut self, op: Operation<T>) -> (r: CalculatorResult<()>)
        ensures
            (final(self)@, r) == operated(old(self)@, op),
    {
        match op {
            Operation::Value(v) => {
                self.push(v);
                Ok(())
            },
            _ => self.do_2param_op(op),
        }
    }

    /// A copy of the stack, bottom first.
    pub fn stack(&self) -> (r: Vec<T>)
        ensures
            r@ == self@,
    {
        let mut r: Vec<T> = Vec::new();
        let n = self.stack.len();
        for i in 0..n
            invariant
                n == self@.len(),
                r@ == self@.take(i as int),
        {
            r.push(self.stack[i]);
        }
        r
    }
}

} // verus!
