//! The calculator engine: a stack of values and the operations on it.
//!
//! The engine works on integers throughout. Where an operation has to
//! compute in floating point it removes its operands, computes nothing, and
//! hands the arithmetic back as a [`FloatTask`]; the caller performs it and
//! pushes the result.

use crate::text::{format_integer, integer_text};
use crate::types::{Operation, Radix, Value};
use vstd::prelude::*;
use vstd::string::StringExecFns;

verus! {

/// All errors that happen during calculation.
#[derive(Debug, Clone, Copy, PartialEq, Eq, Structural)]
pub enum CalculatorError {
    /// An operation needed more operands than the stack held.
    StackUnderflow,
    /// A computation had no valid result: overflow, division by zero, or a
    /// shift by an amount outside 0..=63.
    InvalidOperation,
}

impl CalculatorError {
    /// The message that names the failure.
    pub open spec fn text(self) -> Seq<char> {
        match self {
            CalculatorError::StackUnderflow => "Stack Underflow"@,
            CalculatorError::InvalidOperation => "Invalid operation (overflow, divide by zero, ...)"@,
        }
    }

    /// The message that names the failure.
    pub fn message(&self) -> (r: String)
        ensures
            r@ == self.text(),
    {
        match self {
            CalculatorError::StackUnderflow => "Stack Underflow".to_owned(),
            CalculatorError::InvalidOperation => "Invalid operation (overflow, divide by zero, ...)".to_owned(),
        }
    }
}

/// The operations that compute in floating point as soon as one operand is a
/// float, and on integers, with a check for overflow, otherwise.
#[derive(Debug, Clone, Copy, PartialEq, Eq, Structural)]
pub enum Arithmetic {
    Add,
    Subtract,
    Multiply,
    Divide,
}

/// The operations that always compute on integers, whatever their operands
/// are.
#[derive(Debug, Clone, Copy, PartialEq, Eq, Structural)]
pub enum Bitwise {
    And,
    Or,
    Xor,
    LeftShift,
    RightShift,
}

/// Floating-point arithmetic that an operation leaves to the caller:
/// `a op b`, both operands as binary64 patterns, `a` on the left. The caller
/// pushes the result as a `Value::Float`.
#[derive(Debug, Clone, Copy, PartialEq, Eq, Structural)]
pub struct FloatTask {
    pub op: Arithmetic,
    pub a: u64,
    pub b: u64,
}

/// What an arithmetic operation makes of two operands: a value, or
/// floating-point arithmetic still to be done.
#[derive(Debug, Clone, Copy, PartialEq)]
pub enum Computed {
    Value(Value),
    Deferred(FloatTask),
}

/// The quotient of `a` by `b != 0`, rounded toward zero.
pub open spec fn quotient(a: int, b: int) -> int {
    let q = (if a < 0 { -a } else { a }) / (if b < 0 { -b } else { b });
    if (a < 0) != (b < 0) {
        -q
    } else {
        q
    }
}

impl Arithmetic {
    /// The result over the unbounded integers. Division rounds toward zero
    /// and is meant for `b != 0`.
    pub open spec fn exact(self, a: int, b: int) -> int {
        match self {
            Arithmetic::Add => a + b,
            Arithmetic::Subtract => a - b,
            Arithmetic::Multiply => a * b,
            Arithmetic::Divide => quotient(a, b),
        }
    }

    /// The result on `i64`, where there is one: the exact result if it fits,
    /// and none for a division by zero.
    pub open spec fn checked(self, a: i64, b: i64) -> Option<i64> {
        let x = self.exact(a as int, b as int);
        if (self is Divide && b == 0) || x < i64::MIN || x > i64::MAX {
            None
        } else {
            Some(x as i64)
        }
    }

    /// What the operation makes of `a` and `b`: with a float among them, the
    /// task to compute on both as floats; with two integers, the checked
    /// result.
    pub open spec fn computed(self, a: Value, b: Value) -> Result<Computed, CalculatorError> {
        if a is Float || b is Float {
            Ok(Computed::Deferred(FloatTask { op: self, a: a.as_float(), b: b.as_float() }))
        } else {
            match self.checked(a.as_int(), b.as_int()) {
                Some(x) => Ok(Computed::Value(Value::Integer(x))),
                None => Err(CalculatorError::InvalidOperation),
            }
        }
    }

    /// Computes on two integers and fails on overflow and on division by
    /// zero.
    pub fn integer(self, a: i64, b: i64) -> (r: Result<Value, CalculatorError>)
        ensures
            r == match self.checked(a, b) {
                Some(x) => Ok::<Value, CalculatorError>(Value::Integer(x)),
                None => Err::<Value, CalculatorError>(CalculatorError::InvalidOperation),
            },
    {
        let result = match self {
            Arithmetic::Add => a.checked_add(b),
            Arithmetic::Subtract => a.checked_sub(b),
            Arithmetic::Multiply => a.checked_mul(b),
            Arithmetic::Divide => a.checked_div(b),
        };
        match result {
            Some(x) => Ok(Value::Integer(x)),
            None => Err(CalculatorError::InvalidOperation),
        }
    }

    /// Applies the promotion rule: if either operand is a float, both are
    /// converted to floats and the arithmetic is handed back as a task;
    /// otherwise the operation is computed on the two integers.
    pub fn compute(self, a: Value, b: Value) -> (r: Result<Computed, CalculatorError>)
        ensures
            r == self.computed(a, b),
    {
        if a.is_float() || b.is_float() {
            Ok(Computed::Deferred(FloatTask { op: self, a: a.to_float(), b: b.to_float() }))
        } else {
            match self.integer(i64::from(a), i64::from(b)) {
                Ok(v) => Ok(Computed::Value(v)),
                Err(e) => Err(e),
            }
        }
    }
}

impl Bitwise {
    /// The result on `i64`, where there is one. The three logical operations
    /// always have one; a shift has one for an amount from 0 to 63. A left
    /// shift drops the bits that leave the 64; a right shift keeps the sign.
    pub open spec fn checked(self, a: i64, b: i64) -> Option<i64> {
        match self {
            Bitwise::And => Some(a & b),
            Bitwise::Or => Some(a | b),
            Bitwise::Xor => Some(a ^ b),
            Bitwise::LeftShift => if 0 <= b <= 63 {
                Some(a << (b as u32))
            } else {
                None
            },
            Bitwise::RightShift => if 0 <= b <= 63 {
                Some(a >> (b as u32))
            } else {
                None
            },
        }
    }

    /// What the operation makes of `a` and `b`, both taken as integers.
    pub open spec fn computed(self, a: Value, b: Value) -> Result<Value, CalculatorError> {
        match self.checked(a.as_int(), b.as_int()) {
            Some(x) => Ok(Value::Integer(x)),
            None => Err(CalculatorError::InvalidOperation),
        }
    }

    /// Computes on two integers and fails on a shift amount outside 0..=63.
    pub fn integer(self, a: i64, b: i64) -> (r: Result<Value, CalculatorError>)
        ensures
            r == match self.checked(a, b) {
                Some(x) => Ok::<Value, CalculatorError>(Value::Integer(x)),
                None => Err::<Value, CalculatorError>(CalculatorError::InvalidOperation),
            },
    {
        match self {
            Bitwise::And => Ok(Value::Integer(a & b)),
            Bitwise::Or => Ok(Value::Integer(a | b)),
            Bitwise::Xor => Ok(Value::Integer(a ^ b)),
            Bitwise::LeftShift => if 0 <= b && b <= 63 {
                Ok(Value::Integer(a << (b as u32)))
            } else {
                Err(CalculatorError::InvalidOperation)
            },
            Bitwise::RightShift => if 0 <= b && b <= 63 {
                Ok(Value::Integer(a >> (b as u32)))
            } else {
                Err(CalculatorError::InvalidOperation)
            },
        }
    }

    /// Forces both operands to integers, a float losing its fraction, and
    /// computes on them.
    pub fn compute(self, a: Value, b: Value) -> (r: Result<Value, CalculatorError>)
        ensures
            r == self.computed(a, b),
    {
        self.integer(i64::from(a), i64::from(b))
    }
}

impl Operation {
    /// The arithmetic operation that this is, if it is one.
    pub open spec fn arithmetic(self) -> Option<Arithmetic> {
        match self {
            Operation::Add => Some(Arithmetic::Add),
            Operation::Subtract => Some(Arithmetic::Subtract),
            Operation::Multiply => Some(Arithmetic::Multiply),
            Operation::Divide => Some(Arithmetic::Divide),
            _ => None,
        }
    }

    /// The two-operand bitwise operation that this is, if it is one.
    pub open spec fn bitwise(self) -> Option<Bitwise> {
        match self {
            Operation::BitAnd => Some(Bitwise::And),
            Operation::BitOr => Some(Bitwise::Or),
            Operation::BitXor => Some(Bitwise::Xor),
            Operation::LeftShift => Some(Bitwise::LeftShift),
            Operation::RightShift => Some(Bitwise::RightShift),
            _ => None,
        }
    }
}

/// What a two-operand computing operation makes of its operands, `a` on the
/// left. The four arithmetic operations follow the promotion rule; the five
/// bitwise ones force both operands to integers.
pub open spec fn computed(op: Operation, a: Value, b: Value) -> Result<Computed, CalculatorError>
    recommends
        op.arithmetic() is Some || op.bitwise() is Some,
{
    match (op.arithmetic(), op.bitwise()) {
        (Some(f), _) => f.computed(a, b),
        (_, Some(f)) => match f.computed(a, b) {
            Ok(v) => Ok(Computed::Value(v)),
            Err(e) => Err(e),
        },
        _ => Err(CalculatorError::InvalidOperation),
    }
}

/// The stack that `pop_mut` leaves and what it returns: the top entry, or
/// `StackUnderflow` and the stack as it was.
pub open spec fn popped(stack: Seq<Value>) -> (Seq<Value>, Result<Value, CalculatorError>) {
    if stack.len() > 0 {
        (stack.drop_last(), Ok(stack.last()))
    } else {
        (stack, Err(CalculatorError::StackUnderflow))
    }
}

/// The stack and the result that a two-operand operation leaves which found
/// `rest` below its operands and made `computed` of them: a value is
/// pushed, a task is handed back, an error is returned.
pub open spec fn settled(rest: Seq<Value>, computed: Result<Computed, CalculatorError>) -> (
    Seq<Value>,
    Result<Option<FloatTask>, CalculatorError>,
) {
    match computed {
        Ok(Computed::Value(v)) => (rest.push(v), Ok(None)),
        Ok(Computed::Deferred(task)) => (rest, Ok(Some(task))),
        Err(e) => (rest, Err(e)),
    }
}

/// The stack that an operation leaves and what it returns.
///
/// An operation first removes its operands, the right one from the top, then
/// computes, then pushes its result. A failure stops it where it occurs:
/// operands removed before it stay removed, and nothing is pushed. So an
/// operation that wants two operands and finds one removes that one, and a
/// computation that fails has cost both operands. An arithmetic operation
/// that meets a float pushes nothing either and returns the task.
pub open spec fn applied(stack: Seq<Value>, op: Operation) -> (
    Seq<Value>,
    Result<Option<FloatTask>, CalculatorError>,
) {
    let n = stack.len() as int;
    match op {
        Operation::Push(v) => (stack.push(v), Ok(None)),
        Operation::SetRadix(_) => (stack, Ok(None)),
        Operation::BitNot => if n >= 1 {
            (stack.drop_last().push(Value::Integer(!stack.last().as_int())), Ok(None))
        } else {
            (stack, Err(CalculatorError::StackUnderflow))
        },
        _ => if n < 2 {
            (Seq::empty(), Err(CalculatorError::StackUnderflow))
        } else {
            let a = stack[n - 2];
            let b = stack[n - 1];
            let rest = stack.take(n - 2);
            if op is Swap {
                (rest.push(b).push(a), Ok(None))
            } else {
                settled(rest, computed(op, a, b))
            }
        },
    }
}

/// The display base that an operation leaves: only `SetRadix` changes it.
pub open spec fn radix_after(radix: Radix, op: Operation) -> Radix {
    match op {
        Operation::SetRadix(r) => r,
        _ => radix,
    }
}

/// Where a run of operations stopped to have a float computed: the task, and
/// the place in the sequence at which the run goes on once the result of the
/// task is on the stack.
#[derive(Debug, Clone, Copy, PartialEq, Eq, Structural)]
pub struct Pause {
    pub task: FloatTask,
    pub next: usize,
}

/// What running the operations `ops[start..]` leaves on the stack, the
/// display base that it leaves, and what it returns.
///
/// The operations are applied in order, each to what the one before left.
/// The run ends with the first operation that fails, and returns its error;
/// it stops at the first operation that hands back a task, and returns the
/// task with the place behind that operation; otherwise it ends behind the
/// last operation.
pub open spec fn ran(stack: Seq<Value>, radix: Radix, ops: Seq<Operation>, start: int) -> (
    Seq<Value>,
    Radix,
    Result<Option<Pause>, CalculatorError>,
)
    decreases ops.len() - start,
{
    if start < 0 || start >= ops.len() {
        (stack, radix, Ok(None))
    } else {
        let (after, result) = applied(stack, ops[start]);
        let base = radix_after(radix, ops[start]);
        match result {
            Ok(None) => ran(after, base, ops, start + 1),
            Ok(Some(task)) => (after, base, Ok(Some(Pause { task, next: (start + 1) as usize }))),
            Err(e) => (after, base, Err(e)),
        }
    }
}

/// The floats on a stack, bottom first.
pub open spec fn float_entries(stack: Seq<Value>) -> Seq<u64>
    decreases stack.len(),
{
    if stack.len() == 0 {
        Seq::empty()
    } else {
        let below = float_entries(stack.drop_last());
        match stack.last() {
            Value::Float(bits) => below.push(bits),
            Value::Integer(_) => below,
        }
    }
}

/// The text of entry `i` of a stack: an integer is written in the base of
/// `radix`; a float takes its text from `floats`, which holds one text for
/// each float of the stack, bottom first.
pub open spec fn entry_text(
    stack: Seq<Value>,
    radix: Radix,
    floats: Seq<Seq<char>>,
    i: int,
) -> Seq<char>
    recommends
        0 <= i < stack.len(),
        floats.len() == float_entries(stack).len(),
{
    match stack[i] {
        Value::Integer(n) => integer_text(n, radix),
        Value::Float(_) => floats[float_entries(stack.take(i)).len() as int],
    }
}

/// The texts with one space between each two.
pub open spec fn joined(texts: Seq<Seq<char>>) -> Seq<char>
    decreases texts.len(),
{
    if texts.len() == 0 {
        Seq::empty()
    } else if texts.len() == 1 {
        texts[0]
    } else {
        joined(texts.drop_last()) + seq![' '] + texts.last()
    }
}

/// The text of a stack: its entries bottom first, one space between each
/// two.
pub open spec fn displayed(stack: Seq<Value>, radix: Radix, floats: Seq<Seq<char>>) -> Seq<char>
    recommends
        floats.len() == float_entries(stack).len(),
{
    joined(Seq::new(stack.len(), |i: int| entry_text(stack, radix, floats, i)))
}

/// The strings as contracts see them.
pub open spec fn texts_of(strings: Seq<String>) -> Seq<Seq<char>> {
    Seq::new(strings.len(), |i: int| strings[i]@)
}

/// A stack holds at least as many floats as any part of it from the bottom.
proof fn lemma_float_entries_grow(stack: Seq<Value>, i: int)
    requires
        0 <= i <= stack.len(),
    ensures
        float_entries(stack.take(i)).len() <= float_entries(stack).len(),
    decreases stack.len(),
{
    if i == stack.len() {
        assert(stack.take(i) =~= stack);
    } else {
        assert(stack.drop_last().take(i) =~= stack.take(i));
        lemma_float_entries_grow(stack.drop_last(), i);
    }
}

/// The calculator: a stack of values, last in first out, and the base in
/// which integers are shown.
#[derive(Debug)]
#[must_use]
pub struct Calculator {
    value_stack: Vec<Value>,
    output_radix: Radix,
}

impl View for Calculator {
    type V = Seq<Value>;

    /// The stack, bottom first.
    closed spec fn view(&self) -> Seq<Value> {
        self.value_stack@
    }
}

impl Clone for Calculator {
    fn clone(&self) -> (r: Self)
        ensures
            r@ == self@,
            r.radix() == self.radix(),
    {
        Calculator { value_stack: self.value_stack.clone(), output_radix: self.output_radix }
    }
}

impl Default for Calculator {
    fn default() -> (r: Self)
        ensures
            r@ == Seq::<Value>::empty(),
            r.radix() == Radix::Dec,
    {
        Calculator::new()
    }
}

impl Calculator {
    /// The base in which integers are shown.
    pub closed spec fn radix(&self) -> Radix {
        self.output_radix
    }

    /// An empty calculator that shows integers in decimal.
    pub fn new() -> (r: Self)
        ensures
            r@ == Seq::<Value>::empty(),
            r.radix() == Radix::Dec,
    {
        Calculator { value_stack: Vec::new(), output_radix: Radix::Dec }
    }

    /// Removes the top of the stack and returns it. On an empty stack this
    /// fails with `StackUnderflow` and changes nothing.
    pub fn pop_mut(&mut self) -> (r: Result<Value, CalculatorError>)
        ensures
            (final(self)@, r) == popped(old(self)@),
            final(self).radix() == old(self).radix(),
    {
        match self.value_stack.pop() {
            Some(v) => Ok(v),
            None => Err(CalculatorError::StackUnderflow),
        }
    }

    /// Puts `v` on top of the stack.
    pub fn push_mut(&mut self, v: Value)
        ensures
            final(self)@ == old(self)@.push(v),
            final(self).radix() == old(self).radix(),
    {
        self.value_stack.push(v)
    }

    /// A copy of this calculator with `v` on top of the stack.
    pub fn push(&self, v: Value) -> (r: Calculator)
        ensures
            r@ == self@.push(v),
            r.radix() == self.radix(),
    {
        let mut new_calc = self.clone();
        new_calc.push_mut(v);
        new_calc
    }

    /// Selects the base in which integers are shown. The stack is untouched.
    pub fn set_radix(&mut self, radix: Radix)
        ensures
            final(self)@ == old(self)@,
            final(self).radix() == radix,
    {
        self.output_radix = radix;
    }

    /// The stack, bottom first.
    pub fn stack(&self) -> (r: &[Value])
        ensures
            r@ == self@,
    {
        self.value_stack.as_slice()
    }

    /// The floats on the stack, bottom first: what [`Calculator::display`]
    /// wants a text for.
    pub fn floats(&self) -> (r: Vec<u64>)
        ensures
            r@ == float_entries(self@),
    {
        let mut r: Vec<u64> = Vec::new();
        let n = self.value_stack.len();
        for i in 0..n
            invariant
                n == self@.len(),
                r@ == float_entries(self@.take(i as int)),
        {
            proof {
                assert(self@.take(i + 1).drop_last() =~= self@.take(i as int));
            }
            match self.value_stack[i] {
                Value::Float(bits) => r.push(bits),
                Value::Integer(_) => {},
            }
        }
        proof {
            assert(self@.take(n as int) =~= self@);
        }
        r
    }

    /// Writes the stack, bottom first, with one space between each two
    /// entries. Integers are written in the selected base; the texts of the
    /// floats come from the caller, one for each float of the stack, bottom
    /// first. With another number of texts than floats there is no result.
    pub fn display(&self, floats: &Vec<String>) -> (r: Option<String>)
        ensures
            r is Some == (floats@.len() == float_entries(self@).len()),
            r matches Some(text) ==> text@ == displayed(self@, self.radix(), texts_of(floats@)),
    {
        let mut text = String::new();
        let mut used: usize = 0;
        let n = self.value_stack.len();
        let ghost texts = Seq::new(
            self@.len(),
            |i: int| entry_text(self@, self.radix(), texts_of(floats@), i),
        );
        for i in 0..n
            invariant
                n == self@.len(),
                used == float_entries(self@.take(i as int)).len(),
                used <= floats@.len(),
                texts == Seq::new(
                    self@.len(),
                    |i: int| entry_text(self@, self.radix(), texts_of(floats@), i),
                ),
                text@ == joined(texts.take(i as int)),
        {
            proof {
                assert(self@.take(i + 1).drop_last() =~= self@.take(i as int));
                assert(texts.take(i + 1).drop_last() =~= texts.take(i as int));
                lemma_float_entries_grow(self@, i + 1);
            }
            if i > 0 {
                proof {
                    reveal_strlit(" ");
                }
                text.append(" ");
            }
            match self.value_stack[i] {
                Value::Integer(integer) => {
                    let entry = format_integer(integer, self.output_radix);
                    text.append(entry.as_str());
                },
                Value::Float(_) => {
                    if used >= floats.len() {
                        return None;
                    }
                    text.append(floats[used].as_str());
                    used = used + 1;
                },
            }
        }
        proof {
            assert(self@.take(n as int) =~= self@);
            assert(texts.take(n as int) =~= texts);
        }
        if used == floats.len() {
            Some(text)
        } else {
            None
        }
    }

    /// Removes the two operands of an operation, the right one first.
    fn pop_two(&mut self) -> (r: Result<(Value, Value), CalculatorError>)
        ensures
            final(self).radix() == old(self).radix(),
            old(self)@.len() < 2 ==> r is Err && r->Err_0 == CalculatorError::StackUnderflow
                && final(self)@ == Seq::<Value>::empty(),
            old(self)@.len() >= 2 ==> r == Ok::<(Value, Value), CalculatorError>(
                (old(self)@[old(self)@.len() - 2], old(self)@[old(self)@.len() - 1]),
            ) && final(self)@ == old(self)@.take(old(self)@.len() - 2),
    {
        let b = self.pop_mut()?;
        let a = self.pop_mut()?;
        Ok((a, b))
    }

    /// Runs an arithmetic operation on the top two entries.
    fn arithmetic(&mut self, op: Arithmetic) -> (r: Result<Option<FloatTask>, CalculatorError>)
        ensures
            final(self).radix() == old(self).radix(),
            old(self)@.len() < 2 ==> r is Err && r->Err_0 == CalculatorError::StackUnderflow
                && final(self)@ == Seq::<Value>::empty(),
            old(self)@.len() >= 2 ==> (final(self)@, r) == settled(
                old(self)@.take(old(self)@.len() - 2),
                op.computed(old(self)@[old(self)@.len() - 2], old(self)@[old(self)@.len() - 1]),
            ),
    {
        let (a, b) = self.pop_two()?;
        match op.compute(a, b)? {
            Computed::Value(v) => {
                self.push_mut(v);
                Ok(None)
            },
            Computed::Deferred(task) => Ok(Some(task)),
        }
    }

    /// Runs a bitwise operation on the top two entries.
    fn bitwise(&mut self, op: Bitwise) -> (r: Result<Option<FloatTask>, CalculatorError>)
        ensures
            final(self).radix() == old(self).radix(),
            old(self)@.len() < 2 ==> r is Err && r->Err_0 == CalculatorError::StackUnderflow
                && final(self)@ == Seq::<Value>::empty(),
            old(self)@.len() >= 2 ==> (final(self)@, r) == settled(
                old(self)@.take(old(self)@.len() - 2),
                match op.computed(
                    old(self)@[old(self)@.len() - 2],
                    old(self)@[old(self)@.len() - 1],
                ) {
                    Ok(v) => Ok(Computed::Value(v)),
                    Err(e) => Err(e),
                },
            ),
    {
        let (a, b) = self.pop_two()?;
        let v = op.compute(a, b)?;
        self.push_mut(v);
        Ok(None)
    }

    /// Applies a single operation to the calculator, in place.
    ///
    /// `Ok(None)` says that the operation is complete. `Ok(Some(task))` says
    /// that its operands are removed and that its result is the outcome of
    /// `task`, which the caller computes and pushes as a `Value::Float`. On
    /// `Err` the operands that were removed before the failure are gone.
    pub fn apply_mut(&mut self, op: Operation) -> (r: Result<Option<FloatTask>, CalculatorError>)
        ensures
            (final(self)@, r) == applied(old(self)@, op),
            final(self).radix() == radix_after(old(self).radix(), op),
    {
        match op {
            Operation::Push(v) => {
                self.push_mut(v);
                Ok(None)
            },
            Operation::SetRadix(radix) => {
                self.set_radix(radix);
                Ok(None)
            },
            Operation::BitNot => {
                let a = self.pop_mut()?;
                self.push_mut(Value::Integer(!i64::from(a)));
                Ok(None)
            },
            Operation::Swap => {
                let (a, b) = self.pop_two()?;
                self.push_mut(b);
                self.push_mut(a);
                Ok(None)
            },
            Operation::Add => self.arithmetic(Arithmetic::Add),
            Operation::Subtract => self.arithmetic(Arithmetic::Subtract),
            Operation::Multiply => self.arithmetic(Arithmetic::Multiply),
            Operation::Divide => self.arithmetic(Arithmetic::Divide),
            Operation::BitAnd => self.bitwise(Bitwise::And),
            Operation::BitOr => self.bitwise(Bitwise::Or),
            Operation::BitXor => self.bitwise(Bitwise::Xor),
            Operation::LeftShift => self.bitwise(Bitwise::LeftShift),
            Operation::RightShift => self.bitwise(Bitwise::RightShift),
        }
    }

    /// Applies the operations `ops[start..]` in order, in place, up to the
    /// first that fails or hands back a task.
    ///
    /// `Ok(None)` says that all are applied. `Ok(Some(pause))` says that the
    /// run stopped for `pause.task`: once the caller has completed the task,
    /// the run goes on from `pause.next`. On `Err` the run has ended, and
    /// what the operations before the failing one did stays done.
    pub fn run_mut(&mut self, ops: &[Operation], start: usize) -> (r: Result<
        Option<Pause>,
        CalculatorError,
    >)
        ensures
            (final(self)@, final(self).radix(), r) == ran(
                old(self)@,
                old(self).radix(),
                ops@,
                start as int,
            ),
    {
        let mut at = start;
        while at < ops.len()
            invariant
                ran(self@, self.radix(), ops@, at as int) == ran(
                    old(self)@,
                    old(self).radix(),
                    ops@,
                    start as int,
                ),
            decreases ops.len() - at,
        {
            match self.apply_mut(ops[at]) {
                Ok(None) => {},
                Ok(Some(task)) => {
                    return Ok(Some(Pause { task, next: at + 1 }));
                },
                Err(e) => {
                    return Err(e);
                },
            }
            at = at + 1;
        }
        Ok(None)
    }

    /// Puts the result of a [`FloatTask`] on the stack, as a float.
    pub fn complete(&mut self, result: u64)
        ensures
            final(self)@ == old(self)@.push(Value::Float(result)),
            final(self).radix() == old(self).radix(),
    {
        self.push_mut(Value::Float(result))
    }

    /// Applies a single operation to a copy of the calculator and returns the
    /// copy, with the task if the operation left one; `self` is untouched. On
    /// failure there is no copy: the caller keeps what it had.
    pub fn apply(&self, op: Operation) -> (r: Result<(Calculator, Option<FloatTask>), CalculatorError>)
        ensures
            match applied(self@, op).1 {
                Ok(task) => r is Ok && r->Ok_0.0@ == applied(self@, op).0 && r->Ok_0.0.radix()
                    == radix_after(self.radix(), op) && r->Ok_0.1 == task,
                Err(e) => r is Err && r->Err_0 == e,
            },
    {
        let mut new_calc = self.clone();
        let task = new_calc.apply_mut(op)?;
        Ok((new_calc, task))
    }
}

} // verus!
