//! Laws of the engine, stated over the functions that its contracts use.

use crate::calc::{
    applied, popped, ran, Arithmetic, Bitwise, CalculatorError, Computed, FloatTask, Pause,
};
use crate::parser::{decimal_value, digit_value, is_digit, is_integer_literal, read_token, TokenView};
use crate::text::{digit_char, digits, integer_text};
use crate::traits::Number;
use crate::types::{Operation, Radix, Value};
use vstd::arithmetic::div_mod::{
    lemma_fundamental_div_mod, lemma_fundamental_div_mod_converse, lemma_mod_bound,
};
use vstd::arithmetic::power2::{lemma2_to64, lemma_pow2_adds, lemma_pow2_pos, pow2};
use vstd::prelude::*;

verus! {

/// On two integers an arithmetic operation computes over the integers and
/// checks the range: where the exact result fits in an `i64` (and, for a
/// division, the divisor is not zero) the two operands give way to it;
/// otherwise the operation fails with `InvalidOperation`, the two operands
/// are gone and nothing has come in their place.
pub proof fn lemma_integer_arithmetic(stack: Seq<Value>, op: Operation, a: i64, b: i64)
    requires
        op.arithmetic() is Some,
        stack.len() >= 2,
        stack[stack.len() - 2] == Value::Integer(a),
        stack[stack.len() - 1] == Value::Integer(b),
    ensures
        ({
            let f = op.arithmetic()->Some_0;
            let x = f.exact(a as int, b as int);
            let rest = stack.take(stack.len() - 2);
            if (f is Divide && b == 0) || x < i64::MIN || x > i64::MAX {
                applied(stack, op) == (
                    rest,
                    Err::<Option<FloatTask>, CalculatorError>(CalculatorError::InvalidOperation),
                )
            } else {
                applied(stack, op) == (
                    rest.push(Value::Integer(x as i64)),
                    Ok::<Option<FloatTask>, CalculatorError>(None),
                )
            }
        }),
{
}

/// The exact results of the arithmetic operations are the sum, the
/// difference, the product, and the quotient rounded toward zero: what is
/// left over by the quotient has the sign of the dividend and is smaller
/// than the divisor in magnitude.
pub proof fn lemma_exact(a: int, b: int)
    ensures
        Arithmetic::Add.exact(a, b) == a + b,
        Arithmetic::Subtract.exact(a, b) == a - b,
        Arithmetic::Multiply.exact(a, b) == a * b,
        b != 0 ==> {
            let r = a - Arithmetic::Divide.exact(a, b) * b;
            &&& (a >= 0 ==> 0 <= r)
            &&& (a <= 0 ==> r <= 0)
            &&& (b > 0 ==> -b < r < b)
            &&& (b < 0 ==> b < r < -b)
        },
{
    if b != 0 {
        let x = if a < 0 { -a } else { a };
        let y = if b < 0 { -b } else { b };
        lemma_fundamental_div_mod(x, y);
        lemma_mod_bound(x, y);
        let q = x / y;
        assert((-q) * b == -(q * b)) by (nonlinear_arith);
        assert(q * (-b) == -(q * b)) by (nonlinear_arith);
        assert(y * q == q * y) by (nonlinear_arith);
    }
}

/// With a float among the two operands an arithmetic operation computes
/// nothing itself: it removes both operands and hands back the same
/// operation on both as floats, the left operand on the left, whichever of
/// the two was the float.
pub proof fn lemma_float_promotion(stack: Seq<Value>, op: Operation)
    requires
        op.arithmetic() is Some,
        stack.len() >= 2,
        stack[stack.len() - 2] is Float || stack[stack.len() - 1] is Float,
    ensures
        applied(stack, op) == (
            stack.take(stack.len() - 2),
            Ok::<Option<FloatTask>, CalculatorError>(
                Some(
                    FloatTask {
                        op: op.arithmetic()->Some_0,
                        a: stack[stack.len() - 2].as_float(),
                        b: stack[stack.len() - 1].as_float(),
                    },
                ),
            ),
        ),
{
}

/// Whether an arithmetic operation promotes does not depend on the order of
/// its operands: it hands back a task for `a` and `b` exactly when it does
/// for `b` and `a`, and the two tasks hold the same two floats, exchanged.
pub proof fn lemma_promotion_is_symmetric(f: Arithmetic, a: Value, b: Value)
    ensures
        (f.computed(a, b) matches Ok(Computed::Deferred(_))) == (f.computed(b, a) matches Ok(
            Computed::Deferred(_),
        )),
        f.computed(a, b) matches Ok(Computed::Deferred(forth)) ==> f.computed(b, a) == Ok::<
            Computed,
            CalculatorError,
        >(Computed::Deferred(FloatTask { op: forth.op, a: forth.b, b: forth.a })),
{
}

/// The three logical operations have a result for any two operands, and a
/// shift has one exactly when its amount, as an integer, lies in 0..=63.
pub proof fn lemma_bitwise_success(f: Bitwise, a: Value, b: Value)
    ensures
        f.computed(a, b) is Ok == (f is And || f is Or || f is Xor || 0 <= b.as_int() <= 63),
        f.computed(a, b) is Err ==> f.computed(a, b) == Err::<Value, CalculatorError>(
            CalculatorError::InvalidOperation,
        ),
{
}

/// `Swap` is its own inverse: applied twice to a stack of at least two
/// entries it succeeds twice and leaves the stack as it was.
pub proof fn lemma_swap_twice(stack: Seq<Value>)
    requires
        stack.len() >= 2,
    ensures
        applied(stack, Operation::Swap).1 == Ok::<Option<FloatTask>, CalculatorError>(None),
        applied(applied(stack, Operation::Swap).0, Operation::Swap) == (
            stack,
            Ok::<Option<FloatTask>, CalculatorError>(None),
        ),
{
}

/// The complement of an integer `x` is `-x - 1`, and the complement of the
/// complement is `x` again.
pub proof fn lemma_not_not(x: i64)
    ensures
        !x == -x - 1,
        !(!x) == x,
{
    assert(!x == -x - 1) by (bit_vector);
    assert(!(!x) == x) by (bit_vector);
}

/// A right shift by `b` divides by `2^b` and rounds down, for negative
/// numbers too.
pub proof fn lemma_shift_right(a: i64, b: u32)
    requires
        b < 64,
    ensures
        a >> b == (a as int) / (pow2(b as nat) as int),
    decreases b,
{
    lemma2_to64();
    if b == 0 {
        assert(a >> 0u32 == a) by (bit_vector);
    } else {
        let c = (b - 1) as u32;
        let y = a >> c;
        let z = a >> b;
        assert(z == y >> 1u32) by (bit_vector)
            requires
                0 < b < 64,
                c == b - 1,
                y == a >> c,
                z == a >> b,
        ;
        assert(y == 2 * (y >> 1u32) + (y & 1) && 0 <= (y & 1) <= 1) by (bit_vector);
        lemma_shift_right(a, c);
        let p = pow2(c as nat) as int;
        lemma_pow2_pos(c as nat);
        lemma_pow2_adds(c as nat, 1);
        lemma_fundamental_div_mod(a as int, p);
        lemma_mod_bound(a as int, p);
        let r = (y & 1) * p + (a as int) % p;
        assert(0 <= r < 2 * p && a == z * (2 * p) + r) by (nonlinear_arith)
            requires
                a == p * y + (a as int) % p,
                0 <= (a as int) % p < p,
                y == 2 * z + (y & 1),
                0 <= (y & 1) <= 1,
                r == (y & 1) * p + (a as int) % p,
        ;
        lemma_fundamental_div_mod_converse(a as int, 2 * p, z as int, r);
    }
}

/// The number in the range of `i64` that differs from `x` by a multiple of
/// 2^64: what is left of `x` in 64 bits.
pub open spec fn wrapped(x: int) -> int {
    let m = x % 0x1_0000_0000_0000_0000;
    if m >= 0x8000_0000_0000_0000 {
        m - 0x1_0000_0000_0000_0000
    } else {
        m
    }
}

/// What is left of `x` in 64 bits lies in the range of `i64` and differs
/// from `x` by `k` times 2^64.
proof fn lemma_wrapped(x: int) -> (k: int)
    ensures
        x == 0x1_0000_0000_0000_0000 * k + wrapped(x),
        i64::MIN <= wrapped(x) <= i64::MAX,
{
    let m = 0x1_0000_0000_0000_0000int;
    lemma_fundamental_div_mod(x, m);
    lemma_mod_bound(x, m);
    if x % m >= 0x8000_0000_0000_0000 {
        x / m + 1
    } else {
        x / m
    }
}

/// A left shift by `b` multiplies by `2^b` and keeps the low 64 bits of the
/// product.
pub proof fn lemma_shift_left(a: i64, b: u32)
    requires
        b < 64,
    ensures
        a << b == wrapped(a * pow2(b as nat)),
    decreases b,
{
    lemma2_to64();
    if b == 0 {
        assert(a << 0u32 == a) by (bit_vector);
    } else {
        let c = (b - 1) as u32;
        let y = a << c;
        let z = a << b;
        assert(z == y << 1u32) by (bit_vector)
            requires
                0 < b < 64,
                c == b - 1,
                y == a << c,
                z == a << b,
        ;
        assert(z == 2 * y || z == 2 * y - 0x1_0000_0000_0000_0000 || z == 2 * y
            + 0x1_0000_0000_0000_0000) by (bit_vector)
            requires
                z == y << 1u32,
        ;
        lemma_shift_left(a, c);
        let m = 0x1_0000_0000_0000_0000int;
        let x = a * pow2(c as nat);
        lemma_pow2_adds(c as nat, 1);
        assert(a * pow2(b as nat) == 2 * x) by (nonlinear_arith)
            requires
                pow2(b as nat) == pow2(c as nat) * 2,
                x == a * pow2(c as nat),
        ;
        // y differs from x by a multiple of 2^64, so z differs from 2x by
        // one; so does w, and both lie in the range of i64
        let k = lemma_wrapped(x);
        let d = lemma_wrapped(2 * x);
        let j = if z == 2 * y {
            0int
        } else if z == 2 * y - m {
            -1int
        } else {
            1int
        };
        let w = wrapped(2 * x);
        assert(z == w) by (nonlinear_arith)
            requires
                2 * x == m * d + w,
                2 * x == m * (2 * k - j) + z,
                -0x8000_0000_0000_0000 <= z < 0x8000_0000_0000_0000,
                -0x8000_0000_0000_0000 <= w < 0x8000_0000_0000_0000,
                m == 0x1_0000_0000_0000_0000,
        ;
    }
}

/// `BitNot` applied twice to a stack with an integer on top succeeds twice
/// and leaves the stack as it was.
pub proof fn lemma_bit_not_twice(stack: Seq<Value>)
    requires
        stack.len() >= 1,
        stack.last() is Integer,
    ensures
        applied(stack, Operation::BitNot).1 == Ok::<Option<FloatTask>, CalculatorError>(None),
        applied(applied(stack, Operation::BitNot).0, Operation::BitNot) == (
            stack,
            Ok::<Option<FloatTask>, CalculatorError>(None),
        ),
{
    lemma_not_not(stack.last()->Integer_0);
}

/// A run can be made in two parts: where the run of the first `n` operations
/// comes to their end, the run of all goes on from there; where it fails or
/// stops for a task before, so does the run of all, at the same place and
/// with the same stack, and the operations behind that place have no say.
pub proof fn lemma_run_in_parts(
    stack: Seq<Value>,
    radix: Radix,
    ops: Seq<Operation>,
    start: int,
    n: int,
)
    requires
        0 <= start <= n <= ops.len(),
    ensures
        ({
            let (after, base, result) = ran(stack, radix, ops.take(n), start);
            if result == Ok::<Option<Pause>, CalculatorError>(None) {
                ran(stack, radix, ops, start) == ran(after, base, ops, n)
            } else {
                ran(stack, radix, ops, start) == (after, base, result)
            }
        }),
    decreases n - start,
{
    if start < n {
        let op = ops[start];
        assert(ops.take(n)[start] == op);
        if applied(stack, op).1 == Ok::<Option<FloatTask>, CalculatorError>(None) {
            lemma_run_in_parts(
                applied(stack, op).0,
                crate::calc::radix_after(radix, op),
                ops,
                start + 1,
                n,
            );
        }
    }
}

/// Popping from an empty stack fails with `StackUnderflow` and leaves the
/// stack empty.
pub proof fn lemma_pop_empty()
    ensures
        popped(Seq::<Value>::empty()) == (
            Seq::<Value>::empty(),
            Err::<Value, CalculatorError>(CalculatorError::StackUnderflow),
        ),
{
}

/// A value that is pushed and then popped comes back as it went in, and the
/// stack is as it was before the push.
pub proof fn lemma_push_pop(stack: Seq<Value>, v: Value)
    ensures
        popped(stack.push(v)) == (stack, Ok::<Value, CalculatorError>(v)),
{
}

/// The decimal digits of a number are an integer literal that spells the
/// number.
pub proof fn lemma_digits_spell(n: nat)
    ensures
        is_integer_literal(digits(n, Radix::Dec)),
        decimal_value(digits(n, Radix::Dec)) == n,
    decreases n,
{
    let text = digits(n, Radix::Dec);
    if n < 10 {
        assert(decimal_value(text) == 10 * decimal_value(text.drop_last()) + digit_value(
            text.last(),
        ));
    } else {
        let high = digits(n / 10, Radix::Dec);
        let low = digit_char(n % 10);
        lemma_digits_spell(n / 10);
        assert(text.drop_last() =~= high);
    }
}

/// An integer that is not negative is read back from its decimal text as
/// the operation that pushes it.
pub proof fn lemma_token_round_trip(i: i64)
    requires
        i >= 0,
    ensures
        read_token(integer_text(i, Radix::Dec)) == Ok::<TokenView, Seq<char>>(
            TokenView::Operation(Operation::Push(Value::Integer(i))),
        ),
{
    lemma_digits_spell(i as nat);
}

/// Any `i64` is read back from its decimal text.
pub proof fn lemma_number_round_trip(i: i64)
    ensures
        <i64 as Number>::read(i.text()) == Some(i),
{
    let text = integer_text(i, Radix::Dec);
    if i < 0 {
        let body = digits((-i) as nat, Radix::Dec);
        lemma_digits_spell((-i) as nat);
        assert(text.drop_first() =~= body);
    } else {
        lemma_digits_spell(i as nat);
    }
}

} // verus!
