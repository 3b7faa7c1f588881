//! The text forms of integers: decimal, hexadecimal and binary.

use crate::types::{Radix, Value};
use vstd::prelude::*;
use vstd::string::StringExecFns;

verus! {

/// The character for a digit below sixteen: `0` to `9`, then `a` to `f`.
pub open spec fn digit_char(d: nat) -> char
    recommends
        d < 16,
{
    if d == 0 {
        '0'
    } else if d == 1 {
        '1'
    } else if d == 2 {
        '2'
    } else if d == 3 {
        '3'
    } else if d == 4 {
        '4'
    } else if d == 5 {
        '5'
    } else if d == 6 {
        '6'
    } else if d == 7 {
        '7'
    } else if d == 8 {
        '8'
    } else if d == 9 {
        '9'
    } else if d == 10 {
        'a'
    } else if d == 11 {
        'b'
    } else if d == 12 {
        'c'
    } else if d == 13 {
        'd'
    } else if d == 14 {
        'e'
    } else {
        'f'
    }
}

/// The digits of `n` in the base of `radix`, the most significant first:
/// one digit for a number below the base, no leading zero otherwise.
pub open spec fn digits(n: nat, radix: Radix) -> Seq<char>
    decreases n,
{
    match radix {
        Radix::Dec => if n < 10 {
            seq![digit_char(n)]
        } else {
            digits(n / 10, radix).push(digit_char(n % 10))
        },
        Radix::Hex => if n < 16 {
            seq![digit_char(n)]
        } else {
            digits(n / 16, radix).push(digit_char(n % 16))
        },
        Radix::Bin => if n < 2 {
            seq![digit_char(n)]
        } else {
            digits(n / 2, radix).push(digit_char(n % 2))
        },
    }
}

/// The 64 bits of `i` read as an unsigned number: `i` itself if it is not
/// negative, `i + 2^64` if it is.
pub open spec fn unsigned(i: i64) -> nat {
    if i < 0 {
        (i + 0x1_0000_0000_0000_0000) as nat
    } else {
        i as nat
    }
}

/// The text of an integer. In decimal: a minus sign if it is negative, then
/// the digits of its magnitude. In hexadecimal and binary: the prefix `0x`
/// or `0b`, then the digits of its 64 bits read as an unsigned number, so
/// that a negative number shows its two's complement.
pub open spec fn integer_text(i: i64, radix: Radix) -> Seq<char> {
    match radix {
        Radix::Dec => if i < 0 {
            seq!['-'] + digits((-i) as nat, radix)
        } else {
            digits(i as nat, radix)
        },
        Radix::Hex => seq!['0', 'x'] + digits(unsigned(i), radix),
        Radix::Bin => seq!['0', 'b'] + digits(unsigned(i), radix),
    }
}

/// One digit as a string.
fn digit_str(d: u64) -> (r: &'static str)
    requires
        d < 16,
    ensures
        r@ == seq![digit_char(d as nat)],
{
    proof {
        reveal_strlit("0");
        reveal_strlit("1");
        reveal_strlit("2");
        reveal_strlit("3");
        reveal_strlit("4");
        reveal_strlit("5");
        reveal_strlit("6");
        reveal_strlit("7");
        reveal_strlit("8");
        reveal_strlit("9");
        reveal_strlit("a");
        reveal_strlit("b");
        reveal_strlit("c");
        reveal_strlit("d");
        reveal_strlit("e");
        reveal_strlit("f");
    }
    if d == 0 {
        "0"
    } else if d == 1 {
        "1"
    } else if d == 2 {
        "2"
    } else if d == 3 {
        "3"
    } else if d == 4 {
        "4"
    } else if d == 5 {
        "5"
    } else if d == 6 {
        "6"
    } else if d == 7 {
        "7"
    } else if d == 8 {
        "8"
    } else if d == 9 {
        "9"
    } else if d == 10 {
        "a"
    } else if d == 11 {
        "b"
    } else if d == 12 {
        "c"
    } else if d == 13 {
        "d"
    } else if d == 14 {
        "e"
    } else {
        "f"
    }
}

/// Appends the digits of `n` to `text`.
fn append_digits(text: &mut String, n: u64, radix: Radix)
    ensures
        final(text)@ == old(text)@ + digits(n as nat, radix),
    decreases n,
{
    let base: u64 = match radix {
        Radix::Dec => 10,
        Radix::Hex => 16,
        Radix::Bin => 2,
    };
    if n >= base {
        append_digits(text, n / base, radix);
    }
    text.append(digit_str(n % base));
}

/// Writes an integer in the base of `radix`.
pub fn format_integer(i: i64, radix: Radix) -> (text: String)
    ensures
        text@ == integer_text(i, radix),
{
    let mut text = String::new();
    match radix {
        Radix::Dec => {
            if i < 0 {
                proof {
                    reveal_strlit("-");
                }
                text.append("-");
                append_digits(&mut text, (-(i + 1)) as u64 + 1, radix);
            } else {
                append_digits(&mut text, i as u64, radix);
            }
        },
        Radix::Hex => {
            proof {
                reveal_strlit("0x");
            }
            text.append("0x");
            append_digits(&mut text, bits_of(i), radix);
        },
        Radix::Bin => {
            proof {
                reveal_strlit("0b");
            }
            text.append("0b");
            append_digits(&mut text, bits_of(i), radix);
        },
    }
    text
}

/// The 64 bits of `i` as an unsigned number.
fn bits_of(i: i64) -> (r: u64)
    ensures
        r == unsigned(i),
{
    if i < 0 {
        u64::MAX - ((-(i + 1)) as u64)
    } else {
        i as u64
    }
}

impl Value {
    /// The text of the value if it is an integer. The text of a float is
    /// floating-point work and is not made here.
    pub fn text(&self, radix: Radix) -> (r: Option<String>)
        ensures
            match *self {
                Value::Integer(i) => r is Some && r->Some_0@ == integer_text(i, radix),
                Value::Float(_) => r is None,
            },
    {
        match self {
            Value::Integer(i) => Some(format_integer(*i, radix)),
            Value::Float(_) => None,
        }
    }
}

} // verus!
