//! The capability that a number type offers to the generic engine.

use crate::calc::Arithmetic;
use crate::parser::{decimal_value, is_digit, is_integer_literal};
use crate::text::{format_integer, integer_text};
use crate::types::Radix;
use vstd::prelude::*;
use vstd::std_specs::iter::IteratorSpec;

verus! {

/// A trait for any kind of numbers we care about: arithmetic that reports
/// instead of wrapping when it has no result, and reading from text.
pub trait Number: Clone + Copy + PartialEq + Eq {
    /// What `checked_add` returns.
    spec fn sum(self, rhs: Self) -> Option<Self>;

    /// What `checked_sub` returns.
    spec fn difference(self, rhs: Self) -> Option<Self>;

    /// What `checked_mul` returns.
    spec fn product(self, rhs: Self) -> Option<Self>;

    /// What `checked_div` returns.
    spec fn ratio(self, rhs: Self) -> Option<Self>;

    /// What `from_text` returns.
    spec fn read(text: Seq<char>) -> Option<Self>;

    /// What `to_text` returns.
    spec fn text(self) -> Seq<char>;

    fn checked_add(self, rhs: Self) -> (r: Option<Self>)
        ensures
            r == self.sum(rhs),
    ;

    fn checked_sub(self, rhs: Self) -> (r: Option<Self>)
        ensures
            r == self.difference(rhs),
    ;

    fn checked_mul(self, rhs: Self) -> (r: Option<Self>)
        ensures
            r == self.product(rhs),
    ;

    fn checked_div(self, rhs: Self) -> (r: Option<Self>)
        ensures
            r == self.ratio(rhs),
    ;

    /// Reads a number from text, if the text is one.
    fn from_text(text: &str) -> (r: Option<Self>)
        ensures
            r == Self::read(text@),
    ;

    /// Writes the number as text.
    fn to_text(self) -> (r: String)
        ensures
            r@ == self.text(),
    ;
}

/// The number that a decimal numeral spells: an optional sign, `+` or `-`,
/// then one or more digits. Anything else spells nothing.
pub open spec fn signed_decimal(s: Seq<char>) -> Option<int> {
    let signed = s.len() > 0 && (s[0] == '+' || s[0] == '-');
    let body = if signed { s.drop_first() } else { s };
    if !is_integer_literal(body) {
        None
    } else if signed && s[0] == '-' {
        Some(-(decimal_value(body) as int))
    } else {
        Some(decimal_value(body) as int)
    }
}

impl Number for i64 {
    open spec fn sum(self, rhs: Self) -> Option<Self> {
        Arithmetic::Add.checked(self, rhs)
    }

    open spec fn difference(self, rhs: Self) -> Option<Self> {
        Arithmetic::Subtract.checked(self, rhs)
    }

    open spec fn product(self, rhs: Self) -> Option<Self> {
        Arithmetic::Multiply.checked(self, rhs)
    }

    open spec fn ratio(self, rhs: Self) -> Option<Self> {
        Arithmetic::Divide.checked(self, rhs)
    }

    /// A decimal numeral whose number fits in an `i64`.
    open spec fn read(text: Seq<char>) -> Option<Self> {
        match signed_decimal(text) {
            Some(v) => if i64::MIN <= v <= i64::MAX {
                Some(v as i64)
            } else {
                None
            },
            None => None,
        }
    }

    /// The number in decimal, with a minus sign if it is negative.
    open spec fn text(self) -> Seq<char> {
        integer_text(self, Radix::Dec)
    }

    fn checked_add(self, rhs: Self) -> (r: Option<Self>) {
        i64::checked_add(self, rhs)
    }

    fn checked_sub(self, rhs: Self) -> (r: Option<Self>) {
        i64::checked_sub(self, rhs)
    }

    fn checked_mul(self, rhs: Self) -> (r: Option<Self>) {
        i64::checked_mul(self, rhs)
    }

    fn checked_div(self, rhs: Self) -> (r: Option<Self>) {
        i64::checked_div(self, rhs)
    }

    fn from_text(text: &str) -> (r: Option<Self>) {
        // The number is gathered as a negative one, whose range is the
        // wider: `below` is minus what the digits so far spell, or nothing
        // once that has left the range.
        let mut first = true;
        let mut negative = false;
        let mut signed = false;
        let mut digits = true;
        let mut any = false;
        let mut below: Option<i64> = Some(0);
        let ghost mut start: int = 0;
        for c in it: text.chars()
            invariant
                it.seq() == text@,
                first == (it.index() == 0),
                signed == (it.index() > 0 && (text@[0] == '+' || text@[0] == '-')),
                negative == (it.index() > 0 && text@[0] == '-'),
                start == (if signed { 1int } else { 0int }),
                any == (it.index() > start),
                digits == (forall|i: int| start <= i < it.index() ==> is_digit(#[trigger] text@[i])),
                digits ==> below == (if -(decimal_value(text@.subrange(start, it.index())) as int)
                    >= i64::MIN {
                    Some((-(decimal_value(text@.subrange(start, it.index())) as int)) as i64)
                } else {
                    None
                }),
        {
            proof {
                let i = it.index();
                if i >= start {
                    assert(text@.subrange(start, i + 1).drop_last() =~= text@.subrange(start, i));
                }
            }
            if first && (c == '+' || c == '-') {
                signed = true;
                negative = c == '-';
                proof {
                    start = 1;
                }
            } else if '0' <= c && c <= '9' {
                any = true;
                if digits {
                    let d = (c as u32 - '0' as u32) as i64;
                    below = match below {
                        Some(v) => match v.checked_mul(10) {
                            Some(w) => w.checked_sub(d),
                            None => None,
                        },
                        None => None,
                    };
                }
            } else {
                any = true;
                digits = false;
            }
            first = false;
        }
        proof {
            let body = if signed { text@.drop_first() } else { text@ };
            assert(text@.subrange(start, text@.len() as int) =~= body);
            if digits && any {
                assert forall|i: int| 0 <= i < body.len() implies is_digit(
                    #[trigger] body[i],
                ) by {}
            } else if any {
                let i = choose|i: int| start <= i < text@.len() && !is_digit(#[trigger] text@[i]);
                assert(!is_digit(body[i - start]));
            }
        }
        if !digits || !any {
            None
        } else if negative {
            below
        } else {
            match below {
                Some(v) => 0i64.checked_sub(v),
                None => None,
            }
        }
    }

    fn to_text(self) -> (r: String) {
        format_integer(self, Radix::Dec)
    }
}

} // verus!
