//! Input parsing: a line of text becomes a sequence of tokens.
//!
//! A line is cut into words at white space. A word is one of the nine
//! operators, an integer literal (one or more digits), or a float literal
//! (digits, a point, digits); any other word is an error that carries the
//! word. A float literal is recognised here and handed on as text: turning
//! it into a number is floating-point work.

use crate::types::{Operation, Value};
use vstd::prelude::*;
use vstd::std_specs::iter::IteratorSpec;
use vstd::string::{StrSliceExecFns, StringExecFns};

verus! {

/// All parsing errors are represented by this type.
#[derive(Debug, Clone, PartialEq, Eq)]
pub struct ParseError {
    /// The token that could not be parsed.
    pub offending_token: String,
}

impl View for ParseError {
    type V = Seq<char>;

    /// The token that could not be parsed.
    open spec fn view(&self) -> Seq<char> {
        self.offending_token@
    }
}

impl ParseError {
    /// The message of the failure, which ends in the token.
    pub fn message(&self) -> (r: String)
        ensures
            r@ == "Failed to parse token: "@ + self@,
    {
        "Failed to parse token: ".to_owned().concat(self.offending_token.as_str())
    }
}

/// What a word of input was read as.
#[derive(Debug, Clone, PartialEq)]
pub enum Token {
    /// An operator or an integer literal: an operation ready to be applied.
    Operation(Operation),
    /// A float literal, as it was written. Once converted it is pushed.
    Float(String),
}

/// A [`Token`] as contracts see it.
pub enum TokenView {
    Operation(Operation),
    Float(Seq<char>),
}

impl View for Token {
    type V = TokenView;

    open spec fn view(&self) -> TokenView {
        match self {
            Token::Operation(op) => TokenView::Operation(*op),
            Token::Float(text) => TokenView::Float(text@),
        }
    }
}

/// Whether `c` separates words: the code points with the Unicode property
/// White_Space.
pub open spec fn is_whitespace(c: char) -> bool {
    let u = c as u32;
    ||| 0x09 <= u <= 0x0d
    ||| u == 0x20
    ||| u == 0x85
    ||| u == 0xa0
    ||| u == 0x1680
    ||| 0x2000 <= u <= 0x200a
    ||| u == 0x2028
    ||| u == 0x2029
    ||| u == 0x202f
    ||| u == 0x205f
    ||| u == 0x3000
}

/// Whether `c` is one of the ten digits `0` to `9`.
pub open spec fn is_digit(c: char) -> bool {
    '0' <= c <= '9'
}

/// The number that a digit stands for.
pub open spec fn digit_value(c: char) -> nat
    recommends
        is_digit(c),
{
    (c as u32 - '0' as u32) as nat
}

/// An integer literal: one or more digits and nothing else.
pub open spec fn is_integer_literal(s: Seq<char>) -> bool {
    s.len() > 0 && forall|i: int| 0 <= i < s.len() ==> is_digit(#[trigger] s[i])
}

/// A float literal: one or more digits, a point, one or more digits.
pub open spec fn is_float_literal(s: Seq<char>) -> bool {
    exists|k: int|
        0 <= k < s.len() && s[k] == '.' && is_integer_literal(#[trigger] s.take(k))
            && is_integer_literal(s.skip(k + 1))
}

/// The number that a string of digits spells in base ten; the empty string
/// spells zero.
pub open spec fn decimal_value(s: Seq<char>) -> nat
    decreases s.len(),
{
    if s.len() == 0 {
        0
    } else {
        10 * decimal_value(s.drop_last()) + digit_value(s.last())
    }
}

/// The operation that a word names, if it is an operator.
pub open spec fn operator_of(s: Seq<char>) -> Option<Operation> {
    if s == seq!['+'] {
        Some(Operation::Add)
    } else if s == seq!['-'] {
        Some(Operation::Subtract)
    } else if s == seq!['*'] {
        Some(Operation::Multiply)
    } else if s == seq!['/'] {
        Some(Operation::Divide)
    } else if s == seq!['&'] {
        Some(Operation::BitAnd)
    } else if s == seq!['|'] {
        Some(Operation::BitOr)
    } else if s == seq!['^'] {
        Some(Operation::BitXor)
    } else if s == seq!['<', '<'] {
        Some(Operation::LeftShift)
    } else if s == seq!['>', '>'] {
        Some(Operation::RightShift)
    } else {
        None
    }
}

/// What a word that is no operator is read as: an integer literal pushes its
/// value if that fits in an `i64` and is an error if not; a float literal is
/// handed on as text; anything else is an error. The error is the word.
pub open spec fn read_value(s: Seq<char>) -> Result<TokenView, Seq<char>> {
    if is_integer_literal(s) {
        if decimal_value(s) <= i64::MAX {
            Ok(TokenView::Operation(Operation::Push(Value::Integer(decimal_value(s) as i64))))
        } else {
            Err(s)
        }
    } else if is_float_literal(s) {
        Ok(TokenView::Float(s))
    } else {
        Err(s)
    }
}

/// What a word is read as: an operator as its operation, anything else as a
/// value.
pub open spec fn read_token(s: Seq<char>) -> Result<TokenView, Seq<char>> {
    match operator_of(s) {
        Some(op) => Ok(TokenView::Operation(op)),
        None => read_value(s),
    }
}

/// The words of `s` when `current` is the part of a word already read: a
/// white-space character ends the current word, any other character extends
/// it, and the end of the line ends it too. Empty words are not words.
pub open spec fn words_after(s: Seq<char>, current: Seq<char>) -> Seq<Seq<char>>
    decreases s.len(),
{
    let ended = if current.len() > 0 {
        seq![current]
    } else {
        Seq::empty()
    };
    if s.len() == 0 {
        ended
    } else if is_whitespace(s[0]) {
        ended + words_after(s.drop_first(), Seq::empty())
    } else {
        words_after(s.drop_first(), current.push(s[0]))
    }
}

/// The words of a line: its longest runs of characters that are not white
/// space, from left to right.
pub open spec fn words(s: Seq<char>) -> Seq<Seq<char>> {
    words_after(s, Seq::empty())
}

/// A word: one or more characters, none of them white space.
pub open spec fn is_word(w: Seq<char>) -> bool {
    w.len() > 0 && forall|i: int| 0 <= i < w.len() ==> !is_whitespace(#[trigger] w[i])
}

/// What `words_after` returns are words, where `current` holds no white
/// space.
proof fn lemma_words_after(s: Seq<char>, current: Seq<char>)
    requires
        forall|i: int| 0 <= i < current.len() ==> !is_whitespace(#[trigger] current[i]),
    ensures
        forall|k: int|
            0 <= k < words_after(s, current).len() ==> is_word(#[trigger] words_after(s, current)[k]),
    decreases s.len(),
{
    let ended = if current.len() > 0 {
        seq![current]
    } else {
        Seq::empty()
    };
    if s.len() > 0 {
        if is_whitespace(s[0]) {
            let rest = words_after(s.drop_first(), Seq::empty());
            lemma_words_after(s.drop_first(), Seq::empty());
            assert forall|k: int| 0 <= k < (ended + rest).len() implies is_word(
                #[trigger] (ended + rest)[k],
            ) by {}
        } else {
            let longer = current.push(s[0]);
            assert forall|i: int| 0 <= i < longer.len() implies !is_whitespace(
                #[trigger] longer[i],
            ) by {}
            lemma_words_after(s.drop_first(), longer);
            assert(words_after(s, current) == words_after(s.drop_first(), longer));
        }
    }
}

/// Every word of a line has at least one character and no white space in
/// it.
pub proof fn lemma_words(s: Seq<char>)
    ensures
        forall|k: int| 0 <= k < words(s).len() ==> is_word(#[trigger] words(s)[k]),
{
    lemma_words_after(s, Seq::empty());
}

/// Whether `r` is what a line with these words is read as: all tokens in
/// order if every word can be read, else the error of the first word that
/// cannot.
pub open spec fn reads_as(words: Seq<Seq<char>>, r: Result<Vec<Token>, ParseError>) -> bool {
    match r {
        Ok(tokens) => {
            &&& tokens@.len() == words.len()
            &&& forall|k: int|
                0 <= k < words.len() ==> read_token(words[k]) == Ok::<TokenView, Seq<char>>(
                    #[trigger] tokens@[k]@,
                )
        },
        Err(e) => exists|k: int|
            {
                &&& 0 <= k < words.len()
                &&& #[trigger] read_token(words[k]) == Err::<TokenView, Seq<char>>(e@)
                &&& forall|j: int| 0 <= j < k ==> (#[trigger] read_token(words[j])) is Ok
            },
    }
}

/// Whether `c` separates words.
pub fn whitespace(c: char) -> (r: bool)
    ensures
        r == is_whitespace(c),
{
    let u = c as u32;
    (0x09 <= u && u <= 0x0d) || u == 0x20 || u == 0x85 || u == 0xa0 || u == 0x1680 || (0x2000 <= u
        && u <= 0x200a) || u == 0x2028 || u == 0x2029 || u == 0x202f || u == 0x205f || u == 0x3000
}

/// Reads a word as a string of digits: `None` if it is not an integer
/// literal, else its value, or `None` inside if that is beyond `i64`.
fn integer_literal(token: &str) -> (r: Option<Option<i64>>)
    ensures
        r is Some == is_integer_literal(token@),
        r matches Some(v) ==> v == (if decimal_value(token@) <= i64::MAX {
            Some(decimal_value(token@) as i64)
        } else {
            None
        }),
{
    let mut digits = true;
    let mut empty = true;
    let mut value: Option<i64> = Some(0);
    for c in it: token.chars()
        invariant
            it.seq() == token@,
            empty == (it.index() == 0),
            digits == (forall|i: int| 0 <= i < it.index() ==> is_digit(#[trigger] token@[i])),
            digits ==> value == (if decimal_value(token@.take(it.index())) <= i64::MAX {
                Some(decimal_value(token@.take(it.index())) as i64)
            } else {
                None
            }),
    {
        proof {
            let i = it.index();
            assert(token@.take(i + 1).drop_last() =~= token@.take(i));
        }
        if '0' <= c && c <= '9' {
            if digits {
                let d = (c as u32 - '0' as u32) as i64;
                value = match value {
                    Some(v) => match v.checked_mul(10) {
                        Some(w) => w.checked_add(d),
                        None => None,
                    },
                    None => None,
                };
            }
        } else {
            digits = false;
        }
        empty = false;
    }
    proof {
        assert(token@.take(token@.len() as int) =~= token@);
    }
    if digits && !empty {
        Some(value)
    } else {
        None
    }
}

/// Whether a word is a float literal.
fn float_literal(token: &str) -> (r: bool)
    ensures
        r == is_float_literal(token@),
{
    // What has been met so far: something before the first point, that
    // point, something after it, and anything that is neither a digit nor
    // that point.
    let mut before = false;
    let mut point = false;
    let mut after = false;
    let mut stray = false;
    let ghost mut at: int = 0;
    let ghost mut witness: int = 0;
    for c in it: token.chars()
        invariant
            it.seq() == token@,
            !point ==> forall|j: int| 0 <= j < it.index() ==> token@[j] != '.',
            point ==> 0 <= at < it.index() && token@[at] == '.' && forall|j: int|
                0 <= j < at ==> token@[j] != '.',
            !stray ==> forall|j: int|
                0 <= j < it.index() ==> is_digit(#[trigger] token@[j]) || (point && j == at),
            stray ==> 0 <= witness < it.index() && !is_digit(token@[witness]) && (token@[witness]
                != '.' || (point && at < witness)),
            before == (if point {
                at > 0
            } else {
                it.index() > 0
            }),
            after == (point && it.index() > at + 1),
    {
        if c == '.' && !point {
            point = true;
            proof {
                at = it.index();
            }
        } else {
            if !('0' <= c && c <= '9') {
                stray = true;
                proof {
                    witness = it.index();
                }
            }
            if point {
                after = true;
            } else {
                before = true;
            }
        }
    }
    let r = !stray && point && before && after;
    proof {
        let s = token@;
        if r {
            assert(is_integer_literal(s.take(at)));
        }
        if is_float_literal(s) {
            let k = choose|k: int|
                0 <= k < s.len() && s[k] == '.' && is_integer_literal(#[trigger] s.take(k))
                    && is_integer_literal(s.skip(k + 1));
            assert forall|j: int| 0 <= j < s.len() && j != k implies is_digit(s[j]) by {
                if j < k {
                    assert(s.take(k)[j] == s[j]);
                } else {
                    assert(s.skip(k + 1)[j - k - 1] == s[j]);
                }
            }
        }
    }
    r
}

/// Reads a word as one of the nine operators.
fn operator(token: &str) -> (r: Option<Operation>)
    ensures
        r == operator_of(token@),
{
    let n = token.unicode_len();
    if n == 1 {
        let c = token.get_char(0);
        assert(token@ =~= seq![c]);
        if c == '+' {
            Some(Operation::Add)
        } else if c == '-' {
            Some(Operation::Subtract)
        } else if c == '*' {
            Some(Operation::Multiply)
        } else if c == '/' {
            Some(Operation::Divide)
        } else if c == '&' {
            Some(Operation::BitAnd)
        } else if c == '|' {
            Some(Operation::BitOr)
        } else if c == '^' {
            Some(Operation::BitXor)
        } else {
            None
        }
    } else if n == 2 {
        let c = token.get_char(0);
        let d = token.get_char(1);
        assert(token@ =~= seq![c, d]);
        if c == '<' && d == '<' {
            Some(Operation::LeftShift)
        } else if c == '>' && d == '>' {
            Some(Operation::RightShift)
        } else {
            None
        }
    } else {
        None
    }
}

/// Reads a word as a value: an integer literal that fits in an `i64` is
/// pushed, a float literal is handed on as text, anything else is an error.
pub fn parse_value(token: &str) -> (r: Result<Token, ParseError>)
    ensures
        match r {
            Ok(t) => read_value(token@) == Ok::<TokenView, Seq<char>>(t@),
            Err(e) => read_value(token@) == Err::<TokenView, Seq<char>>(e@),
        },
{
    match integer_literal(token) {
        Some(Some(i)) => Ok(Token::Operation(Operation::Push(Value::Integer(i)))),
        Some(None) => Err(ParseError { offending_token: token.to_owned() }),
        None => if float_literal(token) {
            Ok(Token::Float(token.to_owned()))
        } else {
            Err(ParseError { offending_token: token.to_owned() })
        },
    }
}

/// Reads one word: an operator as its operation, anything else as a value.
pub fn parse_token(token: &str) -> (r: Result<Token, ParseError>)
    ensures
        match r {
            Ok(t) => read_token(token@) == Ok::<TokenView, Seq<char>>(t@),
            Err(e) => read_token(token@) == Err::<TokenView, Seq<char>>(e@),
        },
{
    match operator(token) {
        Some(op) => Ok(Token::Operation(op)),
        None => parse_value(token),
    }
}

/// Parses a single line of input into a sequence of tokens, stopping at the
/// first word that cannot be read.
pub fn parse(input: &str) -> (r: Result<Vec<Token>, ParseError>)
    ensures
        reads_as(words(input@), r),
{
    let n = input.unicode_len();
    let mut tokens: Vec<Token> = Vec::new();
    let mut start: usize = 0;
    let mut index: usize = 0;
    let ghost mut done: Seq<Seq<char>> = Seq::empty();
    proof {
        assert(input@.skip(0) =~= input@);
        assert(input@.subrange(0, 0) =~= Seq::<char>::empty());
    }
    for c in it: input.chars()
        invariant
            it.seq() == input@,
            n == input@.len(),
            index == it.index(),
            start <= index <= n,
            words(input@) == done + words_after(
                input@.skip(index as int),
                input@.subrange(start as int, index as int),
            ),
            reads_as(done, Ok(tokens)),
    {
        proof {
            let rest = input@.skip(index as int);
            assert(rest.drop_first() =~= input@.skip(index + 1));
            assert(input@.subrange(start as int, index as int).push(c) =~= input@.subrange(
                start as int,
                index + 1,
            ));
            assert(input@.subrange(index + 1, index + 1) =~= Seq::<char>::empty());
        }
        if whitespace(c) {
            if start < index {
                let word = input.substring_char(start, index);
                match parse_token(word) {
                    Ok(t) => {
                        tokens.push(t);
                        proof {
                            done = done.push(word@);
                        }
                    },
                    Err(e) => {
                        proof {
                            lemma_first_error(
                                done,
                                tokens@,
                                word@,
                                words_after(input@.skip(index + 1), Seq::empty()),
                            );
                        }
                        return Err(e);
                    },
                }
            }
            start = index + 1;
        }
        index = index + 1;
    }
    if start < index {
        let word = input.substring_char(start, index);
        match parse_token(word) {
            Ok(t) => {
                tokens.push(t);
                proof {
                    done = done.push(word@);
                }
            },
            Err(e) => {
                proof {
                    lemma_first_error(done, tokens@, word@, Seq::empty());
                }
                return Err(e);
            },
        }
    }
    Ok(tokens)
}

/// Where every word of `done` was read and the next word cannot be, that
/// word is the first of the line that cannot.
proof fn lemma_first_error(
    done: Seq<Seq<char>>,
    tokens: Seq<Token>,
    word: Seq<char>,
    rest: Seq<Seq<char>>,
)
    requires
        tokens.len() == done.len(),
        forall|k: int|
            0 <= k < done.len() ==> read_token(done[k]) == Ok::<TokenView, Seq<char>>(
                #[trigger] tokens[k]@,
            ),
        read_token(word) is Err,
    ensures
        ({
            let all = done + (seq![word] + rest);
            exists|k: int|
                {
                    &&& 0 <= k < all.len()
                    &&& #[trigger] read_token(all[k]) == read_token(word)
                    &&& forall|j: int| 0 <= j < k ==> (#[trigger] read_token(all[j])) is Ok
                }
        }),
{
    let all = done + (seq![word] + rest);
    let k = done.len() as int;
    assert forall|j: int| 0 <= j < k implies (#[trigger] read_token(all[j])) is Ok by {
        assert(read_token(done[j]) == Ok::<TokenView, Seq<char>>(tokens[j]@));
    }
    assert(read_token(all[k]) == read_token(word));
}

} // verus!
