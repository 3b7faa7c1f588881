use rpncalc::parser::{parse, parse_token, parse_value, whitespace, ParseError, Token};
use rpncalc::types::{Operation, Value};
use std::str::FromStr;

/// Turns a token into the operation that a host applies: a float literal is
/// converted and pushed.
fn operation(token: Token) -> Operation {
    match token {
        Token::Operation(op) => op,
        Token::Float(text) => Operation::Push(Value::Float(f64::from_str(&text).unwrap().to_bits())),
    }
}

fn from_str(token: &str) -> Result<Operation, ParseError> {
    parse_token(token).map(operation)
}

fn operations(input: &str) -> Result<Vec<Operation>, ParseError> {
    Ok(parse(input)?.into_iter().map(operation).collect())
}

#[test]
fn test_single() {
    assert_eq!(from_str("+"), Ok(Operation::Add));
    assert_eq!(from_str("<<"), Ok(Operation::LeftShift));
    assert_eq!(from_str("16"), Ok(Operation::Push(Value::Integer(16))));
    assert_eq!(
        from_str("16.0"),
        Ok(Operation::Push(Value::Float(16.0f64.to_bits())))
    );
    assert_eq!(
        from_str("13x213!"),
        Err(ParseError {
            offending_token: "13x213!".to_string()
        })
    );
}

#[test]
fn test_multiple() {
    assert_eq!(operations(""), Ok(vec![]));
    assert_eq!(
        operations("1 2 +"),
        Ok(vec![
            Operation::Push(Value::Integer(1)),
            Operation::Push(Value::Integer(2)),
            Operation::Add
        ])
    );

    assert_eq!(
        operations("1 2 xxzz! 3"),
        Err(ParseError {
            offending_token: "xxzz!".to_string()
        })
    )
}

#[test]
fn every_operator_is_read() {
    let table = [
        ("+", Operation::Add),
        ("-", Operation::Subtract),
        ("*", Operation::Multiply),
        ("/", Operation::Divide),
        ("&", Operation::BitAnd),
        ("|", Operation::BitOr),
        ("^", Operation::BitXor),
        ("<<", Operation::LeftShift),
        (">>", Operation::RightShift),
    ];
    for (text, op) in table {
        assert_eq!(parse_token(text), Ok(Token::Operation(op)));
    }
}

#[test]
fn float_literals_stay_text() {
    assert_eq!(parse_token("16.0"), Ok(Token::Float("16.0".to_string())));
    assert_eq!(parse_token("0.5"), Ok(Token::Float("0.5".to_string())));
    assert_eq!(
        parse_value("000123.456000"),
        Ok(Token::Float("000123.456000".to_string()))
    );
}

#[test]
fn integer_literals() {
    assert_eq!(
        parse_value("0"),
        Ok(Token::Operation(Operation::Push(Value::Integer(0))))
    );
    assert_eq!(
        parse_value("007"),
        Ok(Token::Operation(Operation::Push(Value::Integer(7))))
    );
    assert_eq!(
        parse_value("9223372036854775807"),
        Ok(Token::Operation(Operation::Push(Value::Integer(i64::MAX))))
    );
    assert_eq!(
        parse_value("0000000000000000000000009223372036854775807"),
        Ok(Token::Operation(Operation::Push(Value::Integer(i64::MAX))))
    );
}

#[test]
fn integer_text_is_read_back() {
    for i in [0i64, 7, 10, 255, 1 << 40, i64::MAX] {
        let text = rpncalc::text::format_integer(i, rpncalc::types::Radix::Dec);
        assert_eq!(
            parse_token(&text),
            Ok(Token::Operation(Operation::Push(Value::Integer(i))))
        );
    }
}

#[test]
fn integer_literal_beyond_the_range_is_an_error() {
    for text in [
        "9223372036854775808",
        "18446744073709551616",
        "99999999999999999999999999999999999999999",
    ] {
        assert_eq!(
            parse_token(text),
            Err(ParseError {
                offending_token: text.to_string()
            })
        );
    }
}

#[test]
fn words_that_are_nothing() {
    for text in [
        "1.", ".5", ".", "1.2.3", "1..2", "-5", "+5", "1e5", "0x10", "<", ">", "<<<", "<>", "++",
        "~", "swap", "1,5", "12a", "a12", "1.5f", "٣", "１２", "1.٣",
    ] {
        assert_eq!(
            parse_token(text),
            Err(ParseError {
                offending_token: text.to_string()
            }),
            "{}",
            text
        );
    }
}

#[test]
fn value_grammar_agrees_with_the_patterns() {
    let integer = regex::Regex::new("^[0-9]+$").unwrap();
    let float = regex::Regex::new("^[0-9]+\\.[0-9]+$").unwrap();
    let alphabet = ['0', '7', '9', '.', '-', '+', 'x', ' ', '\n', '/', ':', '٣'];
    let mut texts: Vec<String> = vec![String::new()];
    let mut last: Vec<String> = vec![String::new()];
    for _ in 0..4 {
        let mut next = Vec::new();
        for t in &last {
            for c in alphabet {
                let mut longer = t.clone();
                longer.push(c);
                next.push(longer);
            }
        }
        texts.extend(next.iter().cloned());
        last = next;
    }
    for text in &texts {
        let expected = if integer.is_match(text) {
            match i64::from_str(text) {
                Ok(i) => Ok(Token::Operation(Operation::Push(Value::Integer(i)))),
                Err(_) => Err(ParseError {
                    offending_token: text.clone(),
                }),
            }
        } else if float.is_match(text) {
            Ok(Token::Float(text.clone()))
        } else {
            Err(ParseError {
                offending_token: text.clone(),
            })
        };
        assert_eq!(parse_value(text), expected, "{:?}", text);
    }
}

#[test]
fn white_space_agrees_with_the_standard_library() {
    for u in 0..=0x10ffffu32 {
        if let Some(c) = char::from_u32(u) {
            assert_eq!(whitespace(c), c.is_whitespace(), "{:#x}", u);
        }
    }
}

#[test]
fn lines_are_cut_at_any_white_space() {
    let lines = [
        "",
        " ",
        "1",
        " 1",
        "1 ",
        "  1   2\t+\n",
        "1\u{a0}2\u{3000}<<",
        "\u{2003}7.5\u{85}>>\r\n",
        "12 34.5 & | ^ - * /",
    ];
    for line in lines {
        let expected: Vec<Token> = line
            .split_whitespace()
            .map(|w| parse_token(w).unwrap())
            .collect();
        assert_eq!(parse(line), Ok(expected), "{:?}", line);
    }
    assert_eq!(
        parse("1\u{a0}2\u{3000}<<"),
        Ok(vec![
            Token::Operation(Operation::Push(Value::Integer(1))),
            Token::Operation(Operation::Push(Value::Integer(2))),
            Token::Operation(Operation::LeftShift)
        ])
    );
}

#[test]
fn the_first_bad_word_is_reported() {
    assert_eq!(
        parse("1 bad worse 2"),
        Err(ParseError {
            offending_token: "bad".to_string()
        })
    );
    assert_eq!(
        parse("  9223372036854775808"),
        Err(ParseError {
            offending_token: "9223372036854775808".to_string()
        })
    );
    assert_eq!(
        parse("1 2 +x"),
        Err(ParseError {
            offending_token: "+x".to_string()
        })
    );
}

#[test]
fn parse_error_message() {
    let e = ParseError {
        offending_token: "xxzz!".to_string(),
    };
    assert_eq!(e.message(), "Failed to parse token: xxzz!");
}
