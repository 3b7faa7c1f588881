use rpncalc::rpcalc::{Calculator, CalculatorError, Operation, ParseError};
use rpncalc::traits::Number;

fn run(ops: &[Operation<i64>]) -> (Calculator<i64>, Result<(), CalculatorError>) {
    let mut calc = Calculator::default();
    for op in ops {
        if let Err(e) = calc.do_operation(*op) {
            return (calc, Err(e));
        }
    }
    (calc, Ok(()))
}

#[test]
fn generic_arithmetic() {
    let (calc, r) = run(&[Operation::Value(6), Operation::Value(2), Operation::Divide]);
    assert_eq!(r, Ok(()));
    assert_eq!(calc.stack(), vec![3]);
    let (calc, r) = run(&[Operation::Value(6), Operation::Value(2), Operation::Subtract]);
    assert_eq!(r, Ok(()));
    assert_eq!(calc.stack(), vec![4]);
    let (calc, r) = run(&[Operation::Value(6), Operation::Value(7), Operation::Multiply]);
    assert_eq!(r, Ok(()));
    assert_eq!(calc.stack(), vec![42]);
    let (calc, r) = run(&[
        Operation::Value(1),
        Operation::Value(6),
        Operation::Value(7),
        Operation::Add,
    ]);
    assert_eq!(r, Ok(()));
    assert_eq!(calc.stack(), vec![1, 13]);
}

#[test]
fn generic_failures() {
    let (calc, r) = run(&[Operation::Value(6), Operation::Value(0), Operation::Divide]);
    assert_eq!(r, Err(CalculatorError::InvalidOperation));
    assert_eq!(calc.stack(), Vec::<i64>::new());
    let (calc, r) = run(&[Operation::Value(1), Operation::Value(i64::MAX), Operation::Value(1), Operation::Add]);
    assert_eq!(r, Err(CalculatorError::InvalidOperation));
    assert_eq!(calc.stack(), vec![1]);
    let (calc, r) = run(&[Operation::Value(6), Operation::Add]);
    assert_eq!(r, Err(CalculatorError::StackUnderflow));
    assert_eq!(calc.stack(), Vec::<i64>::new());
    let (calc, r) = run(&[Operation::Multiply]);
    assert_eq!(r, Err(CalculatorError::StackUnderflow));
    assert_eq!(calc.stack(), Vec::<i64>::new());
}

#[test]
fn generic_tokens() {
    assert!(matches!(Operation::<i64>::from_str("+"), Ok(Operation::Add)));
    assert!(matches!(Operation::<i64>::from_str("-"), Ok(Operation::Subtract)));
    assert!(matches!(Operation::<i64>::from_str("*"), Ok(Operation::Multiply)));
    assert!(matches!(Operation::<i64>::from_str("/"), Ok(Operation::Divide)));
    assert!(matches!(Operation::<i64>::from_str("12"), Ok(Operation::Value(12))));
    assert!(matches!(Operation::<i64>::from_str("-12"), Ok(Operation::Value(-12))));
    assert!(matches!(Operation::<i64>::from_str("1.5"), Err(ParseError {})));
    assert!(matches!(Operation::<i64>::from_str(""), Err(ParseError {})));
    assert!(matches!(Operation::<i64>::from_str("&"), Err(ParseError {})));
}

#[test]
fn number_from_text_agrees_with_the_standard_library() {
    let alphabet = ['0', '1', '9', '+', '-', '.', ' ', 'a'];
    let mut texts: Vec<String> = vec![String::new()];
    let mut last: Vec<String> = vec![String::new()];
    for _ in 0..4 {
        let mut next = Vec::new();
        for t in &last {
            for c in alphabet {
                let mut longer = t.clone();
                longer.push(c);
                next.push(longer);
            }
        }
        texts.extend(next.iter().cloned());
        last = next;
    }
    for t in [
        "9223372036854775807",
        "9223372036854775808",
        "-9223372036854775808",
        "-9223372036854775809",
        "+9223372036854775807",
        "+9223372036854775808",
        "000000000000000000000000000000012",
        "-000000000000000000000000000000012",
        "123456789012345678901234567890",
        "-0",
        "٣",
    ] {
        texts.push(t.to_string());
    }
    for text in &texts {
        assert_eq!(
            <i64 as Number>::from_text(text),
            text.parse::<i64>().ok(),
            "{:?}",
            text
        );
    }
}

#[test]
fn number_text_round_trip() {
    for i in [0i64, 1, -1, 10, -10, 1234567890, i64::MAX, i64::MIN] {
        assert_eq!(Number::to_text(i), i.to_string());
        assert_eq!(<i64 as Number>::from_text(&Number::to_text(i)), Some(i));
    }
}

#[test]
fn number_arithmetic_for_i64() {
    assert_eq!(Number::checked_add(2i64, 3), Some(5));
    assert_eq!(Number::checked_add(i64::MAX, 1), None);
    assert_eq!(Number::checked_sub(2i64, 3), Some(-1));
    assert_eq!(Number::checked_sub(i64::MIN, 1), None);
    assert_eq!(Number::checked_mul(6i64, 7), Some(42));
    assert_eq!(Number::checked_mul(i64::MAX, 2), None);
    assert_eq!(Number::checked_div(7i64, -2), Some(-3));
    assert_eq!(Number::checked_div(7i64, 0), None);
    assert_eq!(Number::checked_div(i64::MIN, -1), None);
}

#[test]
fn generic_messages() {
    assert_eq!(CalculatorError::StackUnderflow.message(), "Stack Underflow");
    assert_eq!(
        CalculatorError::InvalidOperation.message(),
        "Invalid operation (overflow, divide by zero, ...)"
    );
    assert_eq!(ParseError {}.message(), "Failed to parse token");
}
