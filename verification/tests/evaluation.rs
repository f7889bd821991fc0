use loxide::interpreter;
use loxide::number::Number;
use loxide::parser::{Arithmetic, Expr, Outcome, Parser, RuntimeError, Value};
use loxide::scanner::{Literal, Scanner, Token, TokenType};

fn float(n: &Number) -> f64 {
    f64::from_bits(n.to_bits())
}

fn num(value: f64) -> Number {
    Number::from_bits(value.to_bits())
}

/// The operations of the hardware.
fn perform(operation: &Arithmetic) -> Number {
    match operation {
        Arithmetic::Round(d) => num(d.to_text().parse::<f64>().unwrap()),
        Arithmetic::Add(a, b) => num(float(a) + float(b)),
        Arithmetic::Subtract(a, b) => num(float(a) - float(b)),
        Arithmetic::Multiply(a, b) => num(float(a) * float(b)),
        Arithmetic::Divide(a, b) => num(float(a) / float(b)),
    }
}

/// Answers every operation until the evaluation finishes; also says how
/// many operations there were.
fn drive(expr: &Expr) -> (Result<Value, RuntimeError>, usize) {
    let mut answers: Vec<Number> = Vec::new();
    loop {
        match expr.interpret(&answers) {
            Outcome::Value(v) => return (Ok(v), answers.len()),
            Outcome::Error(e) => return (Err(e), answers.len()),
            Outcome::Needs(operation) => answers.push(perform(&operation)),
        }
    }
}

fn parse(source: &str) -> Expr {
    let mut scanner = Scanner::new(source.to_string());
    let tokens = scanner.scan_tokens().clone();
    assert!(scanner.errors().is_empty());
    Parser::new(tokens).parse().unwrap()
}

fn evaluate(source: &str) -> Result<Value, RuntimeError> {
    drive(&parse(source)).0
}

fn number(source: &str) -> f64 {
    match evaluate(source) {
        Ok(Value::Number(n)) => float(&n),
        other => panic!("{:?} is {:?}", source, other),
    }
}

fn boolean(source: &str) -> bool {
    match evaluate(source) {
        Ok(Value::Boolean(b)) => b,
        other => panic!("{:?} is {:?}", source, other),
    }
}

fn text(source: &str) -> String {
    match evaluate(source) {
        Ok(Value::Text(s)) => s,
        other => panic!("{:?} is {:?}", source, other),
    }
}

fn failure(source: &str) -> (String, String, usize) {
    match evaluate(source) {
        Err(e) => {
            let line = e.line();
            (e.message, e.token.lexeme, line)
        }
        other => panic!("{:?} is {:?}", source, other),
    }
}

fn shown(source: &str) -> String {
    match evaluate(source) {
        Ok(Value::Number(n)) => interpreter::stringify(&Value::Number(n), &float(&n).to_string()),
        Ok(v) => interpreter::stringify(&v, ""),
        Err(e) => panic!("{:?} fails with {:?}", source, e),
    }
}

#[test]
fn a_product_evaluates_to_a_number() {
    let value = number("-123 * 45.67");
    assert!((value - -5617.41).abs() < 1e-9);
    assert_eq!(value, -123.0 * 45.67);
}

#[test]
fn equality_is_sensitive_to_the_kind() {
    assert!(boolean("1 == 1"));
    assert!(!boolean("1 == \"1\""));
}

#[test]
fn addition_joins_strings_and_refuses_a_mix() {
    assert_eq!(text("\"foo\" + \"bar\""), "foobar");
    assert_eq!(
        failure("1 + \"bar\""),
        (
            "Operands must be two numbers or two strings.".to_string(),
            "+".to_string(),
            1
        )
    );
}

#[test]
fn negation_goes_by_truthiness() {
    assert!(boolean("!nil"));
    assert!(boolean("!false"));
    assert!(!boolean("!0"));
}

#[test]
fn literals_have_the_value_they_hold() {
    assert_eq!(number("45.67"), 45.67);
    assert_eq!(number("0"), 0.0);
    assert_eq!(text("\"\""), "");
    assert_eq!(text("\"a b\""), "a b");
    assert!(boolean("true"));
    assert!(!boolean("false"));
    assert!(matches!(evaluate("nil"), Ok(Value::Nil)));
}

#[test]
fn a_grouping_has_the_value_of_what_it_holds() {
    assert_eq!(number("(1)"), 1.0);
    assert_eq!(number("(1 + 2) * 3"), 9.0);
    assert_eq!(number("1 + (2 * 3)"), 7.0);
    assert!(matches!(evaluate("((nil))"), Ok(Value::Nil)));
}

#[test]
fn everything_but_nil_and_false_is_truthy() {
    assert!(!boolean("!true"));
    assert!(!boolean("!1"));
    assert!(!boolean("!\"\""));
    assert!(!boolean("!\"a\""));
    assert!(boolean("!!1"));
    assert!(!boolean("!!nil"));
    assert!(boolean("!(1 > 2)"));
    assert!(Expr::is_truthy(&Value::Number(num(0.0))));
    assert!(Expr::is_truthy(&Value::Number(num(f64::NAN))));
    assert!(Expr::is_truthy(&Value::Text(String::new())));
    assert!(Expr::is_truthy(&Value::Boolean(true)));
    assert!(!Expr::is_truthy(&Value::Boolean(false)));
    assert!(!Expr::is_truthy(&Value::Nil));
}

#[test]
fn minus_negates_a_number() {
    assert_eq!(number("-1"), -1.0);
    assert_eq!(number("--1"), 1.0);
    assert_eq!(number("-(1 - 3)"), 2.0);
    let zero = number("-0");
    assert_eq!(zero, 0.0);
    assert!(zero.is_sign_negative());
}

#[test]
fn minus_refuses_what_is_no_number() {
    for source in ["-\"a\"", "-true", "-nil", "-(1 < 2)"] {
        assert_eq!(
            failure(source),
            (
                "Operand must be a number.".to_string(),
                "-".to_string(),
                1
            ),
            "for {:?}",
            source
        );
    }
}

#[test]
fn arithmetic_is_that_of_the_hardware() {
    assert_eq!(number("1 + 2"), 3.0);
    assert_eq!(number("0.1 + 0.2"), 0.1 + 0.2);
    assert_eq!(number("1 - 2"), -1.0);
    assert_eq!(number("3 * 4"), 12.0);
    assert_eq!(number("1 / 4"), 0.25);
    assert_eq!(number("10 / 3"), 10.0 / 3.0);
    assert_eq!(number("1 + 2 * 3 - 4 / 8"), 6.5);
    assert_eq!(number("8 / 4 / 2"), 1.0);
    assert_eq!(number("8 - 4 - 2"), 2.0);
}

#[test]
fn division_by_zero_is_no_error() {
    assert_eq!(number("1 / 0"), f64::INFINITY);
    assert_eq!(number("-1 / 0"), f64::NEG_INFINITY);
    assert!(number("0 / 0").is_nan());
    assert!(!boolean("0 / 0 == 0 / 0"));
    assert!(boolean("0 / 0 != 0 / 0"));
    assert!(!boolean("0 / 0 < 1"));
    assert!(!boolean("0 / 0 >= 1"));
}

#[test]
fn comparisons_order_numbers() {
    assert!(boolean("1 < 2"));
    assert!(!boolean("2 < 1"));
    assert!(!boolean("1 < 1"));
    assert!(boolean("1 <= 1"));
    assert!(!boolean("2 <= 1"));
    assert!(boolean("2 > 1"));
    assert!(!boolean("1 > 1"));
    assert!(boolean("1 >= 1"));
    assert!(!boolean("1 >= 2"));
    assert!(boolean("-1 < 1"));
    assert!(boolean("-2 < -1"));
    assert!(!boolean("-0 < 0"));
    assert!(boolean("-0 >= 0"));
    assert!(boolean("0.1 + 0.2 > 0.3"));
}

#[test]
fn arithmetic_and_comparison_refuse_what_is_no_number() {
    for operator in ["-", "/", "*", ">", ">=", "<", "<="] {
        for (left, right) in [
            ("1", "\"a\""),
            ("\"a\"", "1"),
            ("\"a\"", "\"b\""),
            ("nil", "1"),
            ("1", "nil"),
            ("true", "false"),
        ] {
            let source = format!("{} {} {}", left, operator, right);
            assert_eq!(
                failure(&source),
                (
                    "Operands must be numbers.".to_string(),
                    operator.to_string(),
                    1
                ),
                "for {:?}",
                source
            );
        }
    }
}

#[test]
fn addition_refuses_every_other_pair() {
    for source in [
        "\"a\" + 1",
        "nil + 1",
        "1 + nil",
        "nil + nil",
        "true + false",
        "true + 1",
        "\"a\" + true",
        "nil + \"a\"",
        "\"a\" + nil",
    ] {
        assert_eq!(
            failure(source),
            (
                "Operands must be two numbers or two strings.".to_string(),
                "+".to_string(),
                1
            ),
            "for {:?}",
            source
        );
    }
}

#[test]
fn addition_joins_strings_in_order() {
    assert_eq!(text("\"a\" + \"b\" + \"c\""), "abc");
    assert_eq!(text("\"\" + \"\""), "");
    assert_eq!(text("\"a\" + (\"b\" + \"c\")"), "abc");
}

#[test]
fn equality_compares_without_coercion() {
    assert!(boolean("nil == nil"));
    assert!(!boolean("nil != nil"));
    assert!(!boolean("nil == false"));
    assert!(!boolean("nil == 0"));
    assert!(!boolean("0 == nil"));
    assert!(!boolean("\"\" == nil"));
    assert!(boolean("1 != nil"));
    assert!(boolean("1 == 1.0"));
    assert!(boolean("0 == -0"));
    assert!(!boolean("1 == 2"));
    assert!(boolean("1 != 2"));
    assert!(boolean("true == true"));
    assert!(!boolean("true == false"));
    assert!(!boolean("true == 1"));
    assert!(!boolean("false == 0"));
    assert!(boolean("\"a\" == \"a\""));
    assert!(!boolean("\"a\" == \"b\""));
    assert!(boolean("\"a\" != \"b\""));
    assert!(boolean("1 != \"1\""));
    assert!(boolean("(1 < 2) == true"));
    assert!(boolean("\"ab\" == \"a\" + \"b\""));
}

#[test]
fn equals_is_the_equality_of_the_language() {
    let one = Value::Number(num(1.0));
    assert!(Expr::equals(&one, &Value::Number(num(1.0))));
    assert!(Expr::equals(&Value::Number(num(0.0)), &Value::Number(num(-0.0))));
    assert!(!Expr::equals(&Value::Number(num(f64::NAN)), &Value::Number(num(f64::NAN))));
    assert!(!Expr::equals(&one, &Value::Nil));
    assert!(!Expr::equals(&Value::Nil, &one));
    assert!(Expr::equals(&Value::Nil, &Value::Nil));
    assert!(!Expr::equals(&one, &Value::Text("1".to_string())));
    assert!(Expr::equals(&Value::Text("a".to_string()), &Value::Text("a".to_string())));
    assert!(!Expr::equals(&Value::Boolean(true), &Value::Boolean(false)));
}

#[test]
fn try_convert_gives_the_number_or_the_failure() {
    let minus = Token::new(TokenType::Minus, "-".to_string(), None, 4);
    match Expr::try_convert(Value::Number(num(2.5)), &minus, "no number") {
        Ok(n) => assert_eq!(float(&n), 2.5),
        Err(e) => panic!("failed: {:?}", e),
    }
    for value in [Value::Nil, Value::Boolean(true), Value::Text("2.5".to_string())] {
        match Expr::try_convert(value, &minus, "no number") {
            Err(e) => {
                assert_eq!(e.message, "no number");
                assert_eq!(e.token.lexeme, "-");
                assert_eq!(e.line(), 4);
            }
            Ok(n) => panic!("converted to {:?}", n),
        }
    }
}

#[test]
fn the_first_failure_from_the_left_is_the_failure_of_the_whole() {
    assert_eq!(failure("-\"a\" + -\"b\"").1, "-");
    assert_eq!(
        failure("(1 - nil) * (2 / \"a\")"),
        ("Operands must be numbers.".to_string(), "-".to_string(), 1)
    );
    assert_eq!(
        failure("\"a\" * (1 + nil)"),
        ("Operands must be numbers.".to_string(), "*".to_string(), 1)
    );
    assert_eq!(
        failure("1 * (1 + nil)"),
        (
            "Operands must be two numbers or two strings.".to_string(),
            "+".to_string(),
            1
        )
    );
    assert_eq!(
        failure("nil + (1 - nil)"),
        (
            "Operands must be two numbers or two strings.".to_string(),
            "+".to_string(),
            1
        )
    );
    assert_eq!(
        failure("true + (1 - nil)"),
        ("Operands must be numbers.".to_string(), "-".to_string(), 1)
    );
    assert_eq!(
        failure("nil == (1 - nil)"),
        ("Operands must be numbers.".to_string(), "-".to_string(), 1)
    );
}

#[test]
fn a_failure_is_reported_at_the_line_of_its_operator() {
    assert_eq!(failure("1\n+\n\"a\"").2, 2);
    assert_eq!(failure("\n\n-nil").2, 3);
}

fn literal(value: f64) -> Box<Expr> {
    let text = value.to_string();
    Box::new(Expr::Literal {
        value: Some(Literal::Number(
            loxide::number::Decimal::parse(&text).unwrap(),
        )),
    })
}

#[test]
fn an_operator_that_is_none_is_a_failure() {
    let comma = Token::new(TokenType::Comma, ",".to_string(), None, 2);
    let unary = Expr::Unary {
        operator: comma.clone(),
        right: literal(1.0),
    };
    match drive(&unary) {
        (Err(e), operations) => {
            assert_eq!(e.message, "Invalid unary operator.");
            assert_eq!(e.token.lexeme, ",");
            assert_eq!(e.line(), 2);
            assert_eq!(operations, 0);
        }
        other => panic!("evaluated to {:?}", other),
    }
    let binary = Expr::Binary {
        left: literal(1.0),
        operator: comma,
        right: literal(2.0),
    };
    match drive(&binary) {
        (Err(e), operations) => {
            assert_eq!(e.message, "Invalid binary operator.");
            assert_eq!(e.token.lexeme, ",");
            assert_eq!(operations, 0);
        }
        other => panic!("evaluated to {:?}", other),
    }
    let star = Token::new(TokenType::Star, "*".to_string(), None, 1);
    let unary = Expr::Unary {
        operator: star,
        right: literal(1.0),
    };
    assert_eq!(drive(&unary).0.unwrap_err().message, "Invalid unary operator.");
    let bang = Token::new(TokenType::Bang, "!".to_string(), None, 1);
    let binary = Expr::Binary {
        left: literal(1.0),
        operator: bang,
        right: literal(2.0),
    };
    assert_eq!(drive(&binary).0.unwrap_err().message, "Invalid binary operator.");
}

#[test]
fn evaluation_names_each_operation_in_turn() {
    let expr = parse("1.5 + 2 * 3");
    let mut answers: Vec<Number> = Vec::new();
    match expr.interpret(&answers) {
        Outcome::Needs(Arithmetic::Round(d)) => assert_eq!(d.to_text(), "1.5"),
        other => panic!("asked for {:?}", other),
    }
    answers.push(num(1.5));
    match expr.interpret(&answers) {
        Outcome::Needs(Arithmetic::Round(d)) => assert_eq!(d.to_text(), "2"),
        other => panic!("asked for {:?}", other),
    }
    answers.push(num(2.0));
    match expr.interpret(&answers) {
        Outcome::Needs(Arithmetic::Round(d)) => assert_eq!(d.to_text(), "3"),
        other => panic!("asked for {:?}", other),
    }
    answers.push(num(3.0));
    match expr.interpret(&answers) {
        Outcome::Needs(Arithmetic::Multiply(a, b)) => {
            assert_eq!((float(&a), float(&b)), (2.0, 3.0))
        }
        other => panic!("asked for {:?}", other),
    }
    answers.push(num(6.0));
    match expr.interpret(&answers) {
        Outcome::Needs(Arithmetic::Add(a, b)) => assert_eq!((float(&a), float(&b)), (1.5, 6.0)),
        other => panic!("asked for {:?}", other),
    }
    answers.push(num(7.5));
    match expr.interpret(&answers) {
        Outcome::Value(Value::Number(n)) => assert_eq!(float(&n), 7.5),
        other => panic!("evaluated to {:?}", other),
    }
    answers.push(num(99.0));
    match expr.interpret(&answers) {
        Outcome::Value(Value::Number(n)) => assert_eq!(float(&n), 7.5),
        other => panic!("evaluated to {:?}", other),
    }
}

#[test]
fn evaluation_names_subtraction_and_division() {
    let expr = parse("7 - 2");
    match expr.interpret(&vec![num(7.0), num(2.0)]) {
        Outcome::Needs(Arithmetic::Subtract(a, b)) => {
            assert_eq!((float(&a), float(&b)), (7.0, 2.0))
        }
        other => panic!("asked for {:?}", other),
    }
    let expr = parse("7 / 2");
    match expr.interpret(&vec![num(7.0), num(2.0)]) {
        Outcome::Needs(Arithmetic::Divide(a, b)) => {
            assert_eq!((float(&a), float(&b)), (7.0, 2.0))
        }
        other => panic!("asked for {:?}", other),
    }
}

#[test]
fn evaluation_takes_the_results_it_is_given() {
    let expr = parse("1 + 1");
    match expr.interpret(&vec![num(10.0), num(20.0), num(-4.0)]) {
        Outcome::Value(Value::Number(n)) => assert_eq!(float(&n), -4.0),
        other => panic!("evaluated to {:?}", other),
    }
    match expr.interpret(&vec![num(10.0), num(20.0)]) {
        Outcome::Needs(Arithmetic::Add(a, b)) => {
            assert_eq!((float(&a), float(&b)), (10.0, 20.0))
        }
        other => panic!("asked for {:?}", other),
    }
}

#[test]
fn what_needs_no_operation_finishes_at_once() {
    for source in ["nil", "true", "\"a\" + \"b\"", "!nil", "nil == false", "-\"a\""] {
        let (_, operations) = drive(&parse(source));
        assert_eq!(operations, 0, "for {:?}", source);
    }
    assert_eq!(drive(&parse("1")).1, 1);
    assert_eq!(drive(&parse("-1")).1, 1);
    assert_eq!(drive(&parse("1 < 2")).1, 2);
    assert_eq!(drive(&parse("1 == 2")).1, 2);
    assert_eq!(drive(&parse("1 + 2")).1, 3);
    assert_eq!(drive(&parse("1 + \"a\"")).1, 1);
    assert_eq!(drive(&parse("nil + 1")).1, 0);
    assert_eq!(drive(&parse("\"a\" - 1")).1, 0);
    assert_eq!(drive(&parse("1 - \"a\"")).1, 1);
}

#[test]
fn evaluating_again_gives_an_equal_value() {
    for source in [
        "-123 * 45.67",
        "1 == 1",
        "\"foo\" + \"bar\"",
        "!nil",
        "0.1 + 0.2 > 0.3",
        "1 / 0",
        "(1 + 2) * (3 - 4) / 5",
    ] {
        let expr = parse(source);
        let first = drive(&expr);
        let second = drive(&expr);
        assert_eq!(first.1, second.1);
        match (first.0.unwrap(), second.0.unwrap()) {
            (Value::Number(a), Value::Number(b)) => assert_eq!(a.to_bits(), b.to_bits()),
            (Value::Text(a), Value::Text(b)) => assert_eq!(a, b),
            (Value::Boolean(a), Value::Boolean(b)) => assert_eq!(a, b),
            (Value::Nil, Value::Nil) => (),
            other => panic!("{:?} differ", other),
        }
    }
    let expr = parse("1 + nil");
    let first = drive(&expr).0.unwrap_err();
    let second = drive(&expr).0.unwrap_err();
    assert_eq!(first.message, second.message);
    assert_eq!(first.token, second.token);
    assert_eq!(first.line(), second.line());
}

#[test]
fn values_are_shown() {
    assert_eq!(shown("1"), "1");
    assert_eq!(shown("1.5"), "1.5");
    assert_eq!(shown("-123 * 45.67"), (-123.0f64 * 45.67).to_string());
    assert_eq!(shown("10 / 4"), "2.5");
    assert_eq!(shown("3 - 3"), "0");
    assert_eq!(shown("1 / 0"), "inf");
    assert_eq!(shown("true"), "true");
    assert_eq!(shown("1 > 2"), "false");
    assert_eq!(shown("\"a\" + \"b\""), "ab");
    assert_eq!(shown("\"1.0\""), "1.0");
    assert_eq!(shown("nil"), "nil");
}

#[test]
fn a_number_is_shown_without_a_redundant_ending() {
    let three = Value::Number(num(3.0));
    assert_eq!(interpreter::stringify(&three, "3.0"), "3");
    assert_eq!(interpreter::stringify(&three, "3"), "3");
    assert_eq!(interpreter::stringify(&three, "30"), "30");
    assert_eq!(interpreter::stringify(&three, "3.05"), "3.05");
    assert_eq!(interpreter::stringify(&three, "3.00"), "3.00");
    assert_eq!(interpreter::stringify(&three, ".0"), "");
    assert_eq!(interpreter::stringify(&three, "0"), "0");
    assert_eq!(interpreter::stringify(&three, ""), "");
    assert_eq!(interpreter::stringify(&Value::Text("3.0".to_string()), "7"), "3.0");
    assert_eq!(interpreter::stringify(&Value::Nil, "3.0"), "nil");
    assert_eq!(interpreter::stringify(&Value::Boolean(true), "3.0"), "true");
    assert_eq!(interpreter::stringify(&Value::Boolean(false), "3.0"), "false");
}

#[test]
fn a_copy_of_a_value_holds_what_the_value_holds() {
    match Value::Text("abc".to_string()).clone() {
        Value::Text(s) => assert_eq!(s, "abc"),
        other => panic!("copied to {:?}", other),
    }
    match Value::Number(num(2.5)).clone() {
        Value::Number(n) => assert_eq!(float(&n), 2.5),
        other => panic!("copied to {:?}", other),
    }
    assert!(matches!(Value::Boolean(true).clone(), Value::Boolean(true)));
    assert!(matches!(Value::Nil.clone(), Value::Nil));
    let minus = Token::new(TokenType::Minus, "-".to_string(), None, 4);
    let error = RuntimeError::new(&minus, "no number").clone();
    assert_eq!(error.message, "no number");
    assert_eq!(error.token, minus);
    assert_eq!(error.line(), 4);
}
