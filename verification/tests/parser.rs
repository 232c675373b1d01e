use stacklang::lexer::tokenize;
use stacklang::numbers::Number;
use stacklang::parser::{parse, ParseError};
use stacklang::types::{Expression, Token, Value};

/// For each token, the bits of the float that its text reads as.
fn float_readings(tokens: &Vec<Token>) -> Vec<Option<u64>> {
    tokens.iter().map(|t| t.token.parse::<f64>().ok().map(f64::to_bits)).collect()
}

fn parse_text(text: &str) -> Result<Expression, ParseError> {
    let tokens = tokenize(text).unwrap();
    let floats = float_readings(&tokens);
    parse(tokens, floats)
}

#[test]
fn test_integer() {
    let output = parse_text("123").unwrap();
    assert_eq!(
        output,
        Expression::Group(vec![Expression::Literal(Value::Number(Number::Integer(
            123
        )))])
    );
}

#[test]
fn test_float() {
    let output = parse_text("123.456").unwrap();
    assert_eq!(
        output,
        Expression::Group(vec![Expression::Literal(Value::Number(Number::Float(
            123.456f64.to_bits()
        )))])
    );
}

#[test]
fn test_string_literal() {
    let output = parse_text("\"hello world\"").unwrap();
    assert_eq!(
        output,
        Expression::Group(vec![Expression::Literal(Value::String(String::from(
            "hello world"
        )))])
    );
}

#[test]
fn test_boolean_literal() {
    let output = parse_text("true").unwrap();
    assert_eq!(
        output,
        Expression::Group(vec![Expression::Literal(Value::Boolean(true))])
    );
}

#[test]
fn test_simple_addition() {
    let output = parse_text("1 2 +").unwrap();
    assert_eq!(
        output,
        Expression::Group(vec![
            Expression::Literal(Value::Number(Number::Integer(1))),
            Expression::Literal(Value::Number(Number::Integer(2))),
            Expression::Identifier(String::from("+")),
        ])
    );
}

#[test]
fn test_identifier() {
    let output = parse_text("a").unwrap();
    assert_eq!(
        output,
        Expression::Group(vec![Expression::Identifier(String::from("a"))])
    );
}

#[test]
fn test_symbolic_identifier() {
    let output = parse_text("<=").unwrap();
    assert_eq!(
        output,
        Expression::Group(vec![Expression::Identifier(String::from("<="))])
    );
}

#[test]
fn test_dotted_identifier() {
    let output = parse_text("a.b.c").unwrap();
    assert_eq!(
        output,
        Expression::Group(vec![Expression::DottedIdentifier(vec![
            String::from("a"),
            String::from("b"),
            String::from("c"),
        ])])
    );
}

#[test]
fn test_naming() {
    let output = parse_text("@a").unwrap();
    assert_eq!(
        output,
        Expression::Group(vec![Expression::At(Box::new(Expression::Identifier(
            String::from("a")
        )))])
    );
}

#[test]
fn test_list_naming() {
    let output = parse_text("@[a b c]").unwrap();
    assert_eq!(
        output,
        Expression::Group(vec![Expression::At(Box::new(Expression::List(vec![
            Expression::Identifier(String::from("a")),
            Expression::Identifier(String::from("b")),
            Expression::Identifier(String::from("c")),
        ])))])
    );
}

#[test]
fn test_simple_block() {
    let output = parse_text("{ 1 2 + }").unwrap();
    assert_eq!(
        output,
        Expression::Group(vec![Expression::Block(vec![
            Expression::Literal(Value::Number(Number::Integer(1))),
            Expression::Literal(Value::Number(Number::Integer(2))),
            Expression::Identifier(String::from("+")),
        ])])
    );
}

#[test]
fn test_assignment_bang() {
    let output = parse_text("1 !a a a +").unwrap();
    assert_eq!(
        output,
        Expression::Group(vec![
            Expression::Literal(Value::Number(Number::Integer(1))),
            Expression::Bang(Box::new(Expression::Identifier(String::from("a")))),
            Expression::Identifier(String::from("a")),
            Expression::Identifier(String::from("a")),
            Expression::Identifier(String::from("+")),
        ])
    );
}

#[test]
fn test_factorial() {
    let output = parse_text("
{
  @[n fact]
  1
  { @0 n 1 - $fact fact n * }
  n 1 < if
} @fact

5 $fact fact writeln").unwrap();
    assert_eq!(
        output,
        Expression::Group(vec![
            Expression::Block(vec![
                Expression::At(Box::new(Expression::List(vec![
                    Expression::Identifier(String::from("n")),
                    Expression::Identifier(String::from("fact")),
                ]))),
                Expression::Literal(Value::Number(Number::Integer(1))),
                Expression::Block(vec![
                    Expression::At(Box::new(Expression::Literal(Value::Number(
                        Number::Integer(0)
                    )),)),
                    Expression::Identifier(String::from("n")),
                    Expression::Literal(Value::Number(Number::Integer(1))),
                    Expression::Identifier(String::from("-")),
                    Expression::Dollar(Box::new(Expression::Identifier(String::from("fact")))),
                    Expression::Identifier(String::from("fact")),
                    Expression::Identifier(String::from("n")),
                    Expression::Identifier(String::from("*")),
                ]),
                Expression::Identifier(String::from("n")),
                Expression::Literal(Value::Number(Number::Integer(1))),
                Expression::Identifier(String::from("<")),
                Expression::Identifier(String::from("if")),
            ]),
            Expression::At(Box::new(Expression::Identifier(String::from("fact")))),
            Expression::Literal(Value::Number(Number::Integer(5))),
            Expression::Dollar(Box::new(Expression::Identifier(String::from("fact")))),
            Expression::Identifier(String::from("fact")),
            Expression::Identifier(String::from("writeln")),
        ])
    );
}

#[test]
fn prefix_at_the_end_is_no_program() {
    assert_eq!(parse_text("1 @"), Err(ParseError::UnexpectedEnd));
    assert_eq!(parse_text("{ ! }"), Ok(Expression::Group(vec![Expression::Block(vec![
        Expression::Bang(Box::new(Expression::Identifier(String::from("}"))))
    ])])));
}

#[test]
fn integers_at_the_limits() {
    for (text, value) in [
        ("9223372036854775807", i64::MAX),
        ("-9223372036854775808", i64::MIN),
        ("-0", 0),
        ("0007", 7),
    ] {
        assert_eq!(
            parse_text(text),
            Ok(Expression::Group(vec![Expression::Literal(Value::Number(Number::Integer(value)))]))
        );
    }
    // One more than the largest integer reads as a float
    assert_eq!(
        parse_text("9223372036854775808"),
        Ok(Expression::Group(vec![Expression::Literal(Value::Number(Number::Float(
            9223372036854775808f64.to_bits()
        )))]))
    );
}

#[test]
fn token_with_a_sign_reads_as_an_integer() {
    let token = |text: &str| Token {
        span: stacklang::types::Span { name: None, row: 0, column: 0, length: text.len() },
        token: String::from(text),
    };
    assert_eq!(
        parse(vec![token("+5")], vec![]),
        Ok(Expression::Group(vec![Expression::Literal(Value::Number(Number::Integer(5)))]))
    );
    // Without a float reading, a token with a dot is a dotted identifier
    assert_eq!(
        parse(vec![token("1.5")], vec![]),
        Ok(Expression::Group(vec![Expression::DottedIdentifier(vec![
            String::from("1"),
            String::from("5")
        ])]))
    );
    assert_eq!(
        parse(vec![token("a..")], vec![None]),
        Ok(Expression::Group(vec![Expression::DottedIdentifier(vec![
            String::from("a"),
            String::from(""),
            String::from("")
        ])]))
    );
}

#[test]
fn string_literal_loses_all_outer_quotes() {
    let token = |text: &str| Token {
        span: stacklang::types::Span { name: None, row: 0, column: 0, length: text.len() },
        token: String::from(text),
    };
    for (text, inner) in [("\"\"a\"b\"\"\"", "a\"b"), ("\"\"\"", ""), ("\"x", "x")] {
        assert_eq!(
            parse(vec![token(text)], vec![None]),
            Ok(Expression::Group(vec![Expression::Literal(Value::String(String::from(inner)))]))
        );
    }
}

#[test]
fn unclosed_bracket_runs_to_the_end() {
    assert_eq!(
        parse_text("[ 1 ( 2"),
        Ok(Expression::Group(vec![Expression::List(vec![
            Expression::Literal(Value::Number(Number::Integer(1))),
            Expression::Group(vec![Expression::Literal(Value::Number(Number::Integer(2)))]),
        ])]))
    );
    assert_eq!(
        parse_text("false )"),
        Ok(Expression::Group(vec![
            Expression::Literal(Value::Boolean(false)),
            Expression::Identifier(String::from(")")),
        ]))
    );
}
