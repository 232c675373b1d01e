use stacklang::arity::calculate_arity;
use stacklang::numbers::{Number, NumberKind, POSITIVE_ZERO_BITS};
use stacklang::render::Fragment;
use stacklang::store::{Container, Store};
use stacklang::text::{chars_of, push_decimal, push_signed_decimal, same_text, string_of};
use stacklang::types::{Expression, Span, Value};

#[test]
fn the_levels_of_the_tower() {
    let one = Number::Integer(1);
    let half = Number::Rational { numerator: 1, denominator: 2 };
    let float = Number::Float(1.5f64.to_bits());
    let complex = Number::Complex { real: 1.0f64.to_bits(), imaginary: 2.0f64.to_bits() };
    assert_eq!(one.kind(), NumberKind::Integer);
    assert_eq!(half.kind(), NumberKind::Rational);
    assert_eq!(float.kind(), NumberKind::Float);
    assert_eq!(complex.kind(), NumberKind::Complex);
    let ranks: Vec<u8> = [one, half, float, complex].iter().map(|n| n.kind().rank()).collect();
    assert_eq!(ranks, vec![0, 1, 2, 3]);
    assert_eq!(NumberKind::Rational.wider(NumberKind::Float), NumberKind::Float);
    assert_eq!(NumberKind::Complex.wider(NumberKind::Integer), NumberKind::Complex);
    assert_eq!(NumberKind::Float.wider(NumberKind::Float), NumberKind::Float);
}

#[test]
fn conversions_that_need_no_floating_point() {
    let complex = Number::Complex { real: 1.0f64.to_bits(), imaginary: 2.0f64.to_bits() };
    let float = Number::Float(1.5f64.to_bits());
    assert_eq!(Number::Integer(3).to_integer(), Some(Number::Integer(3)));
    assert_eq!(Number::Integer(3).to_rational(), Some(Number::Rational { numerator: 3, denominator: 1 }));
    assert_eq!(Number::Integer(3).to_float(), None);
    assert_eq!(Number::Integer(3).to_complex(), None);
    assert_eq!(float.to_float(), Some(float));
    assert_eq!(float.to_integer(), None);
    assert_eq!(float.to_rational(), None);
    assert_eq!(
        float.to_complex(),
        Some(Number::Complex { real: 1.5f64.to_bits(), imaginary: 0.0f64.to_bits() })
    );
    assert_eq!(POSITIVE_ZERO_BITS, 0.0f64.to_bits());
    assert_eq!(complex.to_float(), Some(Number::Float(1.0f64.to_bits())));
    assert_eq!(complex.to_complex(), Some(complex));
    assert_eq!(complex.to_integer(), None);
}

#[test]
fn two_numbers_meet_on_the_wider_level() {
    let one = Number::Integer(1);
    let half = Number::Rational { numerator: 1, denominator: 2 };
    let float = Number::Float(1.5f64.to_bits());
    let complex = Number::Complex { real: 1.0f64.to_bits(), imaginary: 2.0f64.to_bits() };
    assert_eq!(Number::coerce(one, one), Some((one, one)));
    assert_eq!(
        Number::coerce(one, half),
        Some((Number::Rational { numerator: 1, denominator: 1 }, half))
    );
    assert_eq!(
        Number::coerce(half, Number::Integer(-4)),
        Some((half, Number::Rational { numerator: -4, denominator: 1 }))
    );
    assert_eq!(
        Number::coerce(float, complex),
        Some((Number::Complex { real: 1.5f64.to_bits(), imaginary: 0 }, complex))
    );
    assert_eq!(Number::coerce(complex, complex), Some((complex, complex)));
    // An integer or rational becomes a float only by floating-point arithmetic
    assert_eq!(Number::coerce(one, float), None);
    assert_eq!(Number::coerce(complex, half), None);
}

#[test]
fn numbers_as_texts() {
    assert_eq!(Number::Integer(-42).to_fragment(), Fragment::Text(String::from("-42")));
    assert_eq!(Number::Integer(i64::MIN).to_fragment(), Fragment::Text(String::from("-9223372036854775808")));
    assert_eq!(
        Number::Rational { numerator: -3, denominator: 4 }.to_fragment(),
        Fragment::Text(String::from("-3/4"))
    );
    assert_eq!(Number::Float(7).to_fragment(), Fragment::Float(7));
    assert_eq!(
        Number::Complex { real: 1, imaginary: 2 }.to_fragment(),
        Fragment::Complex { real: 1, imaginary: 2 }
    );
}

#[test]
fn decimal_numerals() {
    let mut out = vec!['x'];
    push_decimal(&mut out, 0);
    push_decimal(&mut out, 1203);
    push_signed_decimal(&mut out, -7);
    push_decimal(&mut out, u128::MAX);
    assert_eq!(string_of(&out), "x01203-7340282366920938463463374607431768211455");
    assert_eq!(chars_of("a\u{e9}b"), vec!['a', '\u{e9}', 'b']);
    assert!(same_text("ab", "ab"));
    assert!(!same_text("ab", "abc"));
}

#[test]
fn spans_as_texts() {
    let span = Span { name: Some(String::from("main.stack")), row: 3, column: 14, length: 1 };
    assert_eq!(span.to_string(), "main.stack:3:14:1");
    let span = Span { name: None, row: 0, column: 0, length: 10 };
    assert_eq!(span.to_string(), "<unknown>:0:0:10");
    assert_eq!(span.clone(), span);
}

fn text(fragments: Vec<Fragment>) -> String {
    fragments
        .iter()
        .map(|f| match f {
            Fragment::Text(t) => t.clone(),
            Fragment::Float(bits) => f64::from_bits(*bits).to_string(),
            Fragment::Complex { .. } => String::from("<complex>"),
        })
        .collect()
}

#[test]
fn expressions_as_texts() {
    let e = Expression::Block(vec![
        Expression::At(Box::new(Expression::List(vec![
            Expression::Identifier(String::from("n")),
            Expression::Identifier(String::from("m")),
        ]))),
        Expression::Group(vec![]),
        Expression::Literal(Value::String(String::from("\"hi\""))),
        Expression::Bang(Box::new(Expression::Literal(Value::Number(Number::Integer(2))))),
        Expression::Dollar(Box::new(Expression::DottedIdentifier(vec![
            String::from("a"),
            String::from("b"),
            String::from("c"),
        ]))),
        Expression::Literal(Value::Number(Number::Float(2.5f64.to_bits()))),
        Expression::Literal(Value::List(0)),
    ]);
    assert_eq!(text(e.to_fragments()), "{@[n m] () hi !2 $a.b.c 2.5 ...}");
    assert_eq!(e.clone(), e);
}

#[test]
fn values_as_texts() {
    let mut store = Store::new();
    let list = store.add(Container::List(vec![Value::Boolean(true), Value::Hash(1), Value::List(7)]));
    let hash = store.add_hash();
    assert_eq!((list, hash, store.len()), (0, 1, 2));
    assert!(store.hash_set(hash, String::from("k"), Value::String(String::from("\"v\""))));
    assert!(!store.hash_set(list, String::from("k"), Value::Boolean(true)));
    assert_eq!(text(Value::List(list).to_fragments(&store)), "[true, Hash<k:v>, ...]");
    assert_eq!(text(Value::IntHash(hash).to_fragments(&store)), "...");
    assert_eq!(
        text(Value::Block { arity_in: 2, arity_out: 0, expression: Box::new(Expression::Group(vec![])) }
            .to_fragments(&store)),
        "{2->0}"
    );
}

#[test]
fn store_accessors() {
    let mut store = Store::new();
    let l = store.add_list();
    let h = store.add_int_hash();
    assert_eq!(store.list_len(l), Some(0));
    assert_eq!(store.list_len(h), None);
    assert_eq!(store.list_len(9), None);
    assert!(store.list_push(l, Value::Boolean(true)));
    assert!(store.list_push(l, Value::Boolean(false)));
    assert!(!store.list_push(h, Value::Boolean(false)));
    assert_eq!(store.list_get(l, 1), Some(Value::Boolean(false)));
    assert_eq!(store.list_get(l, 2), None);
    assert!(store.list_set(l, 0, Value::List(l)));
    assert!(!store.list_set(l, 2, Value::List(l)));
    assert_eq!(store.list_pop(l), Some(Value::Boolean(false)));
    assert_eq!(store.list_pop(l), Some(Value::List(l)));
    assert_eq!(store.list_pop(l), None);
    assert_eq!(store.int_hash_has(h, 5), Some(false));
    assert!(store.int_hash_set(h, 5, Value::Boolean(true)));
    assert!(store.int_hash_set(h, 6, Value::Boolean(true)));
    assert!(store.int_hash_set(h, 5, Value::Boolean(false)));
    assert_eq!(store.int_hash_get(h, 5), Some(Value::Boolean(false)));
    assert_eq!(store.int_hash_get(h, 7), None);
    assert_eq!(store.int_hash_has(l, 5), None);
    assert_eq!(store.hash_has(h, &String::from("x")), None);
    assert_eq!(store.hash_get(h, &String::from("x")), None);
}

#[test]
fn deriving_an_arity_twice_gives_the_same() {
    let blocks = [
        Expression::Block(vec![
            Expression::Identifier(String::from("+")),
            Expression::Literal(Value::Number(Number::Integer(1))),
            Expression::Identifier(String::from("<")),
        ]),
        Expression::Block(vec![Expression::Identifier(String::from("unknown"))]),
        Expression::Block(vec![
            Expression::Bang(Box::new(Expression::Identifier(String::from("x")))),
            Expression::Dollar(Box::new(Expression::Identifier(String::from("x")))),
            Expression::Block(vec![Expression::Identifier(String::from("*"))]),
        ]),
    ];
    let first: Vec<_> = blocks.iter().map(calculate_arity).collect();
    let second: Vec<_> = blocks.iter().map(calculate_arity).collect();
    assert_eq!(first, second);
    assert_eq!(first[0], Ok((2, 1)));
    assert!(first[1].is_err());
    // !x takes one, $x leaves one, the inner block takes its two inputs
    assert_eq!(first[2], Ok((2, 1)));
}
