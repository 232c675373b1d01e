use stacklang::arity::{calculate_arity, DerivationReason};
use stacklang::numbers::Number;
use stacklang::types::{Expression, Value};

fn id(name: &str) -> Expression {
    Expression::Identifier(String::from(name))
}

fn num(v: i64) -> Expression {
    Expression::Literal(Value::Number(Number::Integer(v)))
}

fn at(e: Expression) -> Expression {
    Expression::At(Box::new(e))
}

fn bang(e: Expression) -> Expression {
    Expression::Bang(Box::new(e))
}

#[test]
fn operators_take_two_and_leave_one() {
    for op in ["+", "-", "*", "/", "%", "<", "<=", "=", "==", "!=", ">=", ">"] {
        assert_eq!(calculate_arity(&id(op)), Ok((2, 1)));
    }
}

#[test]
fn unknown_identifier_has_no_arity() {
    let e = calculate_arity(&id("fact")).unwrap_err();
    assert_eq!(e.reason, DerivationReason::UnknownIdentifier);
    assert_eq!(e.expression, id("fact"));
}

#[test]
fn block_with_name_list_takes_its_length() {
    // { @[a b] a b }
    let block = Expression::Block(vec![
        at(Expression::List(vec![id("a"), id("b")])),
        id("a"),
        id("b"),
    ]);
    assert_eq!(calculate_arity(&block), Ok((2, 1)));
}

#[test]
fn block_with_both_counts() {
    let block = Expression::Block(vec![at(num(3)), bang(num(2)), id("+")]);
    assert_eq!(calculate_arity(&block), Ok((3, 2)));
    let mirrored = Expression::Block(vec![bang(num(2)), at(num(3)), id("+")]);
    assert_eq!(calculate_arity(&mirrored), Ok((3, 2)));
}

#[test]
fn block_without_annotation_is_walked() {
    // { 1 + * } reaches two below its start
    let block = Expression::Block(vec![num(1), id("+"), id("*")]);
    assert_eq!(calculate_arity(&block), Ok((2, 1)));
    // { 1 2 + } needs nothing
    let block = Expression::Block(vec![num(1), num(2), id("+")]);
    assert_eq!(calculate_arity(&block), Ok((0, 1)));
    // { + } needs two
    let block = Expression::Block(vec![id("+")]);
    assert_eq!(calculate_arity(&block), Ok((2, 1)));
    let block = Expression::Block(vec![]);
    assert_eq!(calculate_arity(&block), Ok((0, 1)));
}

#[test]
fn fault_in_a_child_comes_up() {
    let block = Expression::Block(vec![num(1), Expression::Group(vec![]), id("nope")]);
    let e = calculate_arity(&block).unwrap_err();
    assert_eq!(e.reason, DerivationReason::Group);
    assert_eq!(e.expression, Expression::Group(vec![]));
}

#[test]
fn negative_count_is_a_fault() {
    let block = Expression::Block(vec![at(num(-1))]);
    let e = calculate_arity(&block).unwrap_err();
    assert_eq!(e.reason, DerivationReason::NegativeCount);
    assert_eq!(e.expression, at(num(-1)));
}

fn reason_of(e: Expression) -> DerivationReason {
    let error = calculate_arity(&e).unwrap_err();
    assert_eq!(error.expression, e);
    error.reason
}

#[test]
fn what_has_no_arity() {
    assert_eq!(
        reason_of(Expression::DottedIdentifier(vec![String::from("a"), String::from("b")])),
        DerivationReason::DottedIdentifier
    );
    assert_eq!(reason_of(Expression::List(vec![num(1)])), DerivationReason::List);
    assert_eq!(reason_of(Expression::Group(vec![])), DerivationReason::Group);
    assert_eq!(reason_of(at(num(1))), DerivationReason::UnnamedAt);
    assert_eq!(reason_of(bang(num(1))), DerivationReason::UnnamedBang);
    assert_eq!(
        reason_of(Expression::Dollar(Box::new(Expression::Group(vec![])))),
        DerivationReason::UnnamedDollar
    );
}

#[test]
fn named_prefixes_have_an_arity() {
    assert_eq!(calculate_arity(&at(id("x"))), Ok((0, 1)));
    assert_eq!(calculate_arity(&bang(id("x"))), Ok((1, 0)));
    assert_eq!(calculate_arity(&Expression::Dollar(Box::new(id("x")))), Ok((0, 1)));
    assert_eq!(calculate_arity(&Expression::Literal(Value::Boolean(true))), Ok((0, 1)));
}

#[test]
fn a_name_list_must_hold_names_only() {
    let head = at(Expression::List(vec![id("a"), num(1)]));
    let e = calculate_arity(&Expression::Block(vec![head, id("+")])).unwrap_err();
    assert_eq!(e.reason, DerivationReason::NameListItem);
    assert_eq!(e.expression, at(Expression::List(vec![id("a"), num(1)])));
    // Behind a `!`, the list is looked at all the same
    let block = Expression::Block(vec![bang(num(2)), at(Expression::List(vec![num(1)]))]);
    assert_eq!(calculate_arity(&block).unwrap_err().reason, DerivationReason::NameListItem);
}

#[test]
fn one_side_of_the_annotation_defaults() {
    assert_eq!(calculate_arity(&Expression::Block(vec![at(id("n")), id("+")])), Ok((1, 1)));
    assert_eq!(calculate_arity(&Expression::Block(vec![at(num(4))])), Ok((4, 1)));
    assert_eq!(calculate_arity(&Expression::Block(vec![bang(num(0)), id("+")])), Ok((0, 0)));
    assert_eq!(
        calculate_arity(&Expression::Block(vec![at(Expression::List(vec![])), bang(num(3))])),
        Ok((0, 3))
    );
    // A `!` with a name declares nothing: the body is walked
    assert_eq!(calculate_arity(&Expression::Block(vec![bang(id("x")), num(1)])), Ok((1, 1)));
    // An annotation counts only at the head
    assert!(calculate_arity(&Expression::Block(vec![num(1), at(num(2))])).is_err());
    // A negative output count is a fault too
    let negative = Expression::Block(vec![at(num(1)), bang(num(-2))]);
    let e = calculate_arity(&negative).unwrap_err();
    assert_eq!((e.reason, e.expression), (DerivationReason::NegativeCount, bang(num(-2))));
}

#[test]
fn an_arity_beyond_the_machine_is_a_fault() {
    let wide = || Expression::Block(vec![at(num(i64::MAX))]);
    assert_eq!(calculate_arity(&wide()), Ok((i64::MAX as usize, 1)));
    let block = Expression::Block(vec![wide(), wide(), wide()]);
    if usize::BITS == 64 {
        let e = calculate_arity(&block).unwrap_err();
        assert_eq!(e.reason, DerivationReason::Unrepresentable);
        assert_eq!(e.expression, block);
        let two = Expression::Block(vec![wide(), wide()]);
        assert_eq!(calculate_arity(&two), Ok((2 * (i64::MAX as usize) - 1, 1)));
    }
}
