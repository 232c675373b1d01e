use stacklang::numbers::Number;
use stacklang::stack::{Stack, StackError};
use stacklang::types::Value;

fn num(v: i64) -> Value {
    Value::Number(Number::Integer(v))
}

fn name(text: &str) -> String {
    String::from(text)
}

fn filled(values: &[i64]) -> Stack {
    let mut stack = Stack::new();
    for v in values {
        stack.push(num(*v));
    }
    stack
}

fn drain(stack: &mut Stack) -> Vec<Value> {
    let mut values = vec![];
    while let Some(v) = stack.pop() {
        values.push(v);
    }
    values.reverse();
    values
}

#[test]
fn a_new_stack_is_empty_with_one_frame() {
    let mut stack = Stack::new();
    assert_eq!(stack.len(), 0);
    assert_eq!(stack.depth(), 1);
    assert_eq!(stack.reach(), 0);
    assert_eq!(stack.pop(), None);
}

#[test]
fn push_and_pop_are_last_in_first_out() {
    let mut stack = filled(&[1, 2, 3]);
    assert_eq!(stack.pop(), Some(num(3)));
    assert_eq!(stack.pop(), Some(num(2)));
    stack.push(num(9));
    assert_eq!(drain(&mut stack), vec![num(1), num(9)]);
}

#[test]
fn contract_keeps_the_outputs_and_drops_the_rest() {
    let mut stack = filled(&[8, 6, 7, 5]);
    assert_eq!(stack.extend(2), Ok(()));
    assert_eq!(stack.reach(), 2);
    stack.push(num(10));
    stack.push(num(11));
    stack.push(num(12));
    assert_eq!(stack.contract(2), Ok(()));
    assert_eq!(stack.depth(), 1);
    assert_eq!(drain(&mut stack), vec![num(8), num(6), num(11), num(12)]);
}

#[test]
fn contract_with_no_output_drops_the_inputs() {
    let mut stack = filled(&[1, 2, 3]);
    stack.extend(2).unwrap();
    assert_eq!(stack.contract(0), Ok(()));
    assert_eq!(drain(&mut stack), vec![num(1)]);
}

#[test]
fn a_frame_reaches_only_its_inputs() {
    let mut stack = filled(&[1, 2, 3]);
    stack.extend(1).unwrap();
    assert_eq!(stack.pop(), Some(num(3)));
    assert_eq!(stack.pop(), None);
    assert_eq!(stack.len(), 2);
    assert_eq!(stack.extend(1), Err(StackError::Underflow));
    assert_eq!(stack.contract(1), Err(StackError::Underflow));
    assert_eq!(stack.name(name("x")), Err(StackError::Underflow));
    assert_eq!(stack.name_many(vec![name("x")]), Err(StackError::Underflow));
    assert_eq!(stack.depth(), 2);
    assert_eq!(stack.contract(0), Ok(()));
    assert_eq!(stack.extend(3), Err(StackError::Underflow));
    assert_eq!(stack.extend(2), Ok(()));
}

#[test]
fn without_a_frame_nothing_can_be_named() {
    let mut stack = filled(&[1]);
    assert_eq!(stack.contract(1), Ok(()));
    assert_eq!(stack.depth(), 0);
    assert_eq!(stack.contract(0), Err(StackError::NoFrame));
    assert_eq!(stack.name(name("x")), Err(StackError::NoFrame));
    assert_eq!(stack.name_many(vec![]), Err(StackError::NoFrame));
    assert_eq!(stack.pop(), Some(num(1)));
}

#[test]
fn names_stand_for_places() {
    let mut stack = filled(&[8, 6, 7, 5]);
    assert_eq!(stack.name_many(vec![name("A"), name("B")]), Ok(()));
    assert_eq!(stack.get_named(name("A")), Some(num(7)));
    assert_eq!(stack.get_named(name("B")), Some(num(5)));
    assert_eq!(stack.name(name("top")), Ok(()));
    assert_eq!(stack.get_named(name("top")), Some(num(5)));
    assert_eq!(stack.get_named(name("C")), None);
    // A name moves when it is given again
    stack.push(num(1));
    stack.name(name("A")).unwrap();
    assert_eq!(stack.get_named(name("A")), Some(num(1)));
    // A name that occurs twice in a list stands for the higher place
    stack.name_many(vec![name("d"), name("d")]).unwrap();
    assert_eq!(stack.get_named(name("d")), Some(num(1)));
}

#[test]
fn a_name_whose_value_is_gone_stands_for_nothing() {
    let mut stack = filled(&[1, 2]);
    stack.name(name("b")).unwrap();
    stack.pop();
    assert_eq!(stack.get_named(name("b")), None);
    assert_eq!(stack.set_named(name("b"), num(0)), Err(StackError::UnboundName));
    stack.push(num(3));
    assert_eq!(stack.get_named(name("b")), Some(num(3)));
}

#[test]
fn set_named_overwrites_in_place() {
    let mut stack = filled(&[1, 2, 3]);
    stack.name_many(vec![name("a"), name("b")]).unwrap();
    assert_eq!(stack.set_named(name("a"), num(20)), Ok(()));
    assert_eq!(stack.set_named(name("zz"), num(0)), Err(StackError::UnboundName));
    assert_eq!(stack.get_named(name("zz")), None);
    assert_eq!(drain(&mut stack), vec![num(1), num(20), num(3)]);
}

#[test]
fn names_of_a_frame_end_with_it() {
    let mut stack = filled(&[1, 2]);
    stack.name(name("outer")).unwrap();
    stack.extend(1).unwrap();
    // Names of the enclosing frame are visible inside
    assert_eq!(stack.get_named(name("outer")), Some(num(2)));
    stack.push(num(3));
    stack.name(name("inner")).unwrap();
    assert_eq!(stack.get_named(name("inner")), Some(num(3)));
    // The innermost frame that binds a name decides
    stack.name(name("outer")).unwrap();
    assert_eq!(stack.get_named(name("outer")), Some(num(3)));
    // An assignment reaches the frame that binds the name
    stack.extend(0).unwrap();
    assert_eq!(stack.set_named(name("inner"), num(30)), Ok(()));
    stack.contract(0).unwrap();
    assert_eq!(stack.get_named(name("inner")), Some(num(30)));
    stack.contract(1).unwrap();
    assert_eq!(stack.get_named(name("inner")), None);
    assert_eq!(stack.get_named(name("outer")), Some(num(30)));
    assert_eq!(drain(&mut stack), vec![num(1), num(30)]);
}

#[test]
fn a_copy_of_a_list_value_holds_the_same_list() {
    let mut stack = Stack::new();
    stack.push(Value::List(4));
    stack.name(name("l")).unwrap();
    assert_eq!(stack.get_named(name("l")), Some(Value::List(4)));
    assert_eq!(stack.pop(), Some(Value::List(4)));
}
