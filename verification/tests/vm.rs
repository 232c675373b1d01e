use stacklang::lexer::tokenize;
use stacklang::machine::{Comparison, EvalError, Operator, Reply, Signal};
use stacklang::numbers::{Number, NumberKind};
use stacklang::parser::parse;
use stacklang::render::Fragment;
use stacklang::types::{Expression, Value};
use stacklang::vm::VM;

fn to_float(n: Number) -> f64 {
    match n {
        Number::Integer(v) => v as f64,
        Number::Rational { numerator, denominator } => numerator as f64 / denominator as f64,
        Number::Float(bits) => f64::from_bits(bits),
        Number::Complex { real, .. } => f64::from_bits(real),
    }
}

fn float_text(bits: u64) -> String {
    f64::from_bits(bits).to_string()
}

fn text_of(fragments: &Vec<Fragment>) -> String {
    let mut out = String::new();
    for fragment in fragments {
        match fragment {
            Fragment::Text(t) => out.push_str(t),
            Fragment::Float(bits) => out.push_str(&float_text(*bits)),
            Fragment::Complex { real, imaginary } => {
                let im = f64::from_bits(*imaginary);
                out.push_str(&float_text(*real));
                if !(im < 0.0) {
                    out.push('+');
                }
                out.push_str(&im.to_string());
                out.push('i');
            }
        }
    }
    out
}

/// Runs a program to its end, doing outside what the machine asks for.
fn run_with(text: &str, input: &[&str], budget: usize) -> (Result<(), EvalError>, String) {
    let tokens = tokenize(text).unwrap();
    let floats = tokens.iter().map(|t| t.token.parse::<f64>().ok().map(f64::to_bits)).collect();
    let program = parse(tokens, floats).unwrap();
    let mut vm = VM::new();
    vm.evaluate(program);
    let mut output = String::new();
    let mut lines = input.iter();
    let mut reply = Reply::Nothing;
    for _ in 0..budget {
        let signal = vm.run(reply, 64);
        reply = Reply::Nothing;
        match signal {
            Signal::Continue => {}
            Signal::Done => return (Ok(()), output),
            Signal::Failed(e) => return (Err(e), output),
            Signal::Write(fragments) => output.push_str(&text_of(&fragments)),
            Signal::Read => {
                reply = match lines.next() {
                    Some(line) => Reply::Line(format!("{}\n", line)),
                    None => Reply::Refused,
                }
            }
            Signal::Arithmetic { operator, left, right } => {
                let (a, b) = (to_float(left), to_float(right));
                let r = match operator {
                    Operator::Add => a + b,
                    Operator::Subtract => a - b,
                    Operator::Multiply => a * b,
                    Operator::Divide => a / b,
                    Operator::Remainder => a % b,
                };
                reply = Reply::Number(Number::Float(r.to_bits()));
            }
            Signal::Compare { comparison, left, right } => {
                let (a, b) = (to_float(left), to_float(right));
                reply = Reply::Boolean(match comparison {
                    Comparison::Less => a < b,
                    Comparison::LessOrEqual => a <= b,
                    Comparison::Equal => a == b,
                    Comparison::NotEqual => a != b,
                    Comparison::GreaterOrEqual => a >= b,
                    Comparison::Greater => a > b,
                });
            }
            Signal::Convert { target, value } => {
                reply = match target {
                    NumberKind::Integer => Reply::Number(Number::Integer(to_float(value) as i64)),
                    NumberKind::Float => Reply::Number(Number::Float(to_float(value).to_bits())),
                    _ => Reply::Refused,
                };
            }
            Signal::ParseFloat(text) => {
                reply = match text.parse::<f64>() {
                    Ok(v) => Reply::Number(Number::Float(v.to_bits())),
                    Err(_) => Reply::Refused,
                };
            }
        }
    }
    panic!("the program did not come to an end");
}

fn run(text: &str) -> (Result<(), EvalError>, String) {
    run_with(text, &[], 100_000)
}

fn output_of(text: &str) -> String {
    let (result, output) = run(text);
    assert_eq!(result, Ok(()));
    output
}

#[test]
fn adds_two_integers() {
    assert_eq!(output_of("5 3 + writeln"), "8\n");
}

#[test]
fn calls_a_named_block() {
    assert_eq!(output_of("{ @[n] n 1 + } @inc 5 inc writeln"), "6\n");
    assert_eq!(output_of("{ @[n] n 1 + } @inc 5 $inc apply writeln"), "6\n");
}

#[test]
fn factorial_by_recursion() {
    let program = "
{
  @[n fact]
  1
  { @0 n 1 - $fact fact n * }
  n 1 < if
} @fact

5 $fact fact writeln";
    assert_eq!(output_of(program), "120\n");
    let ten = "{ @[n fact] 1 { @0 n 1 - $fact fact n * } n 1 < if } @fact 10 $fact fact writeln";
    assert_eq!(output_of(ten), "3628800\n");
}

#[test]
fn factorial_with_the_block_found_by_name_at_call_time() {
    // The inner block finds `fact` in the outermost frame when it runs.
    let program = "{ @[n] 1 { @0 n 1 - fact n * } n 1 < if } @fact 5 fact writeln";
    assert_eq!(output_of(program), "120\n");
}

#[test]
fn unsupported_operator_fails_without_output() {
    let (result, output) = run("true false & writeln");
    assert_eq!(result, Err(EvalError::UnknownIdentifier(String::from("&"))));
    assert_eq!(output, "");
}

#[test]
fn mutual_recursion_resolves_names_at_call_time() {
    let program = "
{ @[n] true { @0 n 1 - odd } n 0 = if } @even
{ @[n] false { @0 n 1 - even } n 0 = if } @odd
7 even writeln 7 odd writeln 10 even writeln";
    assert_eq!(output_of(program), "false\ntrue\ntrue\n");
}

#[test]
fn names_of_a_block_end_with_the_block() {
    let (result, output) = run("{ @[n] n @inner  inner 1 + } @f 5 f writeln inner");
    assert_eq!(output, "6\n");
    assert_eq!(result, Err(EvalError::UnknownIdentifier(String::from("inner"))));
}

#[test]
fn a_list_under_two_names_is_one_list() {
    let program = "make-list @a a @b a 5 stack-push! b stack-size writeln b writeln
        b 0 7 stack-set! a 0 stack-ref writeln a stack-pop! writeln b writeln";
    assert_eq!(output_of(program), "1\n[5]\n7\n7\n[]\n");
}

#[test]
fn list_literals_and_accessors() {
    assert_eq!(output_of("[1 2 3] writeln"), "[1, 2, 3]\n");
    assert_eq!(output_of("[3 [4 5] \"x\"] writeln"), "[3, [4, 5], x]\n");
    // Each child of a list stands for itself: an operator finds nothing to take
    assert_eq!(run("[1 2 +]").0, Err(EvalError::StackUnderflow));
    let program = "[1 2 3] @l l writeln l stack-size writeln l stack-pop! @x l writeln \
                   l 5 stack-push! l writeln l 1 stack-ref writeln";
    assert_eq!(output_of(program), "[1, 2, 3]\n3\n[1, 2]\n[1, 2, 5]\n2\n");
}

#[test]
fn list_errors() {
    assert_eq!(run("make-list stack-pop!").0, Err(EvalError::EmptyCollection));
    assert_eq!(run("[1 2] 2 stack-ref").0, Err(EvalError::IndexOutOfBounds));
    assert_eq!(run("[1 2] -1 stack-ref").0, Err(EvalError::IndexOutOfBounds));
    assert_eq!(run("[1 2] 5 0 stack-set!").0, Err(EvalError::IndexOutOfBounds));
    assert_eq!(run("1 2 stack-ref").0, Err(EvalError::TypeMismatch));
    assert_eq!(run("[1] true stack-ref").0, Err(EvalError::TypeMismatch));
}

#[test]
fn hashes() {
    let program = "make-hash @h h \"a\" 1 hash-set! h \"b\" 2 hash-set! h \"a\" 3 hash-set! \
                   h \"a\" hash-get writeln h \"b\" hash-has? writeln h \"c\" hash-has? writeln \
                   h writeln";
    assert_eq!(output_of(program), "3\ntrue\nfalse\nHash<a:3, b:2>\n");
    let program = "make-int-hash @h h 7 \"x\" hash-set! h -2 [1] hash-set! h 7 hash-get writeln \
                   h 8 hash-has? writeln h writeln";
    assert_eq!(output_of(program), "x\nfalse\nIntHash<7:x, -2:[1]>\n");
    assert_eq!(run("make-hash \"k\" hash-get").0, Err(EvalError::IndexOutOfBounds));
    assert_eq!(run("make-hash 1 hash-get").0, Err(EvalError::TypeMismatch));
    assert_eq!(run("make-int-hash \"k\" 1 hash-set!").0, Err(EvalError::TypeMismatch));
}

#[test]
fn conditionals() {
    assert_eq!(output_of("\"yes\" \"no\" true if writeln"), "yes\n");
    assert_eq!(output_of("\"yes\" \"no\" false if writeln"), "no\n");
    assert_eq!(output_of("{ @0 1 2 + } 0 1 2 < if writeln"), "3\n");
    assert_eq!(output_of("{ @0 !0 \"in\" writeln } true when \"out\" writeln"), "in\nout\n");
    assert_eq!(output_of("{ @0 !0 \"in\" writeln } false when \"out\" writeln"), "out\n");
    assert_eq!(run("1 2 3 if").0, Err(EvalError::TypeMismatch));
    assert_eq!(run("1 true if").0, Err(EvalError::StackUnderflow));
}

#[test]
fn cond_takes_the_first_true_test() {
    let program = "{ @[n] [ { @0 n 0 < } \"negative\" { @0 n 0 = } \"zero\" \"positive\" ] cond } @sign
        -5 sign writeln 0 sign writeln 9 sign writeln";
    assert_eq!(output_of(program), "negative\nzero\npositive\n");
    assert_eq!(output_of("[ { @0 false } 1 { @0 true } { @0 2 3 * } 4 ] cond writeln"), "6\n");
    assert_eq!(run("make-list cond").0, Err(EvalError::IndexOutOfBounds));
    assert_eq!(run("[ 1 2 3 ] cond").0, Err(EvalError::TypeMismatch));
    assert_eq!(run("[ { @0 1 } 2 3 ] cond").0, Err(EvalError::TypeMismatch));
}

#[test]
fn loops() {
    assert_eq!(output_of("{ @[i] !0 i write } 4 loop newline"), "0123\n");
    assert_eq!(output_of("{ @[c] !0 c write \"-\" write } \"abc\" loop"), "a-b-c-");
    assert_eq!(output_of("{ @[v] !0 v 2 * writeln } [1 2 3] loop"), "2\n4\n6\n");
    assert_eq!(output_of("{ @[i] i 2 * } 10 loop->list writeln"),
               "[0, 2, 4, 6, 8, 10, 12, 14, 16, 18]\n");
    assert_eq!(output_of("{ @[i] i 2 * } 3 generate-stack writeln"), "[0, 2, 4]\n");
    assert_eq!(output_of("1 @acc { @[i] !0 acc i 1 + * !acc } 10 loop acc writeln"), "3628800\n");
    assert_eq!(run("{ @[i] i } -1 loop").0, Err(EvalError::TypeMismatch));
    assert_eq!(run("{ @[i] i } true loop").0, Err(EvalError::TypeMismatch));
    assert_eq!(run("5 3 loop").0, Err(EvalError::TypeMismatch));
    assert_eq!(output_of("5 0 loop \"none\" writeln"), "none\n");
}

#[test]
fn integer_arithmetic_and_comparisons() {
    assert_eq!(output_of("7 2 - writeln 7 2 * writeln 7 2 / writeln 7 2 % writeln"), "5\n14\n3\n1\n");
    assert_eq!(output_of("-7 2 / writeln -7 2 % writeln"), "-3\n-1\n");
    assert_eq!(
        output_of("1 2 < writeln 2 2 <= writeln 2 2 = writeln 2 3 != writeln 1 2 >= writeln 1 2 > writeln"),
        "true\ntrue\ntrue\ntrue\nfalse\nfalse\n"
    );
    assert_eq!(output_of("9223372036854775807 1 + writeln"), "-9223372036854775808\n");
    assert_eq!(run("1 0 /").0, Err(EvalError::Arithmetic));
    assert_eq!(run("1 0 %").0, Err(EvalError::Arithmetic));
    assert_eq!(run("-9223372036854775808 -1 /").0, Err(EvalError::Arithmetic));
    assert_eq!(run("1 true +").0, Err(EvalError::TypeMismatch));
    assert_eq!(run("true [1] <").0, Err(EvalError::TypeMismatch));
    assert_eq!(run("1 +").0, Err(EvalError::StackUnderflow));
}

#[test]
fn floats_are_computed_outside() {
    assert_eq!(output_of("1 2.5 + writeln"), "3.5\n");
    assert_eq!(output_of("1.5 2 * writeln"), "3\n");
    assert_eq!(output_of("1 1.5 < writeln 2 1.5 < writeln"), "true\nfalse\n");
    assert_eq!(output_of("2.75 to_int writeln 3 to_float 0.5 + writeln"), "2\n3.5\n");
    assert_eq!(output_of("\"42\" to_int 1 + writeln \"1.25\" to_float writeln"), "43\n1.25\n");
    assert_eq!(run("\"x\" to_int").0, Err(EvalError::TypeMismatch));
    assert_eq!(run("\"x\" to_float").0, Err(EvalError::TypeMismatch));
    assert_eq!(run("true to_int").0, Err(EvalError::TypeMismatch));
}

#[test]
fn asks_for_exactly_the_two_operands() {
    let program = Expression::Group(vec![
        Expression::Literal(Value::Number(Number::Integer(1))),
        Expression::Literal(Value::Number(Number::Float(2.5f64.to_bits()))),
        Expression::Identifier(String::from("+")),
    ]);
    let mut vm = VM::new();
    vm.evaluate(program);
    let signal = vm.run(Reply::Nothing, 100);
    assert_eq!(
        signal,
        Signal::Arithmetic {
            operator: Operator::Add,
            left: Number::Integer(1),
            right: Number::Float(2.5f64.to_bits())
        }
    );
    assert_eq!(vm.stack().len(), 0);
    // An answer of the wrong kind ends the run
    assert_eq!(vm.step(Reply::Boolean(true)), Signal::Failed(EvalError::UnexpectedReply));
    assert_eq!(vm.step(Reply::Nothing), Signal::Done);
}

#[test]
fn reads_lines() {
    let (result, output) = run_with("read read 1 to_int writeln writeln writeln", &["ab", "7"], 100);
    assert_eq!(result, Ok(()));
    assert_eq!(output, "1\n7\nab\n");
    assert_eq!(run_with("read", &[], 100).0, Err(EvalError::TypeMismatch));
}

#[test]
fn values_are_written_as_texts() {
    assert_eq!(output_of("{ @2 !3 + } writeln"), "{2->3}\n");
    assert_eq!(output_of("\"hello world\" write true writeln"), "hello worldtrue\n");
    assert_eq!(output_of("-12 writeln 0 writeln"), "-12\n0\n");
    assert_eq!(output_of("{ 1 + } writeln"), "{1->1}\n");
}

#[test]
fn a_list_that_holds_itself_is_cut_off() {
    // One container in the store: it is opened once
    assert_eq!(output_of("make-list @l l l stack-push! l writeln"), "[...]\n");
    assert_eq!(output_of("make-list @l make-list @m l m stack-push! m l stack-push! l writeln"),
               "[[...]]\n");
    assert_eq!(output_of("make-list @l make-list @m l m stack-push! l writeln"), "[[]]\n");
}

#[test]
fn malformed_expressions_fail() {
    assert_eq!(run("a.b").0, Err(EvalError::Malformed));
    assert_eq!(run("1 @[a 2]").0, Err(EvalError::Malformed));
    assert_eq!(run("@ \"x\"").0, Err(EvalError::Malformed));
    assert_eq!(run("1 ! \"x\"").0, Err(EvalError::Malformed));
    assert_eq!(run("$5").0, Err(EvalError::Malformed));
    assert_eq!(run("@x").0, Err(EvalError::StackUnderflow));
    assert_eq!(run("1 @[a b]").0, Err(EvalError::StackUnderflow));
    assert_eq!(run("1 !x").0, Err(EvalError::UnknownIdentifier(String::from("x"))));
    assert_eq!(run("$x").0, Err(EvalError::UnknownIdentifier(String::from("x"))));
    assert!(matches!(run("{ nope }").0, Err(EvalError::Derivation(_))));
}

#[test]
fn a_block_sees_only_its_inputs() {
    // The block declares no input but takes two values
    assert_eq!(run("1 2 { @0 + } apply").0, Err(EvalError::StackUnderflow));
    // The block declares more outputs than it leaves
    assert_eq!(run("{ @0 !2 1 } apply").0, Err(EvalError::StackUnderflow));
    // What a block leaves beyond its outputs is dropped
    assert_eq!(output_of("{ @1 !1 1 2 3 } @f 9 f writeln"), "3\n");
}

#[test]
fn rebinding_reaches_the_enclosing_frame() {
    assert_eq!(output_of("1 @x { @0 !0 5 !x } apply x writeln"), "5\n");
    assert_eq!(output_of("1 @x 2 @x x writeln"), "2\n");
}

#[test]
fn a_block_that_is_its_own_input_calls_itself_without_end() {
    // `inc` takes the block that `$inc` pushed as its input `n`, and `n` calls it again
    let tokens = tokenize("{ @[n] n 1 + } @inc 5 $inc inc writeln").unwrap();
    let program = parse(tokens, vec![]).unwrap();
    let mut vm = VM::new();
    vm.evaluate(program);
    assert_eq!(vm.run(Reply::Nothing, 10_000), Signal::Continue);
    let pending = vm.pending();
    assert_eq!(vm.run(Reply::Nothing, 10_000), Signal::Continue);
    assert!(vm.pending() > pending);
    assert_eq!(vm.stack().len(), 3);
}

#[test]
fn run_stops_at_the_first_signal_and_after_its_steps() {
    let tokens = tokenize("1 2 3 write 4").unwrap();
    let program = parse(tokens, vec![]).unwrap();
    let mut vm = VM::new();
    vm.evaluate(program);
    // One step unfolds the group, two more push 1 and 2
    assert_eq!(vm.run(Reply::Nothing, 3), Signal::Continue);
    assert_eq!((vm.stack().len(), vm.pending()), (2, 3));
    assert_eq!(vm.run(Reply::Nothing, 0), Signal::Continue);
    assert_eq!((vm.stack().len(), vm.pending()), (3, 2));
    assert_eq!(vm.run(Reply::Nothing, 100), Signal::Write(vec![Fragment::Text(String::from("3"))]));
    assert_eq!((vm.stack().len(), vm.pending()), (2, 1));
    assert_eq!(vm.run(Reply::Line(String::from("ignored")), 100), Signal::Done);
    assert_eq!((vm.stack().len(), vm.pending()), (3, 0));
    assert_eq!(vm.run(Reply::Nothing, 100), Signal::Done);
}
