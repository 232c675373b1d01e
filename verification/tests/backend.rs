use sha2::{Digest, Sha256};
use stacklang::arity::DerivationReason;
use stacklang::ccode;
use stacklang::compile_c::{collect_names, compile, sanitize_name, CompileError, Templates};
use stacklang::ctext::{float_literal_text, replace_text, string_literal_text};
use stacklang::lexer::tokenize;
use stacklang::parser::parse;
use stacklang::types::Expression;

fn program(text: &str) -> Expression {
    let tokens = tokenize(text).unwrap();
    let floats = tokens.iter().map(|t| t.token.parse::<f64>().ok().map(f64::to_bits)).collect();
    parse(tokens, floats).unwrap()
}

fn templates() -> Templates {
    Templates {
        program: String::from("A /*{DEBUG}*/\nB /*{NAMES}*/C /*{BLOCKS}*/D /*{DEBUG}*/"),
        modulo: String::from("<mod>"),
        read: String::from("<read>"),
        write: String::from("<write>"),
        looping: String::from("<loop>"),
        branching: String::from("<if>"),
        cond: String::from("<cond>"),
        to_float: String::from("<to_float>"),
        to_int: String::from("<to_int>"),
        stack_new: String::from("<stack-new>"),
        stack_ref: String::from("<stack-ref>"),
        stack_set: String::from("<stack-set>"),
        stack_push: String::from("<stack-push>"),
        stack_pop: String::from("<stack-pop>"),
        stack_size: String::from("<stack-size>"),
    }
}

fn digest_of(text: &str) -> String {
    format!("{:x}", Sha256::digest(text.as_bytes()))
}

#[test]
fn plain_names_stay() {
    assert_eq!(sanitize_name("fact"), "fact");
    assert_eq!(sanitize_name("snake_case9"), "snake_case9");
    assert_eq!(sanitize_name(""), "");
}

#[test]
fn other_names_are_cleaned_and_told_apart() {
    assert_eq!(sanitize_name("hello world"), "helloworld_b94d");
    assert_eq!(sanitize_name("a-b!"), format!("ab_{}", &digest_of("a-b!")[0..4]));
    assert_eq!(sanitize_name("+"), format!("_{}", &digest_of("+")[0..4]));
    assert_ne!(sanitize_name("a-b"), sanitize_name("a+b"));
    assert_ne!(sanitize_name("a-b"), sanitize_name("ab"));
}

#[test]
fn names_are_numbered_in_the_order_of_their_first_use() {
    let ast = program("1 @b { @[a b] a !b $a } 2 @c");
    assert_eq!(collect_names(&ast), Ok(vec![String::from("b"), String::from("a"), String::from("c")]));
    assert_eq!(collect_names(&program("1 2 +")), Ok(vec![]));
    assert_eq!(collect_names(&program("@3 !4")), Ok(vec![]));
    assert_eq!(collect_names(&program("1 @[a 2]")), Err(CompileError::Malformed));
    assert_eq!(collect_names(&program("@ \"x\"")), Err(CompileError::Malformed));
    assert_eq!(collect_names(&program("$ 5")), Err(CompileError::Malformed));
}

#[test]
fn sanitized_names_are_collected() {
    let ast = program("1 @x-1");
    assert_eq!(collect_names(&ast), Ok(vec![format!("x1_{}", &digest_of("x-1")[0..4])]));
}

#[test]
fn every_mark_is_replaced() {
    assert_eq!(replace_text("a--b--c", "--", "+"), "a+b+c");
    assert_eq!(replace_text("aaa", "aa", "b"), "ba");
    assert_eq!(replace_text("abc", "", "x"), "abc");
    assert_eq!(replace_text("ab", "abc", "x"), "ab");
    assert_eq!(replace_text("abcabc", "abc", ""), "");
    assert_eq!(replace_text("x\u{e9}y", "\u{e9}", "e"), "xey");
}

#[test]
fn floats_are_written_exactly() {
    assert_eq!(float_literal_text(1.0f64.to_bits()), "0x1.0000000000000p0");
    assert_eq!(float_literal_text((-2.5f64).to_bits()), "-0x1.4000000000000p1");
    assert_eq!(float_literal_text(0.1f64.to_bits()), "0x1.999999999999ap-4");
    assert_eq!(float_literal_text(0.0f64.to_bits()), "0x0p0");
    assert_eq!(float_literal_text((-0.0f64).to_bits()), "-0x0p0");
    assert_eq!(float_literal_text(f64::INFINITY.to_bits()), "INFINITY");
    assert_eq!(float_literal_text(f64::NEG_INFINITY.to_bits()), "-INFINITY");
    assert_eq!(float_literal_text(f64::NAN.to_bits()), "NAN");
    assert_eq!(float_literal_text(5e-324f64.to_bits()), "0x0.0000000000001p-1022");
    assert_eq!(float_literal_text(f64::MAX.to_bits()), "0x1.fffffffffffffp1023");
}

#[test]
fn strings_are_escaped_for_c() {
    assert_eq!(string_literal_text("a\"b\\c\nd\te"), "\"a\\\"b\\\\c\\nd\\te\"");
    assert_eq!(string_literal_text(""), "\"\"");
}

fn head(i: usize) -> String {
    format!(
        "\nvoid block_{i}(Name *block_names) {{\n    if (block_names != NULL) block_names->boundary = true;\n    Name* names = block_names;\n\n    #ifdef DEBUG\n    fprintf(stderr, \"[DEBUG] block_{i} called --\");\n    stack_dump(names);\n    #endif\n"
    )
}

fn foot(i: usize) -> String {
    format!(
        "\n    #ifdef DEBUG\n    fprintf(stderr, \"[DEBUG] block_{i} returning --\");\n    stack_dump(names);\n    #endif\n\n    // Free names bound in this block\n    while (names != NULL && block_names != names) {{\n        Name *next = names->prev;\n        free(names);\n        names = next;\n    }}\n}}\n"
    )
}

fn enter(n: usize) -> String {
    format!("\n    // Store the current stack pointer with arity_in={n}\n    *(++frame_ptr) = (stack_ptr - {n});\n\n")
}

fn leave(n: usize) -> String {
    let mut text = format!(
        "    // Pop the block off the stack, preserving arity_out={n} values\n    Value* return_ptr = (stack_ptr - {n});\n    stack_ptr =  *(frame_ptr--);\n"
    );
    for _ in 0..n {
        text.push_str("    *(++stack_ptr) = *(++return_ptr);\n");
    }
    text
}

fn literal(tag: &str, field: &str, value: &str) -> String {
    format!("\n        {{\n            Value v = {{.type={tag}, .as_{field}={value}}};\n            *(++stack_ptr) = v;\n        }}\n    \n")
}

const NO_NAMES: &str = "\n\nchar* get_name(uint32_t index) {\n\tswitch (index) {\n\t\tdefault:\n\t\t\tfprintf(stderr, \"Undefined name for index %u\", index);\n\t\t\texit(1);\n\t}\n}\n";

#[test]
fn a_literal_is_pushed_by_the_outermost_block() {
    let text = compile(program("1"), &templates(), false).unwrap();
    let expected = format!(
        "A // #define DEBUG 1\nB {NO_NAMES}C void block_0(Name *block_names);\n\n// block: 1{}{}    // 1\n{}{}{}D // #define DEBUG 1",
        head(0),
        enter(0),
        literal("TAG_NUMBER_INTEGER", "integer", "1"),
        leave(0),
        foot(0)
    );
    assert_eq!(text, expected);
}

#[test]
fn the_switch_for_debugging_is_set() {
    let text = compile(program(""), &templates(), true).unwrap();
    assert!(text.starts_with("A #define DEBUG 1\nB "));
    assert!(text.ends_with("D #define DEBUG 1"));
}

#[test]
fn a_block_becomes_a_function_of_its_own() {
    let text = compile(program("{ @[n] n 1.5 + } @inc 5 inc writeln"), &templates(), false).unwrap();
    // The names and their numbers
    assert!(text.contains("#define NAME_n 0\n#define NAME_inc 1\n\n#define NAME_INDEX_0 n\n#define NAME_INDEX_1 inc\n\n"));
    assert!(text.contains("\t\tcase 0: return \"n\";\n\t\tcase 1: return \"inc\";\n\t\tdefault:"));
    // Two functions, declared before they are defined
    assert!(text.contains("C void block_0(Name *block_names);\nvoid block_1(Name *block_names);\n\n// block: {@[n] n 0x1.8000000000000p0 +} @inc 5 inc writeln"));
    assert!(text.contains(&format!("\n// block: @[n] n 0x1.8000000000000p0 +{}{}", head(1), enter(1))));
    assert!(text.contains(&leave(1)));
    // The block is pushed by its number, the name is bound to it and called through it
    assert!(text.contains(".as_block=(void*)block_1};"));
    assert!(text.contains("names = names_bind(names, NAME_inc, p);"));
    assert!(text.contains("Value* v = names_lookup(names, NAME_inc);\n            if (v->type == TAG_BLOCK) {"));
    assert!(text.contains("Value *p = (stack_ptr - 1 + 0 + 1);\n            names = names_bind(names, NAME_n, p);"));
    assert!(text.contains(&literal("TAG_NUMBER_FLOAT", "float", "0x1.8000000000000p0")));
    assert!(text.contains("    // writeln\n<write>\nprintf(\"\\n\");\n"));
    assert!(text.contains(".as_float=a->as_float + b->as_float};"));
}

#[test]
fn built_ins_take_their_c_from_the_templates() {
    let text = compile(
        program("read to_int to_float % [1 \"a\"] stack-size true { @0 1 } { @0 2 } if loop cond make-list stack-ref stack-set! stack-push! stack-pop! newline write 1 2 <= !x $y"),
        &templates(),
        false,
    )
    .unwrap();
    for piece in [
        "<read>\n", "<to_int>\n", "<to_float>\n", "<mod>\n", "<stack-size>\n", "<if>\n", "<loop>\n",
        "<cond>\n", "<stack-new>\n", "<stack-ref>\n", "<stack-set>\n", "<stack-push>\n",
        "<stack-pop>\n", "    // newline\nprintf(\"\\n\");\n", "<write>\n",
        ".as_boolean=a->as_integer <= b->as_integer};",
        "names_update(names, NAME_x, v);",
        "Value* v = names_lookup(names, NAME_y);\n            *(++stack_ptr) = *v;",
        "\t{\n\t\tValue s = {.type=TAG_STACK, .as_stack=vs_init()};\n    // 1\n",
        "\t\tvs_push(s.as_stack, *(stack_ptr--)); // Push 1\n",
        "\t\tvs_push(s.as_stack, *(stack_ptr--)); // Push a\n\t\t*(++stack_ptr) = s;\n\n\t}\n",
        ".as_string=\"a\"};", ".as_boolean=true};",
    ] {
        assert!(text.contains(piece), "missing {:?}", piece);
    }
}

#[test]
fn what_cannot_be_compiled() {
    let t = templates();
    assert_eq!(compile(program("a.b"), &t, false), Err(CompileError::Unsupported));
    assert_eq!(compile(program("1/2"), &t, false).unwrap().contains("NAME_"), true);
    assert_eq!(compile(program("apply"), &t, false), Err(CompileError::Unsupported));
    assert_eq!(compile(program("make-hash"), &t, false), Err(CompileError::Unsupported));
    assert_eq!(compile(program("1 @[a 2]"), &t, false), Err(CompileError::Malformed));
    assert_eq!(compile(Expression::Block(vec![]), &t, false), Err(CompileError::NotAGroup));
    match compile(program("{ nope }"), &t, false) {
        Err(CompileError::Derivation(e)) => assert_eq!(e.reason, DerivationReason::UnknownIdentifier),
        other => panic!("{:?}", other),
    }
    let rational = Expression::Group(vec![Expression::Literal(stacklang::types::Value::Number(
        stacklang::numbers::Number::Rational { numerator: 1, denominator: 2 },
    ))]);
    assert_eq!(compile(rational, &t, false), Err(CompileError::Unsupported));
}

#[test]
fn c_code_is_indented_by_its_depth() {
    let code = ccode::CCode::Block {
        prefix: Some(String::from("if (x)")),
        body: vec![
            ccode::CCode::Line(String::from("a();")),
            ccode::CCode::Block { prefix: None, body: vec![ccode::CCode::Line(String::from("b();"))] },
        ],
    };
    assert_eq!(code.to_string(0), "if (x) {\n\ta();\n\t{\n\t\tb();\n\t}\n}\n");
    assert_eq!(code.to_string(1), "\tif (x) {\n\t\ta();\n\t\t{\n\t\t\tb();\n\t\t}\n\t}\n");
    assert_eq!(ccode::CCode::Line(String::from("x;")).to_string(2), "\t\tx;\n");
    assert_eq!(ccode::CCode::Block { prefix: None, body: vec![] }.to_string(0), "{\n}\n");
}
