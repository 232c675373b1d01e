use stacklang::lexer::{tokenize, LexError};

#[test]
fn test_brackets() {
    let input = "[](){}";
    let tokens = tokenize(input).unwrap();
    assert_eq!(tokens.len(), 6);
    assert_eq!(tokens[0].token, "[");
    assert_eq!(tokens[1].token, "]");
    assert_eq!(tokens[2].token, "(");
    assert_eq!(tokens[3].token, ")");
    assert_eq!(tokens[4].token, "{");
    assert_eq!(tokens[5].token, "}");
}

#[test]
fn test_integers() {
    let input = "1 2 3 100 8675309 0";
    let tokens = tokenize(input).unwrap();
    assert_eq!(tokens.len(), 6);
    assert_eq!(tokens[0].token, "1");
    assert_eq!(tokens[1].token, "2");
    assert_eq!(tokens[2].token, "3");
    assert_eq!(tokens[3].token, "100");
    assert_eq!(tokens[4].token, "8675309");
    assert_eq!(tokens[5].token, "0");
}

#[test]
fn test_negative_integers() {
    let input = "-1 -2 -3 -100 -8675309 -0";
    let tokens = tokenize(input).unwrap();
    assert_eq!(tokens.len(), 6);
    assert_eq!(tokens[0].token, "-1");
    assert_eq!(tokens[1].token, "-2");
    assert_eq!(tokens[2].token, "-3");
    assert_eq!(tokens[3].token, "-100");
    assert_eq!(tokens[4].token, "-8675309");
    assert_eq!(tokens[5].token, "-0");
}

#[test]
fn test_rationals() {
    let input = "1/2 3/4 5/6 7/8 9/10";
    let tokens = tokenize(input).unwrap();
    assert_eq!(tokens.len(), 5);
    assert_eq!(tokens[0].token, "1/2");
    assert_eq!(tokens[1].token, "3/4");
    assert_eq!(tokens[2].token, "5/6");
    assert_eq!(tokens[3].token, "7/8");
    assert_eq!(tokens[4].token, "9/10");
}

#[test]
fn test_floats() {
    let input = "1.0 2.0 3.0 100.0 8675309.0 0.0";
    let tokens = tokenize(input).unwrap();
    assert_eq!(tokens.len(), 6);
    assert_eq!(tokens[0].token, "1.0");
    assert_eq!(tokens[1].token, "2.0");
    assert_eq!(tokens[2].token, "3.0");
    assert_eq!(tokens[3].token, "100.0");
    assert_eq!(tokens[4].token, "8675309.0");
    assert_eq!(tokens[5].token, "0.0");
}

#[test]
fn test_float_scientific() {
    let input = "1e1 1.1e2 1.0e3 1.0e2 8.6e6 0e0";
    let tokens = tokenize(input).unwrap();
    assert_eq!(tokens.len(), 6);
    assert_eq!(tokens[0].token, "1e1");
    assert_eq!(tokens[1].token, "1.1e2");
    assert_eq!(tokens[2].token, "1.0e3");
    assert_eq!(tokens[3].token, "1.0e2");
    assert_eq!(tokens[4].token, "8.6e6");
    assert_eq!(tokens[5].token, "0e0");
}

#[test]
fn test_hex() {
    let input = "0x1 0xFF 0xdeadbeef 0x0";
    let tokens = tokenize(input).unwrap();
    assert_eq!(tokens.len(), 4);
    assert_eq!(tokens[0].token, "0x1");
    assert_eq!(tokens[1].token, "0xFF");
    assert_eq!(tokens[2].token, "0xdeadbeef");
    assert_eq!(tokens[3].token, "0x0");
}

#[test]
fn test_binary() {
    let input = "0b1 0b1111 0b1101 0b0";
    let tokens = tokenize(input).unwrap();
    assert_eq!(tokens.len(), 4);
    assert_eq!(tokens[0].token, "0b1");
    assert_eq!(tokens[1].token, "0b1111");
    assert_eq!(tokens[2].token, "0b1101");
    assert_eq!(tokens[3].token, "0b0");
}

#[test]
fn test_strings() {
    let input = "\"\" \"hello\" \"hello world\" \"hello\\nworld\"";
    let tokens = tokenize(input).unwrap();
    assert_eq!(tokens.len(), 4);
    assert_eq!(tokens[0].token, "\"\"");
    assert_eq!(tokens[1].token, "\"hello\"");
    assert_eq!(tokens[2].token, "\"hello world\"");
    assert_eq!(tokens[3].token, "\"hello\\nworld\"");
}

#[test]
fn test_identifiers() {
    let input = "test fact camelCase snake_case";
    let tokens = tokenize(input).unwrap();
    assert_eq!(tokens.len(), 4);
    assert_eq!(tokens[0].token, "test");
    assert_eq!(tokens[1].token, "fact");
    assert_eq!(tokens[2].token, "camelCase");
    assert_eq!(tokens[3].token, "snake_case");
}

#[test]
fn test_symbolic() {
    let input = "+ - * &! | ^ ~!! <==";
    let tokens = tokenize(input).unwrap();
    assert_eq!(tokens.len(), 8);
    assert_eq!(tokens[0].token, "+");
    assert_eq!(tokens[1].token, "-");
    assert_eq!(tokens[2].token, "*");
    assert_eq!(tokens[3].token, "&!");
    assert_eq!(tokens[4].token, "|");
    assert_eq!(tokens[5].token, "^");
    assert_eq!(tokens[6].token, "~!!");
    assert_eq!(tokens[7].token, "<==");
}

#[test]
fn test_prefixed() {
    let input = "@fact !fact";
    let tokens = tokenize(input).unwrap();
    assert_eq!(tokens.len(), 4);
    assert_eq!(tokens[0].token, "@");
    assert_eq!(tokens[1].token, "fact");
    assert_eq!(tokens[2].token, "!");
    assert_eq!(tokens[3].token, "fact");
}

#[test]
fn comment_ends_the_line() {
    let tokens = tokenize("1 2 # three four\n5").unwrap();
    assert_eq!(tokens.len(), 3);
    assert_eq!(tokens[0].token, "1");
    assert_eq!(tokens[1].token, "2");
    assert_eq!(tokens[2].token, "5");
}

#[test]
fn tokens_carry_their_positions() {
    let tokens = tokenize("  ab +\r\n\n{ x }").unwrap();
    let places: Vec<(usize, usize, usize)> =
        tokens.iter().map(|t| (t.span.row, t.span.column, t.span.length)).collect();
    assert_eq!(places, vec![(0, 2, 2), (0, 5, 1), (2, 0, 1), (2, 2, 1), (2, 4, 1)]);
    assert_eq!(tokens[0].span.name, None);
    assert_eq!(tokens[0].span.to_string(), "<unknown>:0:2:2");
}

#[test]
fn unfinished_string_is_a_symbol_and_a_name() {
    let tokens = tokenize("12 \"abc").unwrap();
    assert_eq!(tokens.len(), 3);
    assert_eq!(tokens[1].token, "\"");
    assert_eq!(tokens[2].token, "abc");
    assert_ne!(LexError::NoToken { row: 0, column: 3 }, LexError::Pattern);
}

#[test]
fn names_of_the_vocabulary_are_single_tokens() {
    let tokens = tokenize("stack-push! hash-has? loop->list make-int-hash to_int n 1 - !a x-1").unwrap();
    let texts: Vec<&str> = tokens.iter().map(|t| t.token.as_str()).collect();
    assert_eq!(
        texts,
        vec!["stack-push!", "hash-has?", "loop->list", "make-int-hash", "to_int", "n", "1", "-", "!", "a", "x-1"]
    );
}

#[test]
fn dots_join_the_parts_of_a_name() {
    let tokens = tokenize("a.b.c x. 1.5 ..").unwrap();
    let texts: Vec<&str> = tokens.iter().map(|t| t.token.as_str()).collect();
    assert_eq!(texts, vec!["a.b.c", "x", ".", "1.5", ".."]);
}

#[test]
fn empty_text_has_no_tokens() {
    assert_eq!(tokenize("").unwrap().len(), 0);
    assert_eq!(tokenize("\n  \n").unwrap().len(), 0);
}

#[test]
fn characters_beyond_ascii_are_counted_one_by_one() {
    let tokens = tokenize("\"h\u{e9}\" \u{2192} x").unwrap();
    assert_eq!(tokens.len(), 3);
    assert_eq!(tokens[0].token, "\"h\u{e9}\"");
    assert_eq!(tokens[1].token, "\u{2192}");
    assert_eq!((tokens[1].span.column, tokens[1].span.length), (5, 1));
    assert_eq!(tokens[2].token, "x");
    assert_eq!(tokens[2].span.column, 7);
}
