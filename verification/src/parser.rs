//! The parser: tokens to the expression tree, by a simple grammar of
//! prefixes and brackets.
//!
//! Whether a token reads as a float is not decided here, since that takes
//! floating-point arithmetic: the caller hands in, beside the tokens, the
//! bit pattern of the float that each token reads as, if it reads as one.

use crate::lexer::token_views;
use crate::numbers::Number;
use crate::text::{chars_of, same_text, string_from};
use crate::types::{
    expression_views, lemma_expression_views_push, Expression, ExpressionView, Token, TokenView,
    Value, ValueView,
};
use vstd::prelude::*;

verus! {

/// Why a list of tokens is no program.
#[derive(Clone, Copy, Debug, PartialEq, Eq, Structural)]
pub enum ParseError {
    /// A prefix (`@`, `!` or `$`) stands at the end, with nothing to apply
    /// to.
    UnexpectedEnd,
}

/// The value of a decimal digit; `None` for any other character.
pub open spec fn digit_value(c: char) -> Option<nat> {
    if c == '0' {
        Some(0)
    } else if c == '1' {
        Some(1)
    } else if c == '2' {
        Some(2)
    } else if c == '3' {
        Some(3)
    } else if c == '4' {
        Some(4)
    } else if c == '5' {
        Some(5)
    } else if c == '6' {
        Some(6)
    } else if c == '7' {
        Some(7)
    } else if c == '8' {
        Some(8)
    } else if c == '9' {
        Some(9)
    } else {
        None
    }
}

/// Whether every character is a decimal digit.
pub open spec fn all_digits(text: Seq<char>) -> bool {
    forall|i: int| 0 <= i < text.len() ==> (#[trigger] digit_value(text[i])) is Some
}

/// The number that a row of decimal digits writes.
pub open spec fn decimal_value(digits: Seq<char>) -> nat
    decreases digits.len(),
{
    if digits.len() == 0 {
        0
    } else {
        decimal_value(digits.drop_last()) * 10 + (match digit_value(digits.last()) {
            Some(d) => d,
            None => 0,
        })
    }
}

/// The integer that a text reads as: an optional `+` or `-`, then at
/// least one decimal digit and nothing else, with a value that a 64-bit
/// integer holds.
pub open spec fn integer_reading(text: Seq<char>) -> Option<int> {
    let signed = text.len() > 0 && (text[0] == '-' || text[0] == '+');
    let digits = if signed {
        text.drop_first()
    } else {
        text
    };
    let value = if signed && text[0] == '-' {
        -(decimal_value(digits) as int)
    } else {
        decimal_value(digits) as int
    };
    if digits.len() > 0 && all_digits(digits) && i64::MIN <= value <= i64::MAX {
        Some(value)
    } else {
        None
    }
}

/// The number of double quotes that a text starts with.
pub open spec fn leading_quotes(text: Seq<char>) -> nat
    decreases text.len(),
{
    if text.len() > 0 && text[0] == '"' {
        1 + leading_quotes(text.drop_first())
    } else {
        0
    }
}

/// The number of double quotes that a text ends with.
pub open spec fn trailing_quotes(text: Seq<char>) -> nat
    decreases text.len(),
{
    if text.len() > 0 && text.last() == '"' {
        1 + trailing_quotes(text.drop_last())
    } else {
        0
    }
}

/// A text without the double quotes at its start and at its end.
pub open spec fn without_quotes(text: Seq<char>) -> Seq<char> {
    if leading_quotes(text) >= text.len() {
        Seq::empty()
    } else {
        text.subrange(leading_quotes(text) as int, text.len() - trailing_quotes(text))
    }
}

/// The pieces between the dots of `text` from `start` on, where the scan
/// has come to `i`.
pub open spec fn parts_from(text: Seq<char>, start: int, i: int) -> Seq<Seq<char>>
    decreases text.len() - i,
{
    if i >= text.len() || i < 0 || start < 0 || start > i {
        if 0 <= start <= text.len() {
            seq![text.subrange(start, text.len() as int)]
        } else {
            Seq::empty()
        }
    } else if text[i] == '.' {
        seq![text.subrange(start, i)] + parts_from(text, i + 1, i + 1)
    } else {
        parts_from(text, start, i + 1)
    }
}

/// The pieces between the dots of a text: one more than it has dots.
pub open spec fn dotted_parts(text: Seq<char>) -> Seq<Seq<char>> {
    parts_from(text, 0, 0)
}

/// The float reading of the token at `pos`, if one was handed in.
pub open spec fn float_at(floats: Seq<Option<u64>>, pos: int) -> Option<u64> {
    if 0 <= pos < floats.len() {
        floats[pos]
    } else {
        None
    }
}

/// What a token that is neither prefix nor bracket stands for. The first
/// of these that fits: an integer literal; a float literal; a string literal,
/// which starts with a double quote and loses its quotes; `true` or `false`;
/// a dotted identifier, cut at its dots; an identifier.
pub open spec fn leaf(text: Seq<char>, float_bits: Option<u64>) -> ExpressionView {
    if integer_reading(text) is Some {
        ExpressionView::Literal(
            ValueView::Number(Number::Integer(integer_reading(text)->Some_0 as i64)),
        )
    } else if float_bits is Some {
        ExpressionView::Literal(ValueView::Number(Number::Float(float_bits->Some_0)))
    } else if text.len() > 0 && text[0] == '"' {
        ExpressionView::Literal(ValueView::String(without_quotes(text)))
    } else if text == "true"@ || text == "false"@ {
        ExpressionView::Literal(ValueView::Boolean(text == "true"@))
    } else if text.contains('.') {
        ExpressionView::DottedIdentifier(dotted_parts(text))
    } else {
        ExpressionView::Identifier(text)
    }
}

/// The expression that starts at the token `pos`, and the place behind it.
///
/// A prefix applies to the expression that follows it. An opening bracket
/// holds the expressions up to its closing bracket. Any other token is a
/// leaf.
pub open spec fn parsed_one(tokens: Seq<TokenView>, floats: Seq<Option<u64>>, pos: nat) -> Result<
    (ExpressionView, nat),
    ParseError,
>
    decreases tokens.len() - pos, 0nat,
{
    if pos >= tokens.len() {
        Err(ParseError::UnexpectedEnd)
    } else {
        let text = tokens[pos as int].token;
        if text == "@"@ {
            match parsed_one(tokens, floats, pos + 1) {
                Ok((inner, next)) => Ok((ExpressionView::At(Box::new(inner)), next)),
                Err(f) => Err(f),
            }
        } else if text == "!"@ {
            match parsed_one(tokens, floats, pos + 1) {
                Ok((inner, next)) => Ok((ExpressionView::Bang(Box::new(inner)), next)),
                Err(f) => Err(f),
            }
        } else if text == "$"@ {
            match parsed_one(tokens, floats, pos + 1) {
                Ok((inner, next)) => Ok((ExpressionView::Dollar(Box::new(inner)), next)),
                Err(f) => Err(f),
            }
        } else if text == "{"@ {
            match parsed_until(tokens, floats, pos + 1, Some("}"@)) {
                Ok((children, next)) => Ok((ExpressionView::Block(children), next)),
                Err(f) => Err(f),
            }
        } else if text == "["@ {
            match parsed_until(tokens, floats, pos + 1, Some("]"@)) {
                Ok((children, next)) => Ok((ExpressionView::List(children), next)),
                Err(f) => Err(f),
            }
        } else if text == "("@ {
            match parsed_until(tokens, floats, pos + 1, Some(")"@)) {
                Ok((children, next)) => Ok((ExpressionView::Group(children), next)),
                Err(f) => Err(f),
            }
        } else {
            Ok((leaf(text, float_at(floats, pos as int)), pos + 1))
        }
    }
}

/// The expressions from the token `pos` up to the token `ending`, and the
/// place behind that token. Without an `ending`, or where it never comes,
/// the expressions run to the end of the tokens.
pub open spec fn parsed_until(
    tokens: Seq<TokenView>,
    floats: Seq<Option<u64>>,
    pos: nat,
    ending: Option<Seq<char>>,
) -> Result<(Seq<ExpressionView>, nat), ParseError>
    decreases tokens.len() - pos, 1nat,
{
    if pos >= tokens.len() {
        Ok((Seq::empty(), pos))
    } else if ending == Some(tokens[pos as int].token) {
        Ok((Seq::empty(), pos + 1))
    } else {
        match parsed_one(tokens, floats, pos) {
            Err(f) => Err(f),
            Ok((first, next)) => if pos < next <= tokens.len() {
                match parsed_until(tokens, floats, next, ending) {
                    Err(f) => Err(f),
                    Ok((rest, end)) => Ok((seq![first] + rest, end)),
                }
            } else {
                Err(ParseError::UnexpectedEnd)
            },
        }
    }
}

/// The program that a list of tokens stands for: the group of all its
/// expressions.
pub open spec fn parsed(tokens: Seq<TokenView>, floats: Seq<Option<u64>>) -> Result<
    ExpressionView,
    ParseError,
> {
    match parsed_until(tokens, floats, 0, None) {
        Ok((children, _)) => Ok(ExpressionView::Group(children)),
        Err(f) => Err(f),
    }
}

fn digit_of(c: char) -> (r: Option<u8>)
    ensures
        match r {
            Some(d) => digit_value(c) == Some(d as nat) && d < 10,
            None => digit_value(c) is None,
        },
{
    if c == '0' {
        Some(0)
    } else if c == '1' {
        Some(1)
    } else if c == '2' {
        Some(2)
    } else if c == '3' {
        Some(3)
    } else if c == '4' {
        Some(4)
    } else if c == '5' {
        Some(5)
    } else if c == '6' {
        Some(6)
    } else if c == '7' {
        Some(7)
    } else if c == '8' {
        Some(8)
    } else if c == '9' {
        Some(9)
    } else {
        None
    }
}

/// Reads a text as a 64-bit integer.
pub fn read_integer(text: &Vec<char>) -> (r: Option<i64>)
    ensures
        match r {
            Some(v) => integer_reading(text@) == Some(v as int),
            None => integer_reading(text@) is None,
        },
{
    let n: usize = text.len();
    if n == 0 {
        return None;
    }
    let negative: bool = text[0] == '-';
    let first: usize = if text[0] == '-' || text[0] == '+' {
        1
    } else {
        0
    };
    if first == n {
        return None;
    }
    let ghost digits = if first == 1 {
        text@.drop_first()
    } else {
        text@
    };
    let limit: u128 = 0x8000_0000_0000_0000;
    let mut value: u128 = 0;
    let mut too_large: bool = false;
    let mut i: usize = first;
    assert(digits.take(0) =~= Seq::<char>::empty());
    while i < n
        invariant
            first <= i <= n,
            n == text.len(),
            first <= 1,
            digits.len() == n - first,
            (first == 1) == (text@[0] == '-' || text@[0] == '+'),
            digits == (if first == 1 {
                text@.drop_first()
            } else {
                text@
            }),
            forall|j: int| 0 <= j < digits.len() ==> digits[j] == text@[j + first],
            limit == 0x8000_0000_0000_0000,
            forall|j: int| 0 <= j < i - first ==> (#[trigger] digit_value(digits[j])) is Some,
            !too_large ==> value == decimal_value(digits.take(i - first)) && value <= limit,
            too_large ==> decimal_value(digits.take(i - first)) > limit,
        decreases n - i,
    {
        assert(digits.take(i - first + 1).drop_last() =~= digits.take(i - first));
        assert(digits.take(i - first + 1).last() == text@[i as int]);
        match digit_of(text[i]) {
            None => {
                assert(digit_value(digits[i - first]) is None);
                assert(!all_digits(digits));
                return None;
            },
            Some(d) => {
                if !too_large {
                    value = value * 10 + d as u128;
                    if value > limit {
                        too_large = true;
                    }
                }
            },
        }
        i = i + 1;
    }
    assert(digits.take(n - first) =~= digits);
    if too_large {
        None
    } else if negative {
        Some((-(value as i128)) as i64)
    } else if value == limit {
        None
    } else {
        Some(value as i64)
    }
}

/// A text without the double quotes at its start and at its end.
pub fn trim_quotes(text: &Vec<char>) -> (r: String)
    ensures
        r@ == without_quotes(text@),
{
    let n: usize = text.len();
    let mut a: usize = 0;
    assert(text@.skip(0) =~= text@);
    while a < n && text[a] == '"'
        invariant
            a <= n,
            n == text.len(),
            leading_quotes(text@) == a + leading_quotes(text@.skip(a as int)),
        decreases n - a,
    {
        assert(text@.skip(a as int).drop_first() =~= text@.skip(a + 1));
        a = a + 1;
    }
    assert(leading_quotes(text@) == a) by {
        if a < n {
            assert(text@.skip(a as int)[0] == text@[a as int]);
        }
    }
    if a == n {
        return String::new();
    }
    let mut b: usize = n;
    assert(text@.take(n as int) =~= text@);
    while text[b - 1] == '"'
        invariant
            a < b <= n,
            n == text.len(),
            text@[a as int] != '"',
            trailing_quotes(text@) == (n - b) + trailing_quotes(text@.take(b as int)),
        decreases b,
    {
        assert(text@.take(b as int).drop_last() =~= text@.take(b - 1));
        assert(text@.take(b as int).last() == text@[b - 1]);
        b = b - 1;
    }
    assert(trailing_quotes(text@) == n - b) by {
        assert(text@.take(b as int).last() == text@[b - 1]);
    }
    string_from(text, a, b)
}

/// Whether a text holds a dot.
fn has_dot(text: &Vec<char>) -> (r: bool)
    ensures
        r == text@.contains('.'),
{
    let mut i: usize = 0;
    while i < text.len()
        invariant
            i <= text.len(),
            forall|j: int| 0 <= j < i ==> text@[j] != '.',
        decreases text.len() - i,
    {
        if text[i] == '.' {
            return true;
        }
        i = i + 1;
    }
    false
}

/// The pieces between the dots of a text.
pub fn split_dots(text: &Vec<char>) -> (r: Vec<String>)
    ensures
        crate::types::string_views(r@) == dotted_parts(text@),
{
    let n: usize = text.len();
    let mut parts: Vec<String> = Vec::new();
    let mut start: usize = 0;
    let mut i: usize = 0;
    while i < n
        invariant
            n == text.len(),
            start <= i <= n,
            crate::types::string_views(parts@) + parts_from(text@, start as int, i as int)
                == dotted_parts(text@),
        decreases n - i,
    {
        if text[i] == '.' {
            let part = string_from(text, start, i);
            let ghost before = crate::types::string_views(parts@);
            parts.push(part);
            assert(crate::types::string_views(parts@) =~= before.push(part@));
            assert(before.push(part@) + parts_from(text@, i + 1, i + 1) =~= before + (seq![part@]
                + parts_from(text@, i + 1, i + 1)));
            start = i + 1;
        }
        i = i + 1;
    }
    let part = string_from(text, start, n);
    let ghost before = crate::types::string_views(parts@);
    parts.push(part);
    assert(crate::types::string_views(parts@) =~= before.push(part@));
    assert(before.push(part@) =~= before + seq![part@]);
    parts
}

/// What a token that is neither prefix nor bracket stands for.
fn parse_leaf(token: &Token, float_bits: Option<u64>) -> (r: Expression)
    ensures
        r@ == leaf(token@.token, float_bits),
{
    proof {
        reveal_with_fuel(crate::types::expression_view, 2);
        reveal_with_fuel(crate::types::value_view, 2);
    }
    let text = chars_of(token.token.as_str());
    match read_integer(&text) {
        Some(v) => {
            return Expression::Literal(Value::Number(Number::Integer(v)));
        },
        None => {},
    }
    match float_bits {
        Some(bits) => {
            return Expression::Literal(Value::Number(Number::Float(bits)));
        },
        None => {},
    }
    if text.len() > 0 && text[0] == '"' {
        Expression::Literal(Value::String(trim_quotes(&text)))
    } else if same_text(token.token.as_str(), "true") {
        Expression::Literal(Value::Boolean(true))
    } else if same_text(token.token.as_str(), "false") {
        Expression::Literal(Value::Boolean(false))
    } else if has_dot(&text) {
        Expression::DottedIdentifier(split_dots(&text))
    } else {
        Expression::Identifier(token.token.clone())
    }
}

/// `rest` with `before` in front of its expressions; a fault stays.
pub open spec fn expressions_after(
    before: Seq<ExpressionView>,
    rest: Result<(Seq<ExpressionView>, nat), ParseError>,
) -> Result<(Seq<ExpressionView>, nat), ParseError> {
    match rest {
        Ok((more, end)) => Ok((before + more, end)),
        Err(f) => Err(f),
    }
}

fn float_reading(floats: &Vec<Option<u64>>, pos: usize) -> (r: Option<u64>)
    ensures
        r == float_at(floats@, pos as int),
{
    if pos < floats.len() {
        floats[pos]
    } else {
        None
    }
}

fn parse_one(tokens: &Vec<Token>, floats: &Vec<Option<u64>>, pos: usize) -> (r: Result<
    (Expression, usize),
    ParseError,
>)
    ensures
        match r {
            Ok((e, next)) => parsed_one(token_views(tokens@), floats@, pos as nat) == Ok::<
                (ExpressionView, nat),
                ParseError,
            >((e@, next as nat)) && pos < next <= tokens.len(),
            Err(f) => parsed_one(token_views(tokens@), floats@, pos as nat) == Err::<
                (ExpressionView, nat),
                ParseError,
            >(f),
        },
    decreases tokens.len() - pos, 0nat,
{
    if pos >= tokens.len() {
        return Err(ParseError::UnexpectedEnd);
    }
    assert(token_views(tokens@)[pos as int] == tokens@[pos as int]@);
    let text = tokens[pos].token.as_str();
    if same_text(text, "@") {
        match parse_one(tokens, floats, pos + 1) {
            Ok((inner, next)) => Ok((Expression::At(Box::new(inner)), next)),
            Err(f) => Err(f),
        }
    } else if same_text(text, "!") {
        match parse_one(tokens, floats, pos + 1) {
            Ok((inner, next)) => Ok((Expression::Bang(Box::new(inner)), next)),
            Err(f) => Err(f),
        }
    } else if same_text(text, "$") {
        match parse_one(tokens, floats, pos + 1) {
            Ok((inner, next)) => Ok((Expression::Dollar(Box::new(inner)), next)),
            Err(f) => Err(f),
        }
    } else if same_text(text, "{") {
        match parse_until(tokens, floats, pos + 1, Some("}")) {
            Ok((children, next)) => Ok((Expression::Block(children), next)),
            Err(f) => Err(f),
        }
    } else if same_text(text, "[") {
        match parse_until(tokens, floats, pos + 1, Some("]")) {
            Ok((children, next)) => Ok((Expression::List(children), next)),
            Err(f) => Err(f),
        }
    } else if same_text(text, "(") {
        match parse_until(tokens, floats, pos + 1, Some(")")) {
            Ok((children, next)) => Ok((Expression::Group(children), next)),
            Err(f) => Err(f),
        }
    } else {
        Ok((parse_leaf(&tokens[pos], float_reading(floats, pos)), pos + 1))
    }
}

/// The text that an optional ending stands for.
pub open spec fn ending_text(ending: Option<&str>) -> Option<Seq<char>> {
    match ending {
        Some(e) => Some(e@),
        None => None,
    }
}

fn parse_until(
    tokens: &Vec<Token>,
    floats: &Vec<Option<u64>>,
    pos: usize,
    ending: Option<&str>,
) -> (r: Result<(Vec<Expression>, usize), ParseError>)
    requires
        pos <= tokens.len(),
    ensures
        match r {
            Ok((children, end)) => parsed_until(
                token_views(tokens@),
                floats@,
                pos as nat,
                ending_text(ending),
            ) == Ok::<(Seq<ExpressionView>, nat), ParseError>(
                (expression_views(children@), end as nat),
            ) && pos <= end <= tokens.len(),
            Err(f) => parsed_until(token_views(tokens@), floats@, pos as nat, ending_text(ending))
                == Err::<(Seq<ExpressionView>, nat), ParseError>(f),
        },
    decreases tokens.len() - pos, 1nat,
{
    let ghost views = token_views(tokens@);
    let ghost stop = ending_text(ending);
    let mut children: Vec<Expression> = Vec::new();
    let mut at: usize = pos;
    assert(expression_views(children@) + Seq::<ExpressionView>::empty() =~= expression_views(
        children@,
    ));
    loop
        invariant
            pos <= at <= tokens.len(),
            views == token_views(tokens@),
            stop == ending_text(ending),
            parsed_until(views, floats@, pos as nat, stop) == expressions_after(
                expression_views(children@),
                parsed_until(views, floats@, at as nat, stop),
            ),
        decreases tokens.len() - at,
    {
        if at >= tokens.len() {
            proof {
                assert(expression_views(children@) + Seq::<ExpressionView>::empty()
                    =~= expression_views(children@));
            }
            return Ok((children, at));
        }
        assert(views[at as int] == tokens@[at as int]@);
        let closes: bool = match ending {
            Some(e) => same_text(tokens[at].token.as_str(), e),
            None => false,
        };
        if closes {
            proof {
                assert(expression_views(children@) + Seq::<ExpressionView>::empty()
                    =~= expression_views(children@));
            }
            return Ok((children, at + 1));
        }
        match parse_one(tokens, floats, at) {
            Err(f) => {
                return Err(f);
            },
            Ok((child, next)) => {
                proof {
                    lemma_expression_views_push(children@, child);
                    let before = expression_views(children@);
                    assert forall|more: Seq<ExpressionView>| #[trigger]
                        (before + (seq![child@] + more)) =~= before.push(child@) + more by {}
                }
                children.push(child);
                at = next;
            },
        }
    }
}

/// Parses a vector of tokens into the expression tree of the program.
///
/// `floats` holds, for each token, the bit pattern of the float that its
/// text reads as, if it reads as one; a missing entry counts as `None`. The
/// result is exactly `parsed` of the tokens: the group of all expressions, or
/// the reason why the tokens are no program.
pub fn parse(tokens: Vec<Token>, floats: Vec<Option<u64>>) -> (r: Result<Expression, ParseError>)
    ensures
        match r {
            Ok(program) => parsed(token_views(tokens@), floats@) == Ok::<
                ExpressionView,
                ParseError,
            >(program@),
            Err(f) => parsed(token_views(tokens@), floats@) == Err::<ExpressionView, ParseError>(f),
        },
{
    match parse_until(&tokens, &floats, 0, None) {
        Ok((children, _)) => Ok(Expression::Group(children)),
        Err(f) => Err(f),
    }
}

} // verus!
