//! The tokenizer: source text to a flat list of positioned tokens.
//!
//! What a token looks like is written down as a regular expression, and
//! the `regex` crate finds it. The walk along each line, the positions, the
//! comments and the failures are this module's own.

use crate::pattern::{regex_compiles, regex_first_match, Pattern};
use crate::text::{chars_of, string_from};
use crate::types::{Span, SpanView, Token, TokenView};
use substring::Substring;
use vstd::prelude::*;

verus! {

/// What a token looks like, tried in this order at the start of the text:
/// a bracket; a complex number; a float in scientific notation; a rational;
/// a hex literal; a binary literal; an integer or plain float; a string; an
/// alphanumeric identifier, which may hold `-`, `.` and `>` between its
/// parts and end in `!` or `?`, as `a.b`, `stack-push!` and `loop->list` do;
/// a symbolic identifier.
pub const TOKEN_PATTERN: &'static str =
    "^([\\{}()\\[\\]]|-?\\d+(\\.\\d*)?[+-]-?\\d+(\\.\\d*)?i|-?\\d+(\\.\\d*)?[eE]-?\\d+(\\.\\d*)?|-?\\d+/\\d+|0x[0-9a-fA-F]+|0b[01]+|-?\\d+(\\.\\d*)?|\"(\\.|[^\"])*\"|[a-zA-Z0-9_]+([-.>]+[a-zA-Z0-9_]+)*[!?]?|[^a-zA-Z0-9\\s\\{}()\\[\\]]+)";

/// Whitespace at the start of the text.
pub const WHITESPACE_PATTERN: &'static str = "^\\s+";

/// The characters of `text` from the place `start` up to the place `end`,
/// both cut down to the length of the text; nothing where `end` is not after
/// `start`.
pub open spec fn substring_of(text: Seq<char>, start: int, end: int) -> Seq<char> {
    if end <= start || start < 0 {
        Seq::empty()
    } else {
        text.subrange(
            if start < text.len() {
                start
            } else {
                text.len() as int
            },
            if end < text.len() {
                end
            } else {
                text.len() as int
            },
        )
    }
}

/// The characters of `text` in a range of places.
///
/// Trusted: calls `substring` of the `substring` crate, which counts in
/// characters, gives the empty string where `end` is not after `start`, and
/// otherwise the characters from `start` up to `end`, where a place beyond
/// the end of the text counts as the end.
#[verifier::external_body]
fn substring(text: &str, start: usize, end: usize) -> (r: String)
    ensures
        r@ == substring_of(text@, start as int, end as int),
{
    text.substring(start, end).to_string()
}

/// Why a text has no tokens.
#[derive(Clone, Copy, Debug, PartialEq, Eq, Structural)]
pub enum LexError {
    /// No token starts at this position in the source.
    NoToken { row: usize, column: usize },
    /// One of the two patterns is no regular expression.
    Pattern,
}

/// What a failed tokenization holds.
pub enum LexFault {
    NoToken { row: nat, column: nat },
    Pattern,
}

impl View for LexError {
    type V = LexFault;

    open spec fn view(&self) -> LexFault {
        match self {
            LexError::NoToken { row, column } => LexFault::NoToken {
                row: *row as nat,
                column: *column as nat,
            },
            LexError::Pattern => LexFault::Pattern,
        }
    }
}

/// The smaller of two integers.
pub open spec fn lesser(a: int, b: int) -> int {
    if a < b {
        a
    } else {
        b
    }
}

/// The text that is left after the whitespace at its start, and the number
/// of characters that were skipped.
pub open spec fn after_whitespace(rest: Seq<char>) -> (Seq<char>, nat) {
    match regex_first_match(WHITESPACE_PATTERN@, rest) {
        Some(blank) => (
            substring_of(rest, blank.len() as int, rest.len() as int),
            lesser(blank.len() as int, rest.len() as int) as nat,
        ),
        None => (rest, 0),
    }
}

/// `tokens` with `token` before them; a fault stays.
pub open spec fn token_before(
    token: TokenView,
    tokens: Result<Seq<TokenView>, LexFault>,
) -> Result<Seq<TokenView>, LexFault> {
    match tokens {
        Ok(ts) => Ok(seq![token] + ts),
        Err(f) => Err(f),
    }
}

/// The tokens of what is left of a line. `rest` starts at `column` of the
/// line `row`.
///
/// Whitespace is skipped, then the token pattern is tried. A match that
/// starts with `#` opens a comment, which ends the line. Any other match
/// that is not empty is a token, and the walk goes on behind it. Without
/// such a match the line must be at its end: else no token starts here, and
/// that is the fault.
pub open spec fn line_tokens(rest: Seq<char>, row: nat, column: nat) -> Result<
    Seq<TokenView>,
    LexFault,
>
    decreases rest.len(),
{
    let (text, skipped) = after_whitespace(rest);
    let here = column + skipped;
    match regex_first_match(TOKEN_PATTERN@, text) {
        Some(found) => if found.len() > 0 && found[0] == '#' {
            Ok(Seq::empty())
        } else if found.len() > 0 {
            let token = TokenView {
                span: SpanView { name: None, row: row, column: here, length: found.len() },
                token: found,
            };
            let behind = substring_of(text, found.len() as int, text.len() as int);
            if behind.len() == 0 {
                Ok(seq![token])
            } else if behind.len() < rest.len() {
                token_before(
                    token,
                    line_tokens(
                        behind,
                        row,
                        here + lesser(found.len() as int, text.len() as int) as nat,
                    ),
                )
            } else {
                Err(LexFault::NoToken { row: row, column: here })
            }
        } else if text.len() == 0 {
            Ok(Seq::empty())
        } else {
            Err(LexFault::NoToken { row: row, column: here })
        },
        None => if text.len() == 0 {
            Ok(Seq::empty())
        } else {
            Err(LexFault::NoToken { row: row, column: here })
        },
    }
}

/// A piece of text without the carriage return at its end, if it has one.
pub open spec fn without_carriage_return(piece: Seq<char>) -> Seq<char> {
    if piece.len() > 0 && piece.last() == '\r' {
        piece.drop_last()
    } else {
        piece
    }
}

/// The lines of `text` that start at or after `start`, where the scan has
/// come to `i`: a line ends before each newline, and the text after the last
/// newline is a line if it is not empty.
pub open spec fn lines_from(text: Seq<char>, start: int, i: int) -> Seq<Seq<char>>
    decreases text.len() - i,
{
    if i >= text.len() || i < 0 || start < 0 || start > i {
        if 0 <= start < text.len() {
            seq![without_carriage_return(text.subrange(start, text.len() as int))]
        } else {
            Seq::empty()
        }
    } else if text[i] == '\n' {
        seq![without_carriage_return(text.subrange(start, i))] + lines_from(text, i + 1, i + 1)
    } else {
        lines_from(text, start, i + 1)
    }
}

/// The lines of a text.
pub open spec fn lines_of(text: Seq<char>) -> Seq<Seq<char>> {
    lines_from(text, 0, 0)
}

/// The tokens of the first `k` lines, line after line; the fault of the
/// first line that has one.
pub open spec fn tokens_of_lines(lines: Seq<Seq<char>>, k: nat) -> Result<Seq<TokenView>, LexFault>
    decreases k,
{
    if k == 0 || k > lines.len() {
        Ok(Seq::empty())
    } else {
        match tokens_of_lines(lines, (k - 1) as nat) {
            Err(f) => Err(f),
            Ok(before) => match line_tokens(lines[k - 1], (k - 1) as nat, 0) {
                Err(f) => Err(f),
                Ok(more) => Ok(before + more),
            },
        }
    }
}

/// The tokens of a source text: those of its lines, where the two
/// patterns are regular expressions.
pub open spec fn tokens_of(source: Seq<char>) -> Result<Seq<TokenView>, LexFault> {
    if regex_compiles(TOKEN_PATTERN@) && regex_compiles(WHITESPACE_PATTERN@) {
        tokens_of_lines(lines_of(source), lines_of(source).len())
    } else {
        Err(LexFault::Pattern)
    }
}

/// The views of a sequence of tokens.
pub open spec fn token_views(tokens: Seq<Token>) -> Seq<TokenView> {
    Seq::new(tokens.len(), |i: int| tokens[i]@)
}

/// Cuts a text into its lines.
pub fn split_lines(source: &str) -> (r: Vec<String>)
    ensures
        crate::types::string_views(r@) == lines_of(source@),
{
    let chars = chars_of(source);
    let n: usize = chars.len();
    let mut lines: Vec<String> = Vec::new();
    let mut start: usize = 0;
    let mut i: usize = 0;
    while i < n
        invariant
            n == chars.len(),
            chars@ == source@,
            start <= i <= n,
            crate::types::string_views(lines@) + lines_from(chars@, start as int, i as int)
                == lines_of(chars@),
        decreases n - i,
    {
        if chars[i] == '\n' {
            let end: usize = if i > start && chars[i - 1] == '\r' {
                i - 1
            } else {
                i
            };
            let line = string_from(&chars, start, end);
            proof {
                if i > start {
                    assert(chars@.subrange(start as int, i as int).last() == chars@[i - 1]);
                    assert(chars@.subrange(start as int, i as int).drop_last() =~= chars@.subrange(
                        start as int,
                        i - 1,
                    ));
                }
                assert(line@ == without_carriage_return(chars@.subrange(start as int, i as int)));
            }
            let ghost before = crate::types::string_views(lines@);
            lines.push(line);
            assert(crate::types::string_views(lines@) =~= before.push(line@));
            assert(before.push(line@) + lines_from(chars@, i + 1, i + 1) =~= before + (seq![line@]
                + lines_from(chars@, i + 1, i + 1)));
            start = i + 1;
        }
        i = i + 1;
    }
    if start < n {
        let end: usize = if chars[n - 1] == '\r' {
            n - 1
        } else {
            n
        };
        let line = string_from(&chars, start, end);
        proof {
            assert(chars@.subrange(start as int, n as int).last() == chars@[n - 1]);
            assert(chars@.subrange(start as int, n as int).drop_last() =~= chars@.subrange(
                start as int,
                n - 1,
            ));
            assert(line@ == without_carriage_return(chars@.subrange(start as int, n as int)));
        }
        let ghost before = crate::types::string_views(lines@);
        lines.push(line);
        assert(crate::types::string_views(lines@) =~= before.push(line@));
        assert(before.push(line@) =~= before + seq![line@]);
    } else {
        assert(crate::types::string_views(lines@) + Seq::<Seq<char>>::empty()
            =~= crate::types::string_views(lines@));
    }
    lines
}

/// `tokens` with `before` in front of them; a fault stays.
pub open spec fn tokens_after(
    before: Seq<TokenView>,
    tokens: Result<Seq<TokenView>, LexFault>,
) -> Result<Seq<TokenView>, LexFault> {
    match tokens {
        Ok(ts) => Ok(before + ts),
        Err(f) => Err(f),
    }
}

/// Appends the tokens of one line to `tokens`.
fn tokenize_line(
    line: &str,
    row: usize,
    tokens: &mut Vec<Token>,
    token_pattern: &Pattern,
    blank_pattern: &Pattern,
) -> (r: Result<(), LexError>)
    requires
        token_pattern.text() == TOKEN_PATTERN@,
        blank_pattern.text() == WHITESPACE_PATTERN@,
    ensures
        match r {
            Ok(()) => line_tokens(line@, row as nat, 0) is Ok && token_views(final(tokens)@)
                == token_views(old(tokens)@) + line_tokens(line@, row as nat, 0)->Ok_0,
            Err(e) => line_tokens(line@, row as nat, 0) == Err::<Seq<TokenView>, LexFault>(e@),
        },
{
    let ghost start = token_views(tokens@);
    let ghost mut found_so_far: Seq<TokenView> = Seq::empty();
    let mut rest: String = String::from_str(line);
    let mut length: usize = rest.as_str().unicode_len();
    let mut column: usize = 0;
    assert(start + found_so_far =~= start);
    loop
        invariant
            token_pattern.text() == TOKEN_PATTERN@,
            blank_pattern.text() == WHITESPACE_PATTERN@,
            length == rest@.len(),
            column + length <= line@.len(),
            line@.len() <= usize::MAX,
            start == token_views(old(tokens)@),
            token_views(tokens@) == start + found_so_far,
            line_tokens(line@, row as nat, 0) == tokens_after(
                found_so_far,
                line_tokens(rest@, row as nat, column as nat),
            ),
        decreases length,
    {
        let ghost whole = rest@;
        let ghost came = column as nat;
        // Skip whitespace
        match blank_pattern.first_match(rest.as_str()) {
            Some(blank) => {
                let skip: usize = blank.as_str().unicode_len();
                rest = substring(rest.as_str(), skip, length);
                if skip < length {
                    column = column + skip;
                    length = length - skip;
                } else {
                    column = column + length;
                    length = 0;
                }
            },
            None => {},
        }
        assert(rest@ == after_whitespace(whole).0);
        assert(column == came + after_whitespace(whole).1);
        // Read the next token
        let found = token_pattern.first_match(rest.as_str());
        match found {
            Some(text) => {
                let size: usize = text.as_str().unicode_len();
                if size > 0 && text.as_str().get_char(0) == '#' {
                    // The rest of the line is a comment
                    proof {
                        assert(found_so_far + Seq::<TokenView>::empty() =~= found_so_far);
                    }
                    return Ok(());
                } else if size > 0 {
                    let behind = substring(rest.as_str(), size, length);
                    let token = Token {
                        span: Span { name: None, row: row, column: column, length: size },
                        token: text,
                    };
                    let ghost before = token_views(tokens@);
                    let ghost view = token@;
                    tokens.push(token);
                    proof {
                        assert(token_views(tokens@) =~= before.push(view));
                        assert(before.push(view) =~= start + (found_so_far.push(view)));
                        assert(forall|ts: Seq<TokenView>| #[trigger]
                            (found_so_far + (seq![view] + ts)) =~= found_so_far.push(view) + ts);
                        found_so_far = found_so_far.push(view);
                    }
                    if size < length {
                        column = column + size;
                        length = length - size;
                        rest = behind;
                    } else {
                        proof {
                            assert(behind@.len() == 0);
                        }
                        return Ok(());
                    }
                } else if length == 0 {
                    proof {
                        assert(found_so_far + Seq::<TokenView>::empty() =~= found_so_far);
                    }
                    return Ok(());
                } else {
                    return Err(LexError::NoToken { row: row, column: column });
                }
            },
            None => {
                if length == 0 {
                    proof {
                        assert(found_so_far + Seq::<TokenView>::empty() =~= found_so_far);
                    }
                    return Ok(());
                } else {
                    return Err(LexError::NoToken { row: row, column: column });
                }
            },
        }
    }
}

/// Tokenizes a source text into a vector of tokens.
///
/// The text is cut into lines and each line is walked from left to right.
/// The result is exactly `tokens_of` of the text: the tokens with their
/// rows and columns, or the first position at which no token starts.
pub fn tokenize(source: &str) -> (r: Result<Vec<Token>, LexError>)
    ensures
        match r {
            Ok(tokens) => tokens_of(source@) == Ok::<Seq<TokenView>, LexFault>(
                token_views(tokens@),
            ),
            Err(e) => tokens_of(source@) == Err::<Seq<TokenView>, LexFault>(e@),
        },
{
    // Compile the two patterns once
    let token_pattern = match Pattern::compile(TOKEN_PATTERN) {
        Some(p) => p,
        None => {
            return Err(LexError::Pattern);
        },
    };
    let blank_pattern = match Pattern::compile(WHITESPACE_PATTERN) {
        Some(p) => p,
        None => {
            return Err(LexError::Pattern);
        },
    };
    // Scan the input line by line tracking rows
    let lines = split_lines(source);
    let ghost texts = lines_of(source@);
    let mut tokens: Vec<Token> = Vec::new();
    let mut row: usize = 0;
    assert(token_views(tokens@) =~= Seq::<TokenView>::empty());
    while row < lines.len()
        invariant
            row <= lines.len(),
            token_pattern.text() == TOKEN_PATTERN@,
            blank_pattern.text() == WHITESPACE_PATTERN@,
            regex_compiles(TOKEN_PATTERN@),
            regex_compiles(WHITESPACE_PATTERN@),
            texts == crate::types::string_views(lines@),
            texts == lines_of(source@),
            texts.len() == lines.len(),
            tokens_of_lines(texts, row as nat) == Ok::<Seq<TokenView>, LexFault>(
                token_views(tokens@),
            ),
        decreases lines.len() - row,
    {
        assert(texts[row as int] == lines@[row as int]@);
        match tokenize_line(
            lines[row].as_str(),
            row,
            &mut tokens,
            &token_pattern,
            &blank_pattern,
        ) {
            Ok(()) => {},
            Err(e) => {
                proof {
                    assert(tokens_of_lines(texts, (row + 1) as nat) == Err::<
                        Seq<TokenView>,
                        LexFault,
                    >(e@));
                    lemma_lex_fault_stays(texts, (row + 1) as nat, texts.len());
                }
                return Err(e);
            },
        }
        row = row + 1;
    }
    Ok(tokens)
}

/// Once a line has a fault, the text has that fault however many more
/// lines follow.
proof fn lemma_lex_fault_stays(lines: Seq<Seq<char>>, k: nat, n: nat)
    requires
        1 <= k <= n <= lines.len(),
        tokens_of_lines(lines, k) is Err,
    ensures
        tokens_of_lines(lines, n) == tokens_of_lines(lines, k),
    decreases n - k,
{
    if k < n {
        lemma_lex_fault_stays(lines, k, (n - 1) as nat);
    }
}

} // verus!
