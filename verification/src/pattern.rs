//! Regular expressions, through the `regex` crate.
//!
//! A pattern is compiled once and then used many times. What it matches
//! is for the `regex` crate to say: the contracts here give each of its
//! answers a name, as a function of the text of the pattern and the text that
//! is searched, and the library's own contracts speak of those names.

use vstd::prelude::*;

verus! {

#[verifier::external_type_specification]
#[verifier::external_body]
pub struct ExRegex(regex::Regex);

/// A compiled regular expression, beside the text that it was compiled
/// from. The only way to make one is `compile`, so the two belong together.
pub struct Pattern {
    text: String,
    compiled: regex::Regex,
}

/// Whether the `regex` crate takes a text as a regular expression.
pub uninterp spec fn regex_compiles(pattern: Seq<char>) -> bool;

/// The text of the leftmost match of the regular expression `pattern` in
/// `text`, as the `regex` crate finds it; `None` where nothing matches.
pub uninterp spec fn regex_first_match(pattern: Seq<char>, text: Seq<char>) -> Option<Seq<char>>;

/// The text `text` with every match of the regular expression `pattern`
/// replaced by `with`, as the `regex` crate replaces.
pub uninterp spec fn regex_replaced(pattern: Seq<char>, text: Seq<char>, with: Seq<char>) -> Seq<
    char,
>;

impl Pattern {
    /// The text that the pattern was compiled from.
    pub closed spec fn text(&self) -> Seq<char> {
        self.text@
    }

    /// Compiles a regular expression.
    ///
    /// Trusted: calls `regex::Regex::new`, which gives an error where the
    /// text is not a regular expression or compiles to more than the crate
    /// allows, and keeps the text beside what was compiled. The contract
    /// only names whether the text compiles.
    #[verifier::external_body]
    pub(crate) fn compile(pattern: &str) -> (r: Option<Pattern>)
        ensures
            match r {
                Some(p) => p.text() == pattern@ && regex_compiles(pattern@),
                None => !regex_compiles(pattern@),
            },
    {
        match regex::Regex::new(pattern) {
            Ok(re) => Some(Pattern { text: pattern.to_string(), compiled: re }),
            Err(_) => None,
        }
    }

    /// Searches `text` for the leftmost match of the pattern.
    ///
    /// Trusted: calls `Regex::find`, which gives the first match in the
    /// text, and hands back the text of the match. The contract only names
    /// that result, for the text that the pattern was compiled from.
    #[verifier::external_body]
    pub(crate) fn first_match(&self, text: &str) -> (r: Option<String>)
        ensures
            match r {
                Some(found) => regex_first_match(self.text(), text@) == Some(found@),
                None => regex_first_match(self.text(), text@) is None,
            },
    {
        self.compiled.find(text).map(|m| m.as_str().to_string())
    }

    /// Replaces every match of the pattern in `text` by `with`.
    ///
    /// Trusted: calls `Regex::replace_all`, which replaces all
    /// non-overlapping matches and gives the text back unchanged where
    /// nothing matches. The contract only names that result, for the text
    /// that the pattern was compiled from.
    #[verifier::external_body]
    pub(crate) fn replace_all(&self, text: &str, with: &str) -> (r: String)
        ensures
            r@ == regex_replaced(self.text(), text@, with@),
    {
        self.compiled.replace_all(text, with).to_string()
    }
}

} // verus!
