//! Compiled regular expressions from the `regex` crate, kept together with the
//! pattern and flag they were built from so that contracts can speak of them.

use vstd::prelude::*;
use crate::text::{string_of};
use regex::{Regex, RegexBuilder};

verus! {

/// `regex::Regex`, carried opaquely.
#[verifier::external_type_specification]
#[verifier::external_body]
pub struct ExRegex(Regex);

/// What building a regex from `pattern` (with or without case folding) reports:
/// `None` when `RegexBuilder::build` succeeds, else the text of its error.
pub uninterp spec fn regex_build_error(pattern: Seq<char>, case_insensitive: bool) -> Option<Seq<char>>;

/// Whether the regex built from `pattern` matches somewhere in `haystack`
/// (`Regex::is_match`).
pub uninterp spec fn regex_is_match(pattern: Seq<char>, case_insensitive: bool, haystack: Seq<char>) -> bool;

/// The texts of the successive non-overlapping matches of the regex built from
/// `pattern` in `haystack`, left to right (`Regex::find_iter`, each `Match::as_str`).
pub uninterp spec fn regex_find_texts(pattern: Seq<char>, case_insensitive: bool, haystack: Seq<char>) -> Seq<Seq<char>>;

/// The characters that `regex::escape` prefixes with a backslash
/// (`regex_syntax::is_meta_character`).
pub open spec fn is_regex_meta(c: char) -> bool {
    c == '\\' || c == '.' || c == '+' || c == '*' || c == '?' || c == '(' || c == ')' || c == '|'
        || c == '[' || c == ']' || c == '{' || c == '}' || c == '^' || c == '$' || c == '#' || c
        == '&' || c == '-' || c == '~'
}

/// `text` with every meta character preceded by a backslash.
pub open spec fn regex_escaped(text: Seq<char>) -> Seq<char>
    decreases text.len(),
{
    if text.len() == 0 {
        seq![]
    } else if is_regex_meta(text.last()) {
        regex_escaped(text.drop_last()) + seq!['\\', text.last()]
    } else {
        regex_escaped(text.drop_last()).push(text.last())
    }
}

/// A compiled regex with the pattern and case flag it was built from.
pub struct Matcher {
    re: Regex,
    pattern: String,
    case_insensitive: bool,
}

impl Matcher {
    /// The pattern this matcher was built from.
    pub closed spec fn pattern(&self) -> Seq<char> {
        self.pattern@
    }

    /// Whether this matcher folds case.
    pub closed spec fn folds_case(&self) -> bool {
        self.case_insensitive
    }

    /// `Regex::is_match` on `haystack`.
    /// Trusted: the result is the named `regex_is_match` of the pattern and flag
    /// the regex was built from (only `compile_matcher` builds a `Matcher`).
    #[verifier::external_body]
    pub(crate) fn is_match(&self, haystack: &str) -> (res: bool)
        ensures
            res == regex_is_match(self.pattern(), self.folds_case(), haystack@),
    {
        self.re.is_match(haystack)
    }

    /// `Regex::find_iter` on `haystack`, each match's text in order.
    /// Trusted: the texts are the named `regex_find_texts` of the pattern and flag
    /// the regex was built from.
    #[verifier::external_body]
    pub(crate) fn find_texts(&self, haystack: &str) -> (res: Vec<String>)
        ensures
            res@.map_values(|t: String| t@) == regex_find_texts(
                self.pattern(),
                self.folds_case(),
                haystack@,
            ),
    {
        self.re.find_iter(haystack).map(|m| m.as_str().to_string()).collect()
    }
}

/// `RegexBuilder::new(pattern).case_insensitive(ci).build()`.
/// Trusted: the build fails exactly when `regex_build_error` names an error, with
/// that error's text; on success the matcher records `pattern` and `ci`.
#[verifier::external_body]
pub(crate) fn compile_matcher(pattern: &str, case_insensitive: bool) -> (res: Result<Matcher, String>)
    ensures
        match res {
            Ok(m) => regex_build_error(pattern@, case_insensitive) is None && m.pattern()
                == pattern@ && m.folds_case() == case_insensitive,
            Err(e) => regex_build_error(pattern@, case_insensitive) == Some(e@),
        },
{
    match RegexBuilder::new(pattern).case_insensitive(case_insensitive).build() {
        Ok(re) => Ok(Matcher { re, pattern: pattern.to_string(), case_insensitive }),
        Err(e) => Err(e.to_string()),
    }
}

/// `regex::escape`: every meta character gets a backslash in front of it, as
/// `regex_syntax::escape_into` does, and nothing else changes.
#[verifier::external_body]
pub(crate) fn escape_pattern(text: &str) -> (res: String)
    ensures
        res@ == regex_escaped(text@),
{
    regex::escape(text)
}

/// Whether `line` matches `m`.
pub fn matcher_hits(m: &Matcher, line: &[char]) -> (res: bool)
    ensures
        res == regex_is_match(m.pattern(), m.folds_case(), line@),
{
    let s = string_of(line);
    m.is_match(s.as_str())
}

} // verus!
