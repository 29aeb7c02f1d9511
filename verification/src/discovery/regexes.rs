//! Compiled regular expressions (the regex crate) with the patterns they
//! were compiled from.

use vstd::prelude::*;

verus! {

/// A character that regex syntax gives a meaning of its own.
pub open spec fn is_regex_meta(c: char) -> bool {
    c == '\\' || c == '.' || c == '+' || c == '*' || c == '?' || c == '(' || c == ')' || c == '|'
        || c == '[' || c == ']' || c == '{' || c == '}' || c == '^' || c == '$' || c == '#' || c
        == '&' || c == '-' || c == '~'
}

/// `s` with a backslash before every meta character, so that it matches
/// itself literally.
pub open spec fn escaped(s: Seq<char>) -> Seq<char>
    decreases s.len(),
{
    if s.len() == 0 {
        Seq::empty()
    } else if is_regex_meta(s.last()) {
        escaped(s.drop_last()).push('\\').push(s.last())
    } else {
        escaped(s.drop_last()).push(s.last())
    }
}

/// Escapes the meta characters of `s` (regex's `escape`, which puts a
/// backslash before each character that `regex_syntax::is_meta_character`
/// accepts).
#[verifier::external_body]
pub(crate) fn regex_escape(s: &str) -> (r: String)
    ensures
        r@ == escaped(s@),
{
    regex::escape(s)
}

/// Whether regex's `RegexBuilder` builds `pattern` with the given case
/// sensitivity.
pub uninterp spec fn regex_builds(pattern: Seq<char>, case_insensitive: bool) -> bool;

/// Whether the regex built from `pattern` matches somewhere in `text`
/// (regex's `Regex::is_match`).
pub uninterp spec fn regex_is_match(pattern: Seq<char>, case_insensitive: bool, text: Seq<char>) -> bool;

/// The first (leftmost) match of the regex in `text` (regex's `Regex::find`).
pub uninterp spec fn regex_find_first(pattern: Seq<char>, case_insensitive: bool, text: Seq<char>) -> Option<Seq<char>>;

/// The successive non-overlapping matches of the regex in `text` (regex's
/// `Regex::find_iter`).
pub uninterp spec fn regex_find_all(pattern: Seq<char>, case_insensitive: bool, text: Seq<char>) -> Seq<Seq<char>>;

/// regex's compiled regular expression, carried inside `CompiledRegex`.
#[verifier::external_type_specification]
#[verifier::external_body]
pub struct ExRegex(regex::Regex);

/// A regular expression compiled from a pattern. Only `CompiledRegex::build`
/// makes one, so the compiled form is always that of the pattern.
pub struct CompiledRegex {
    pattern: String,
    case_insensitive: bool,
    regex: regex::Regex,
}

impl View for CompiledRegex {
    type V = (Seq<char>, bool);

    closed spec fn view(&self) -> (Seq<char>, bool) {
        (self.pattern@, self.case_insensitive)
    }
}

impl CompiledRegex {
    /// Compiles `pattern` (regex's `RegexBuilder::new(..).case_insensitive(..)
    /// .build()`); `None` when the builder refuses it. Which patterns build is
    /// named by `regex_builds`, not restated.
    #[verifier::external_body]
    pub(crate) fn build(pattern: &str, case_insensitive: bool) -> (r: Option<CompiledRegex>)
        ensures
            r is Some == regex_builds(pattern@, case_insensitive),
            r matches Some(c) ==> c@ == (pattern@, case_insensitive),
    {
        match regex::RegexBuilder::new(pattern).case_insensitive(case_insensitive).build() {
            Ok(regex) => Some(CompiledRegex { pattern: pattern.to_string(), case_insensitive, regex }),
            Err(_) => None,
        }
    }

    /// Whether the regex matches somewhere in `text` (regex's
    /// `Regex::is_match`).
    #[verifier::external_body]
    pub(crate) fn is_match(&self, text: &str) -> (r: bool)
        ensures
            r == regex_is_match(self@.0, self@.1, text@),
    {
        self.regex.is_match(text)
    }

    /// The text of the first match in `text` (regex's `Regex::find`).
    #[verifier::external_body]
    pub(crate) fn find(&self, text: &str) -> (r: Option<String>)
        ensures
            match (r, regex_find_first(self@.0, self@.1, text@)) {
                (Some(a), Some(b)) => a@ == b,
                (None, None) => true,
                _ => false,
            },
    {
        match self.regex.find(text) {
            Some(m) => Some(m.as_str().to_string()),
            None => None,
        }
    }

    /// The texts of the successive matches in `text` (regex's
    /// `Regex::find_iter`).
    #[verifier::external_body]
    pub(crate) fn find_all(&self, text: &str) -> (r: Vec<String>)
        ensures
            r@.map_values(|s: String| s@) == regex_find_all(self@.0, self@.1, text@),
    {
        let mut out = Vec::new();
        for m in self.regex.find_iter(text) {
            out.push(m.as_str().to_string());
        }
        out
    }
}

} // verus!
