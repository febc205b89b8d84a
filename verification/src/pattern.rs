//! Regular expressions, compiled and run by the `regex` crate.
use vstd::prelude::*;
use regex::{Regex, RegexBuilder};

verus! {

#[verifier::external_type_specification]
#[verifier::external_body]
pub struct ExRegex(Regex);

/// Whether the `regex` crate accepts `pattern` (with its default 10 MiB size limit).
pub uninterp spec fn regex_compiles(pattern: Seq<char>) -> bool;

/// The text of the error that the `regex` crate reports for `pattern`.
pub uninterp spec fn regex_error_text(pattern: Seq<char>) -> Seq<char>;

/// Whether the compiled `pattern` matches somewhere in `text` (`Regex::is_match`).
pub uninterp spec fn regex_is_match(pattern: Seq<char>, text: Seq<char>) -> bool;

/// The text of capture group 1 of the leftmost-first match of `pattern` in
/// `text`, if there is a match and the group took part in it (`Regex::captures`).
pub uninterp spec fn regex_group1(pattern: Seq<char>, text: Seq<char>) -> Option<Seq<char>>;

/// The largest compiled program a pattern may produce: 10 MiB.
pub const REGEX_SIZE_LIMIT: usize = 10485760;

/// A compiled regular expression together with the pattern it was built from.
pub struct CompiledRegex {
    pattern: String,
    re: Regex,
}

impl CompiledRegex {
    /// The pattern this regex was compiled from.
    pub closed spec fn pattern(&self) -> Seq<char> {
        self.pattern@
    }

    /// Compiles `pattern` with `RegexBuilder` and a 10 MiB size limit (the
    /// same limit `Regex::new` applies). Success and the error's text are
    /// named by `regex_compiles` and `regex_error_text`.
    #[verifier::external_body]
    pub(crate) fn compile(pattern: &str) -> (r: Result<CompiledRegex, String>)
        ensures
            r is Ok <==> regex_compiles(pattern@),
            r matches Ok(c) ==> c.pattern() == pattern@,
            r matches Err(e) ==> e@ == regex_error_text(pattern@),
    {
        match RegexBuilder::new(pattern).size_limit(REGEX_SIZE_LIMIT).build() {
            Ok(re) => Ok(CompiledRegex { pattern: pattern.to_string(), re }),
            Err(e) => Err(e.to_string()),
        }
    }

    /// `Regex::is_match`; the answer is named by `regex_is_match`.
    #[verifier::external_body]
    pub(crate) fn is_match(&self, text: &str) -> (r: bool)
        ensures
            r == regex_is_match(self.pattern(), text@),
    {
        self.re.is_match(text)
    }

    /// The text of capture group 1 of the first match (`Regex::captures`);
    /// named by `regex_group1`.
    #[verifier::external_body]
    pub(crate) fn group1(&self, text: &str) -> (r: Option<String>)
        ensures
            match r {
                Some(s) => regex_group1(self.pattern(), text@) == Some(s@),
                None => regex_group1(self.pattern(), text@) is None,
            },
    {
        self.re.captures(text).and_then(|c| c.get(1)).map(|m| m.as_str().to_string())
    }
}

} // verus!
