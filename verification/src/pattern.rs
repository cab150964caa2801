//! Regular expressions, compiled and matched by the `regex` crate.
use vstd::prelude::*;

verus! {

/// `regex::Regex`, carried through as an opaque value.
#[verifier::external_type_specification]
#[verifier::external_body]
pub struct ExRegex(regex::Regex);

/// `regex::Error`, carried through as an opaque value.
#[verifier::external_type_specification]
#[verifier::external_body]
pub struct ExRegexError(regex::Error);

/// Whether `regex::Regex::new` accepts the pattern `pattern`.
pub uninterp spec fn regex_compiles(pattern: Seq<char>) -> bool;

/// Whether the regular expression `pattern` matches somewhere in `haystack`
/// (`regex::Regex::is_match`).
pub uninterp spec fn regex_matches(pattern: Seq<char>, haystack: Seq<char>) -> bool;

/// A compiled regular expression, together with the pattern it was compiled from.
pub struct Pattern {
    source: String,
    regex: regex::Regex,
}

impl View for Pattern {
    type V = Seq<char>;

    closed spec fn view(&self) -> Seq<char> {
        self.source@
    }
}

impl Pattern {
    /// Compiles `source` (`regex::Regex::new`). It succeeds exactly on the
    /// patterns named by [`regex_compiles`]; the compiled pattern keeps its
    /// source as its view.
    #[verifier::external_body]
    pub(crate) fn compile(source: &str) -> (r: Result<Pattern, regex::Error>)
        ensures
            r is Ok <==> regex_compiles(source@),
            r matches Ok(p) ==> p@ == source@,
    {
        regex::Regex::new(source).map(|regex| Pattern { source: source.to_owned(), regex })
    }

    /// Whether the pattern matches somewhere in `haystack`
    /// (`regex::Regex::is_match`); the result is named [`regex_matches`].
    #[verifier::external_body]
    pub(crate) fn is_match(&self, haystack: &str) -> (r: bool)
        ensures
            r == regex_matches(self@, haystack@),
    {
        self.regex.is_match(haystack)
    }
}

/// The message of a compilation error (its `Display` text); nothing is
/// stated of it.
#[verifier::external_body]
pub(crate) fn regex_error_message(e: &regex::Error) -> String {
    format!("{}", e)
}

} // verus!
