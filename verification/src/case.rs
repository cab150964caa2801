//! Case conversions of names, as the `heck` crate performs them, and upper
//! casing as `str::to_uppercase` performs it.
use vstd::prelude::*;

verus! {

/// What `heck::CamelCase::to_camel_case` gives for `s`.
pub uninterp spec fn camel_case_of(s: Seq<char>) -> Seq<char>;

/// What `heck::KebabCase::to_kebab_case` gives for `s`.
pub uninterp spec fn kebab_case_of(s: Seq<char>) -> Seq<char>;

/// What `heck::SnakeCase::to_snake_case` gives for `s`.
pub uninterp spec fn snake_case_of(s: Seq<char>) -> Seq<char>;

/// What `heck::ShoutySnakeCase::to_shouty_snake_case` gives for `s`.
pub uninterp spec fn shouty_snake_case_of(s: Seq<char>) -> Seq<char>;

/// What `heck::MixedCase::to_mixed_case` gives for `s`.
pub uninterp spec fn mixed_case_of(s: Seq<char>) -> Seq<char>;

/// What `heck::TitleCase::to_title_case` gives for `s`.
pub uninterp spec fn title_case_of(s: Seq<char>) -> Seq<char>;

/// What `str::to_uppercase` gives for `s`.
pub uninterp spec fn uppercase_of(s: Seq<char>) -> Seq<char>;

/// `s` in CamelCase (`heck::CamelCase::to_camel_case`); the result is named
/// [`camel_case_of`], nothing more of it is stated.
#[verifier::external_body]
pub(crate) fn to_camel_case(s: &str) -> (r: String)
    ensures
        r@ == camel_case_of(s@),
{
    heck::CamelCase::to_camel_case(s)
}

/// `s` in kebab-case (`heck::KebabCase::to_kebab_case`); the result is named
/// [`kebab_case_of`], nothing more of it is stated.
#[verifier::external_body]
pub(crate) fn to_kebab_case(s: &str) -> (r: String)
    ensures
        r@ == kebab_case_of(s@),
{
    heck::KebabCase::to_kebab_case(s)
}

/// `s` in snake_case (`heck::SnakeCase::to_snake_case`); the result is named
/// [`snake_case_of`], nothing more of it is stated.
#[verifier::external_body]
pub(crate) fn to_snake_case(s: &str) -> (r: String)
    ensures
        r@ == snake_case_of(s@),
{
    heck::SnakeCase::to_snake_case(s)
}

/// `s` in SHOUTY_SNAKE_CASE (`heck::ShoutySnakeCase::to_shouty_snake_case`);
/// the result is named [`shouty_snake_case_of`], nothing more of it is stated.
#[verifier::external_body]
pub(crate) fn to_shouty_snake_case(s: &str) -> (r: String)
    ensures
        r@ == shouty_snake_case_of(s@),
{
    heck::ShoutySnakeCase::to_shouty_snake_case(s)
}

/// `s` in mixedCase (`heck::MixedCase::to_mixed_case`); the result is named
/// [`mixed_case_of`], nothing more of it is stated.
#[verifier::external_body]
pub(crate) fn to_mixed_case(s: &str) -> (r: String)
    ensures
        r@ == mixed_case_of(s@),
{
    heck::MixedCase::to_mixed_case(s)
}

/// `s` in Title Case (`heck::TitleCase::to_title_case`); the result is named
/// [`title_case_of`], nothing more of it is stated.
#[verifier::external_body]
pub(crate) fn to_title_case(s: &str) -> (r: String)
    ensures
        r@ == title_case_of(s@),
{
    heck::TitleCase::to_title_case(s)
}

/// `s` in upper case (`str::to_uppercase`); the result is named
/// [`uppercase_of`], nothing more of it is stated.
#[verifier::external_body]
pub(crate) fn to_uppercase(s: &str) -> (r: String)
    ensures
        r@ == uppercase_of(s@),
{
    s.to_uppercase()
}

} // verus!
