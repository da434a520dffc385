//! Sets of regular expressions, compiled and matched by the `regex` crate.
use vstd::prelude::*;
use regex::Error as RegexError;
use regex::RegexSet;

verus! {

#[verifier::external_type_specification]
#[verifier::external_body]
pub struct ExRegexSet(RegexSet);

#[verifier::external_type_specification]
#[verifier::external_body]
pub struct ExRegexError(RegexError);

/// The text of each string, in order.
pub open spec fn texts(strings: Seq<String>) -> Seq<Seq<char>> {
    strings.map_values(|s: String| s@)
}

/// Why `regex::RegexSet::new` refuses these patterns (their syntax, or the
/// size limits of the default builder), as the `Display` text of its error;
/// `None` where it accepts them.
pub uninterp spec fn regex_set_failure(patterns: Seq<Seq<char>>) -> Option<Seq<char>>;

/// Whether the set that `regex::RegexSet::new` builds from `patterns`, with
/// the default options, matches somewhere in `haystack`.
pub uninterp spec fn regex_set_matches(patterns: Seq<Seq<char>>, haystack: Seq<char>) -> bool;

/// Whether a compiled set matches somewhere in `haystack`; this depends on
/// the patterns and on the options that the set was built with.
pub uninterp spec fn regex_set_is_match(set: RegexSet, haystack: Seq<char>) -> bool;

/// The `Display` text of a `regex::Error`.
pub uninterp spec fn regex_error_display(e: RegexError) -> Seq<char>;

/// What a compiled set matches.
pub open spec fn set_matcher(set: RegexSet) -> spec_fn(Seq<char>) -> bool {
    |haystack: Seq<char>| regex_set_is_match(set, haystack)
}

/// What the set built from `patterns` with the default options matches.
pub open spec fn pattern_matcher(patterns: Seq<Seq<char>>) -> spec_fn(Seq<char>) -> bool {
    |haystack: Seq<char>| regex_set_matches(patterns, haystack)
}

/// `regex::RegexSet::new(patterns.iter())`: a set with the default options,
/// which matches as `regex_set_matches` names for these patterns; or the
/// error, whose text `regex_set_failure` names.
#[verifier::external_body]
pub(crate) fn compile_set(patterns: &Vec<String>) -> (res: Result<RegexSet, RegexError>)
    ensures
        match res {
            Ok(set) => {
                &&& regex_set_failure(texts(patterns@)) is None
                &&& forall|haystack: Seq<char>| #[trigger]
                    regex_set_is_match(set, haystack) == regex_set_matches(
                        texts(patterns@),
                        haystack,
                    )
            },
            Err(e) => regex_set_failure(texts(patterns@)) == Some(regex_error_display(e)),
        },
{
    RegexSet::new(patterns.iter())
}

/// `regex::RegexSet::is_match`: whether the set matches somewhere in
/// `haystack`, named by `regex_set_is_match`.
#[verifier::external_body]
pub(crate) fn set_matches(set: &RegexSet, haystack: &str) -> (res: bool)
    ensures
        res == regex_set_is_match(*set, haystack@),
{
    set.is_match(haystack)
}

/// The `Display` text of a `regex::Error`, named by `regex_error_display`.
#[verifier::external_body]
pub(crate) fn regex_error_text(e: &RegexError) -> (res: String)
    ensures
        res@ == regex_error_display(*e),
{
    e.to_string()
}

} // verus!
