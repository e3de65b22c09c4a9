//! The path-matching pattern a connection routes by, backed by the
//! `regex` crate. The compiled pattern is opaque here: the pattern text
//! it was built from and the result of matching it are named, and the
//! trusted wrappers below tie the crate's calls to those names.

use vstd::prelude::*;

verus! {

/// `regex::Regex`, declared so a compiled pattern can sit in a
/// connection and travel through signatures.
#[verifier::external_type_specification]
#[verifier::external_body]
pub struct ExRegex(regex::Regex);

/// The pattern text `re` was compiled from.
pub uninterp spec fn pattern_of(re: regex::Regex) -> Seq<char>;

/// Whether `text` matches the pattern `pattern`, as the `regex` crate
/// decides it: a function of the pattern text and the haystack alone.
pub uninterp spec fn regex_matches(pattern: Seq<char>, text: Seq<char>) -> bool;

/// Relies on `regex::Regex::is_match`: whether the haystack matches the
/// compiled pattern, decided by pattern text and haystack alone.
#[verifier::external_body]
pub(crate) fn regex_is_match(re: &regex::Regex, text: &str) -> (r: bool)
    ensures
        r == regex_matches(pattern_of(*re), text@),
{
    re.is_match(text)
}

} // verus!
