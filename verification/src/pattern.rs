//! The shape of a tag: a lowercase letter, then lowercase letters, digits and
//! underscores.

use regex::Regex;
use vstd::prelude::*;

verus! {

/// A lowercase ASCII letter.
pub open spec fn is_lower(c: char) -> bool {
    'a' <= c && c <= 'z'
}

/// A lowercase ASCII letter, an ASCII digit or an underscore.
pub open spec fn is_tag_char(c: char) -> bool {
    is_lower(c) || ('0' <= c && c <= '9') || c == '_'
}

/// The texts that are tags: not empty, a lowercase letter first, and nothing
/// but lowercase letters, digits and underscores after it.
pub open spec fn is_tag_identifier(s: Seq<char>) -> bool {
    &&& s.len() > 0
    &&& is_lower(s[0])
    &&& forall|i: int| 1 <= i < s.len() ==> is_tag_char(#[trigger] s[i])
}

/// The regular expression that the tag shape is written as.
pub open spec fn tag_pattern() -> Seq<char> {
    "^[a-z][a-z0-9_]*$"@
}

/// Compiles `pattern` with `regex::Regex::new` and asks `Regex::is_match`
/// whether it matches `text`.
///
/// Trusted: for the tag pattern, which is anchored at both ends of the
/// haystack and holds two character classes, the first taken once and the
/// second any number of times, a match is exactly a text of the tag shape.
#[verifier::external_body]
fn pattern_matches(pattern: &str, text: &str) -> (r: bool)
    requires
        pattern@ == tag_pattern(),
    ensures
        r == is_tag_identifier(text@),
{
    Regex::new(pattern).unwrap().is_match(text)
}

/// Whether `tag` has the shape of a tag.
pub fn is_valid_tag(tag: &str) -> (r: bool)
    ensures
        r == is_tag_identifier(tag@),
{
    pattern_matches("^[a-z][a-z0-9_]*$", tag)
}

} // verus!
