//! The labels of one annotation, which `syn` parses and keeps: a punctuated
//! sequence of identifiers. The rules read the identifiers as texts.

use crate::pattern::is_tag_identifier;
use crate::text::texts;
use proc_macro2::Ident;
use proc_macro2::Span;
use syn::parse::Parser;
use syn::punctuated::Punctuated;
use syn::token::Comma;
use vstd::prelude::*;

verus! {

/// `syn::punctuated::Punctuated`, of which the verifier sees nothing but the
/// name.
#[verifier::external_type_specification]
#[verifier::external_body]
#[verifier::reject_recursive_types(T)]
#[verifier::reject_recursive_types(P)]
pub struct ExPunctuated<T, P>(Punctuated<T, P>);

/// `proc_macro2::Ident`, likewise.
#[verifier::external_type_specification]
#[verifier::external_body]
pub struct ExIdent(Ident);

/// `syn::token::Comma`, likewise.
#[verifier::external_type_specification]
#[verifier::external_body]
pub struct ExComma(Comma);

/// The labels of one annotation, separated by commas.
pub type TagLabels = Punctuated<Ident, Comma>;

/// The identifiers that a sequence of labels holds, each as its text, in
/// order.
pub uninterp spec fn label_texts(tags: Punctuated<Ident, Comma>) -> Seq<Seq<char>>;

/// Parses `args` with `Punctuated::parse_terminated`, through
/// `Parser::parse_str`: identifiers separated by commas, a comma at the end
/// allowed, nothing else in the text. An error is handed on as its message.
///
/// Nothing is promised of the outcome. The text is cut into tokens by the
/// compiler where the process is one, and by `proc-macro2` elsewhere, so
/// that the text alone does not decide it.
#[verifier::external_body]
pub(crate) fn parse_terminated(args: &str) -> (r: Result<TagLabels, String>) {
    match Parser::parse_str(TagLabels::parse_terminated, args) {
        Ok(tags) => Ok(tags),
        Err(error) => Err(error.to_string()),
    }
}

/// `Punctuated::len`: the number of identifiers, the commas not counted.
#[verifier::external_body]
pub(crate) fn label_count(tags: &TagLabels) -> (n: usize)
    ensures
        n == label_texts(*tags).len(),
{
    tags.len()
}

/// Indexes the sequence, which panics beyond its end, and gives the
/// identifier found there as a string.
#[verifier::external_body]
pub(crate) fn label_at(tags: &TagLabels, index: usize) -> (label: String)
    requires
        index < label_texts(*tags).len(),
    ensures
        label@ == label_texts(*tags)[index as int],
{
    tags[index].to_string()
}

/// `Punctuated::insert` of a new identifier, made by `Ident::new` with the
/// span of the call site. The first panics where `index` is beyond the
/// end, the second where `name` is no identifier; a text of the shape of a
/// tag is one.
#[verifier::external_body]
pub(crate) fn insert_label(tags: &mut TagLabels, index: usize, name: &str)
    requires
        index <= label_texts(*old(tags)).len(),
        is_tag_identifier(name@),
    ensures
        label_texts(*final(tags)) == label_texts(*old(tags)).insert(index as int, name@),
{
    tags.insert(index, Ident::new(name, Span::call_site()))
}

/// The labels as strings, in order.
pub fn label_list(tags: &TagLabels) -> (r: Vec<String>)
    ensures
        texts(r@) == label_texts(*tags),
{
    let n = label_count(tags);
    let mut out: Vec<String> = Vec::new();
    let mut i: usize = 0;
    while i < n
        invariant
            i <= n,
            n == label_texts(*tags).len(),
            out@.len() == i,
            forall|k: int| 0 <= k < i ==> (#[trigger] out@[k])@ == label_texts(*tags)[k],
        decreases n - i,
    {
        out.push(label_at(tags, i));
        i += 1;
    }
    assert(texts(out@) =~= label_texts(*tags));
    out
}

} // verus!
