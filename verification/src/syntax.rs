//! From the text of a function to the declaration as a value. The grammar is
//! Rust's, and `syn` reads it.
//!
//! Nothing is promised of what `syn` hands out here. A text is cut into
//! tokens, and tokens are printed as text, by the compiler where the process
//! is one and by `proc-macro2` elsewhere, and the two do not print alike.
//! What is done with a declaration once it has been read is stated in full
//! where it is done.

use crate::attribute::Attr;
use crate::attribute::AttrArgs;
use crate::attribute::Delimiter;
use crate::declaration::FnSig;
use crate::declaration::FunctionDeclaration;
use crate::tag::TagError;
use proc_macro2::TokenStream;
use quote::ToTokens;
use vstd::prelude::*;

verus! {

/// `syn::ItemFn`, of which the verifier sees nothing but the name.
#[verifier::external_type_specification]
#[verifier::external_body]
pub struct ExItemFn(syn::ItemFn);

/// `syn::Attribute`, likewise.
#[verifier::external_type_specification]
#[verifier::external_body]
pub struct ExAttribute(syn::Attribute);

/// `syn::parse_str` for a `syn::ItemFn`. An error is handed on as its
/// message.
#[verifier::external_body]
fn parse_item_fn(item: &str) -> (r: Result<syn::ItemFn, String>) {
    match syn::parse_str::<syn::ItemFn>(item) {
        Ok(function) => Ok(function),
        Err(error) => Err(error.to_string()),
    }
}

/// The attributes of the function, inner ones too, in the order in which
/// `syn` keeps them.
#[verifier::external_body]
fn attributes_of(function: &syn::ItemFn) -> (r: &Vec<syn::Attribute>) {
    &function.attrs
}

/// Whether the attribute is an inner one, whether its path starts with
/// `::`, and the identifiers of its path as strings.
#[verifier::external_body]
fn path_of(attr: &syn::Attribute) -> (r: (bool, bool, Vec<String>)) {
    let path = attr.path();
    let names = path.segments.iter().map(|segment| segment.ident.to_string()).collect();
    (matches!(attr.style, syn::AttrStyle::Inner(_)), path.leading_colon.is_some(), names)
}

/// What follows the path of the attribute, one variant of `syn::Meta` to
/// one of ours: the tokens of a list and the value of a pair as their text.
#[verifier::external_body]
fn args_of(attr: &syn::Attribute) -> (r: AttrArgs) {
    match &attr.meta {
        syn::Meta::Path(_) => AttrArgs::Empty,
        syn::Meta::List(list) => AttrArgs::Delimited {
            delimiter: match list.delimiter {
                syn::MacroDelimiter::Paren(_) => Delimiter::Paren,
                syn::MacroDelimiter::Brace(_) => Delimiter::Brace,
                syn::MacroDelimiter::Bracket(_) => Delimiter::Bracket,
            },
            tokens: list.tokens.to_string(),
        },
        syn::Meta::NameValue(pair) => AttrArgs::Eq {
            value: pair.value.to_token_stream().to_string(),
        },
    }
}

/// The visibility of the function as the text of its tokens.
#[verifier::external_body]
fn visibility_of(function: &syn::ItemFn) -> (r: String) {
    function.vis.to_token_stream().to_string()
}

/// The signature of the function: the name as a string, and as text the
/// tokens that `syn` prints before `fn` and those that it prints after the
/// name, in its order. A signature that `syn` has parsed holds the comma in
/// front of a variadic among its inputs, so none is put there.
#[verifier::external_body]
fn signature_of(function: &syn::ItemFn) -> (r: FnSig) {
    let sig = &function.sig;
    let mut qualifiers = TokenStream::new();
    sig.constness.to_tokens(&mut qualifiers);
    sig.asyncness.to_tokens(&mut qualifiers);
    sig.unsafety.to_tokens(&mut qualifiers);
    sig.abi.to_tokens(&mut qualifiers);
    let mut rest = sig.generics.to_token_stream();
    sig.paren_token.surround(&mut rest, |inner| {
        sig.inputs.to_tokens(inner);
        sig.variadic.to_tokens(inner);
    });
    sig.output.to_tokens(&mut rest);
    sig.generics.where_clause.to_tokens(&mut rest);
    let name = sig.ident.to_string();
    FnSig { qualifiers: qualifiers.to_string(), name, rest: rest.to_string() }
}

/// The body of the function, with its braces, as the text of its tokens.
#[verifier::external_body]
fn body_of(function: &syn::ItemFn) -> (r: String) {
    function.block.to_token_stream().to_string()
}

impl FunctionDeclaration {
    /// Reads a function declaration from its text. A text that is no
    /// function is refused as such, with the parser's words.
    pub fn parse(item: &str) -> (r: Result<FunctionDeclaration, TagError>)
        ensures
            r matches Err(error) ==> error is NotAFunction,
    {
        // Whether the text is a function, and what its parts are, is for
        // the parser to say; `accept` says what is made of its answer.
        let parsed = match parse_item_fn(item) {
            Err(refusal) => Err(refusal),
            Ok(function) => {
                let read = attributes_of(&function);
                let mut attrs: Vec<Attr> = Vec::new();
                let mut i: usize = 0;
                while i < read.len()
                    invariant
                        i <= read.len(),
                    decreases read.len() - i,
                {
                    let (inner, leading_colon, segments) = path_of(&read[i]);
                    attrs.push(Attr { inner, leading_colon, segments, args: args_of(&read[i]) });
                    i += 1;
                }
                Ok(
                    FunctionDeclaration {
                        attrs,
                        vis: visibility_of(&function),
                        sig: signature_of(&function),
                        block: body_of(&function),
                    },
                )
            },
        };
        Self::accept(parsed)
    }

    /// Takes what the parser made of a function's text: hands the
    /// declaration on as it is, and turns the parser's refusal into the
    /// error of a text that is no function, with the same words.
    pub fn accept(parsed: Result<FunctionDeclaration, String>) -> (r: Result<
        FunctionDeclaration,
        TagError,
    >)
        ensures
            match parsed {
                Ok(function) => r == Ok::<FunctionDeclaration, TagError>(function),
                Err(refusal) => r == Err::<FunctionDeclaration, TagError>(
                    TagError::NotAFunction(refusal),
                ),
            },
    {
        match parsed {
            Ok(function) => Ok(function),
            Err(refusal) => Err(TagError::NotAFunction(refusal)),
        }
    }
}

} // verus!
