//! The attributes of a function declaration, as far as the rules read them:
//! the path that names the attribute in full, what follows the path as text.

use crate::text::append_joined;
use crate::text::copy_texts;
use crate::text::joined;
use crate::text::owned;
use crate::text::texts;
use vstd::prelude::*;

verus! {

/// The brackets round the arguments of an attribute.
#[derive(Debug, Clone, Copy, PartialEq, Eq)]
pub enum Delimiter {
    Paren,
    Brace,
    Bracket,
}

impl Delimiter {
    /// The opening bracket.
    pub open spec fn opening(self) -> Seq<char> {
        match self {
            Delimiter::Paren => "("@,
            Delimiter::Brace => "{"@,
            Delimiter::Bracket => "["@,
        }
    }

    /// The closing bracket.
    pub open spec fn closing(self) -> Seq<char> {
        match self {
            Delimiter::Paren => ")"@,
            Delimiter::Brace => "}"@,
            Delimiter::Bracket => "]"@,
        }
    }
}

/// What follows the path of an attribute.
#[derive(Debug, Clone, PartialEq, Eq)]
pub enum AttrArgs {
    /// Nothing: `#[test]`.
    Empty,
    /// Tokens in brackets: `#[tag(fast, slow)]`.
    Delimited { delimiter: Delimiter, tokens: String },
    /// A value after `=`: `#[doc = "text"]`.
    Eq { value: String },
}

/// What a [`AttrArgs`] holds.
pub enum AttrArgsView {
    Empty,
    Delimited { delimiter: Delimiter, tokens: Seq<char> },
    Eq { value: Seq<char> },
}

impl View for AttrArgs {
    type V = AttrArgsView;

    open spec fn view(&self) -> AttrArgsView {
        match self {
            AttrArgs::Empty => AttrArgsView::Empty,
            AttrArgs::Delimited { delimiter, tokens } => AttrArgsView::Delimited {
                delimiter: *delimiter,
                tokens: tokens@,
            },
            AttrArgs::Eq { value } => AttrArgsView::Eq { value: value@ },
        }
    }
}

impl AttrArgsView {
    /// The text of what follows the path.
    pub open spec fn source(self) -> Seq<char> {
        match self {
            AttrArgsView::Empty => Seq::empty(),
            AttrArgsView::Delimited { delimiter, tokens } => delimiter.opening() + tokens
                + delimiter.closing(),
            AttrArgsView::Eq { value } => " = "@ + value,
        }
    }
}

/// One attribute of a declaration.
#[derive(Debug, Clone, PartialEq, Eq)]
pub struct Attr {
    /// Whether it is written with `#!`, inside what it belongs to.
    pub inner: bool,
    /// Whether the path starts with `::`.
    pub leading_colon: bool,
    /// The names of the path, from the left.
    pub segments: Vec<String>,
    pub args: AttrArgs,
}

/// What an [`Attr`] holds.
pub struct AttrView {
    pub inner: bool,
    pub leading_colon: bool,
    pub segments: Seq<Seq<char>>,
    pub args: AttrArgsView,
}

impl View for Attr {
    type V = AttrView;

    open spec fn view(&self) -> AttrView {
        AttrView {
            inner: self.inner,
            leading_colon: self.leading_colon,
            segments: texts(self.segments@),
            args: self.args@,
        }
    }
}

impl AttrView {
    /// Whether the path is the one name `name`.
    pub open spec fn is_named(self, name: Seq<char>) -> bool {
        self.segments.len() == 1 && self.segments[0] == name
    }

    /// Whether the attribute is a tag annotation: its path is `tag` or
    /// `pinny::tag`, and no value follows the path.
    pub open spec fn is_tag(self) -> bool {
        &&& !(self.args is Eq)
        &&& (self.is_named("tag"@) || (self.segments.len() == 2 && self.segments[0] == "pinny"@
            && self.segments[1] == "tag"@))
    }

    /// Whether the attribute is named by the bare word `test`, which a
    /// module that brings in all names of the enclosing one cannot tell from
    /// an attribute of that name that the user has brought in.
    pub open spec fn is_bare_test(self) -> bool {
        !self.leading_colon && self.is_named("test"@)
    }

    /// The attribute with a bare `test` turned into `self::test`, and any
    /// other attribute as it is.
    pub open spec fn disambiguated(self) -> AttrView {
        if self.is_bare_test() {
            AttrView { segments: seq!["self"@] + self.segments, ..self }
        } else {
            self
        }
    }

    /// The text of the path.
    pub open spec fn path(self) -> Seq<char> {
        (if self.leading_colon {
            "::"@
        } else {
            Seq::empty()
        }) + joined(self.segments, "::"@)
    }

    /// The text of the attribute.
    pub open spec fn source(self) -> Seq<char> {
        "#"@ + (if self.inner {
            "!"@
        } else {
            Seq::empty()
        }) + "["@ + self.path() + self.args.source() + "]"@
    }
}

impl AttrArgs {
    /// A copy that owns its text.
    pub fn copy(&self) -> (r: AttrArgs)
        ensures
            r@ == self@,
    {
        match self {
            AttrArgs::Empty => AttrArgs::Empty,
            AttrArgs::Delimited { delimiter, tokens } => AttrArgs::Delimited {
                delimiter: *delimiter,
                tokens: tokens.clone(),
            },
            AttrArgs::Eq { value } => AttrArgs::Eq { value: value.clone() },
        }
    }

    /// Appends the text of what follows the path.
    pub fn append_source(&self, out: &mut String)
        ensures
            final(out)@ == old(out)@ + self@.source(),
    {
        match self {
            AttrArgs::Empty => {
                assert(out@ =~= old(out)@ + self@.source());
            },
            AttrArgs::Delimited { delimiter, tokens } => {
                match delimiter {
                    Delimiter::Paren => {
                        out.append("(");
                        out.append(tokens.as_str());
                        out.append(")");
                    },
                    Delimiter::Brace => {
                        out.append("{");
                        out.append(tokens.as_str());
                        out.append("}");
                    },
                    Delimiter::Bracket => {
                        out.append("[");
                        out.append(tokens.as_str());
                        out.append("]");
                    },
                }
                assert(out@ =~= old(out)@ + self@.source());
            },
            AttrArgs::Eq { value } => {
                out.append(" = ");
                out.append(value.as_str());
                assert(out@ =~= old(out)@ + self@.source());
            },
        }
    }
}

impl Attr {
    /// A copy that owns its text.
    pub fn copy(&self) -> (r: Attr)
        ensures
            r@ == self@,
    {
        Attr {
            inner: self.inner,
            leading_colon: self.leading_colon,
            segments: copy_texts(&self.segments),
            args: self.args.copy(),
        }
    }

    /// Whether the path is the one name `name`.
    pub fn is_named(&self, name: &str) -> (r: bool)
        ensures
            r == self@.is_named(name@),
    {
        if self.segments.len() != 1 {
            return false;
        }
        let wanted = owned(name);
        let r = self.segments[0] == wanted;
        assert(self@.segments[0] == self.segments@[0]@);
        r
    }

    /// Appends the text of the attribute.
    pub fn append_source(&self, out: &mut String)
        ensures
            final(out)@ == old(out)@ + self@.source(),
    {
        out.append("#");
        if self.inner {
            out.append("!");
        }
        out.append("[");
        if self.leading_colon {
            out.append("::");
        }
        append_joined(out, &self.segments, "::");
        self.args.append_source(out);
        out.append("]");
        assert(out@ =~= old(out)@ + self@.source());
    }

    /// The text of the attribute.
    pub fn to_source(&self) -> (r: String)
        ensures
            r@ == self@.source(),
    {
        let mut out = String::new();
        self.append_source(&mut out);
        assert(out@ =~= self@.source());
        out
    }
}

} // verus!
