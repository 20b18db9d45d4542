//! A function declaration as a value: its attributes, its visibility, its
//! signature with the name set apart, and its body. And the declaration that
//! takes its place once the function has been moved below its tags.

use crate::attribute::Attr;
use crate::attribute::AttrView;
use crate::text::append_repeated;
use crate::text::append_spaced;
use crate::text::append_wrapped;
use crate::text::lemma_wrapped_concat;
use crate::text::lemma_wrapped_one;
use crate::text::owned;
use crate::text::prefixed;
use crate::text::repeated;
use crate::text::spaced;
use crate::text::texts;
use crate::text::wrapped;
use vstd::prelude::*;

verus! {

/// The signature of a function. Only the name is read and changed; what
/// stands before `fn` and what stands after the name is carried as text.
#[derive(Debug, Clone, PartialEq, Eq)]
pub struct FnSig {
    /// What stands before `fn`: `const`, `async`, `unsafe`, an ABI.
    pub qualifiers: String,
    pub name: String,
    /// What stands after the name: generics, parameters, the return type
    /// and a `where` clause.
    pub rest: String,
}

/// What a [`FnSig`] holds.
pub struct FnSigView {
    pub qualifiers: Seq<char>,
    pub name: Seq<char>,
    pub rest: Seq<char>,
}

impl View for FnSig {
    type V = FnSigView;

    open spec fn view(&self) -> FnSigView {
        FnSigView { qualifiers: self.qualifiers@, name: self.name@, rest: self.rest@ }
    }
}

impl FnSigView {
    /// The text of the signature.
    pub open spec fn source(self) -> Seq<char> {
        spaced(self.qualifiers) + "fn "@ + self.name + self.rest
    }
}

/// A function declaration.
#[derive(Debug, Clone, PartialEq, Eq)]
pub struct FunctionDeclaration {
    /// The attributes, in the order in which they are written.
    pub attrs: Vec<Attr>,
    /// The visibility, empty where none is written.
    pub vis: String,
    pub sig: FnSig,
    /// The body, with its braces.
    pub block: String,
}

/// What a [`FunctionDeclaration`] holds.
pub struct FunctionView {
    pub attrs: Seq<AttrView>,
    pub vis: Seq<char>,
    pub sig: FnSigView,
    pub block: Seq<char>,
}

/// What a list of attributes holds.
pub open spec fn attribute_views(attrs: Seq<Attr>) -> Seq<AttrView> {
    Seq::new(attrs.len(), |i: int| attrs[i]@)
}

/// The attributes as text, each on a line of its own.
pub open spec fn attribute_lines(attrs: Seq<AttrView>) -> Seq<char>
    decreases attrs.len(),
{
    if attrs.len() == 0 {
        Seq::empty()
    } else {
        attribute_lines(attrs.drop_last()) + attrs.last().source() + "\n"@
    }
}

impl View for FunctionDeclaration {
    type V = FunctionView;

    open spec fn view(&self) -> FunctionView {
        FunctionView {
            attrs: attribute_views(self.attrs@),
            vis: self.vis@,
            sig: self.sig@,
            block: self.block@,
        }
    }
}

impl FunctionView {
    /// The text of the declaration.
    pub open spec fn source(self) -> Seq<char> {
        attribute_lines(self.attrs) + spaced(self.vis) + self.sig.source() + " "@ + self.block
    }
}

/// The name that marks where the tags of a moved function start, and that
/// the function itself bears where they end.
///
/// The name has the shape of a tag, and nothing keeps a project from
/// allowing it as one. A function that bears it as a label has it in its
/// path more often than at the two ends, and a filter on the path cannot
/// tell the label from the marks.
pub open spec fn sentinel() -> Seq<char> {
    "t"@
}

/// A module named `name` that brings in all names of the enclosing scope and
/// holds `content`.
pub open spec fn module(name: Seq<char>, content: Seq<char>) -> Seq<char> {
    "pub mod "@ + name + " {\nuse super::*;\n"@ + content + "}\n"@
}

/// `content` inside one module for each name of `path`, the module of the
/// first name outermost.
pub open spec fn nested(path: Seq<Seq<char>>, content: Seq<char>) -> Seq<char>
    decreases path.len(),
{
    if path.len() == 0 {
        content
    } else {
        module(path[0], nested(path.drop_first(), content))
    }
}

/// What takes the place of a tagged function: the function, moved below one
/// module for each name of `path` and below a module that bears its first
/// name, and a `use` item that makes that first name stand for it again.
#[derive(Debug, Clone, PartialEq, Eq)]
pub struct RewrittenDeclaration {
    /// The name that the function had.
    pub name: String,
    /// The visibility that the function had, which the `use` item takes.
    pub vis: String,
    /// The names of the modules below the one called `name`, the outermost
    /// first.
    pub path: Vec<String>,
    /// The function as it stands in the innermost module.
    pub function: FunctionDeclaration,
}

/// What a [`RewrittenDeclaration`] holds.
pub struct RewrittenView {
    pub name: Seq<char>,
    pub vis: Seq<char>,
    pub path: Seq<Seq<char>>,
    pub function: FunctionView,
}

impl View for RewrittenDeclaration {
    type V = RewrittenView;

    open spec fn view(&self) -> RewrittenView {
        RewrittenView {
            name: self.name@,
            vis: self.vis@,
            path: texts(self.path@),
            function: self.function@,
        }
    }
}

impl RewrittenView {
    /// The path of the moved function, seen from where the function stood:
    /// the first name, the names of the modules, the name it has now.
    pub open spec fn qualified_path(self) -> Seq<char> {
        self.name + prefixed(self.path.push(self.function.sig.name), "::"@)
    }

    /// The `use` item that lets the first name stand for the moved function.
    pub open spec fn alias(self) -> Seq<char> {
        "#[allow(unused_imports)]\n"@ + spaced(self.vis) + "use "@ + self.qualified_path()
            + " as "@ + self.name + ";\n"@
    }

    /// The text of the whole.
    pub open spec fn source(self) -> Seq<char> {
        "use std::prelude::v1::*;\n"@ + self.alias() + "#[doc(hidden)]\n"@ + module(
            self.name,
            nested(self.path, self.function.source() + "\n"@),
        )
    }
}

/// Nested modules as text: what opens them, the content, what closes them.
pub proof fn lemma_nested_flat(path: Seq<Seq<char>>, content: Seq<char>)
    ensures
        nested(path, content) == wrapped(path, "pub mod "@, " {\nuse super::*;\n"@) + content
            + repeated("}\n"@, path.len()),
    decreases path.len(),
{
    let before = "pub mod "@;
    let after = " {\nuse super::*;\n"@;
    let close = "}\n"@;
    if path.len() == 0 {
        assert(nested(path, content) =~= wrapped(path, before, after) + content + repeated(
            close,
            path.len(),
        ));
    } else {
        let rest = path.drop_first();
        lemma_nested_flat(rest, content);
        lemma_wrapped_one(path[0], before, after);
        lemma_wrapped_concat(seq![path[0]], rest, before, after);
        assert(seq![path[0]] + rest =~= path);
        assert(repeated(close, path.len()) == repeated(close, rest.len()) + close);
        assert(nested(path, content) =~= wrapped(path, before, after) + content + repeated(
            close,
            path.len(),
        ));
    }
}

impl FnSig {
    /// Appends the text of the signature.
    pub fn append_source(&self, out: &mut String)
        ensures
            final(out)@ == old(out)@ + self@.source(),
    {
        append_spaced(out, self.qualifiers.as_str());
        out.append("fn ");
        out.append(self.name.as_str());
        out.append(self.rest.as_str());
        assert(out@ =~= old(out)@ + self@.source());
    }
}

impl FunctionDeclaration {
    /// Appends the text of the declaration.
    pub fn append_source(&self, out: &mut String)
        ensures
            final(out)@ == old(out)@ + self@.source(),
    {
        let ghost attrs = attribute_views(self.attrs@);
        let mut i: usize = 0;
        assert(attrs.take(0) =~= Seq::<AttrView>::empty());
        assert(out@ =~= old(out)@ + attribute_lines(attrs.take(0)));
        while i < self.attrs.len()
            invariant
                i <= self.attrs.len(),
                attrs == attribute_views(self.attrs@),
                out@ == old(out)@ + attribute_lines(attrs.take(i as int)),
            decreases self.attrs.len() - i,
        {
            self.attrs[i].append_source(out);
            out.append("\n");
            proof {
                assert(attrs.take(i + 1).drop_last() =~= attrs.take(i as int));
                assert(attrs.take(i + 1).last() == self.attrs@[i as int]@);
                assert(out@ =~= old(out)@ + attribute_lines(attrs.take(i + 1)));
            }
            i += 1;
        }
        assert(attrs.take(self.attrs.len() as int) =~= attrs);
        append_spaced(out, self.vis.as_str());
        self.sig.append_source(out);
        out.append(" ");
        out.append(self.block.as_str());
        assert(out@ =~= old(out)@ + self@.source());
    }

    /// The text of the declaration.
    pub fn to_source(&self) -> (r: String)
        ensures
            r@ == self@.source(),
    {
        let mut out = String::new();
        self.append_source(&mut out);
        assert(out@ =~= self@.source());
        out
    }
}

impl RewrittenDeclaration {
    /// Appends the path of the moved function.
    fn append_qualified_path(&self, out: &mut String)
        ensures
            final(out)@ == old(out)@ + self@.qualified_path(),
    {
        out.append(self.name.as_str());
        append_wrapped(out, &self.path, "::", "");
        out.append("::");
        out.append(self.function.sig.name.as_str());
        proof {
            reveal_strlit("");
            let names = texts(self.path@);
            let leaf = self.function.sig.name@;
            assert(""@ =~= Seq::<char>::empty());
            assert(names.push(leaf).drop_last() =~= names);
            assert(out@ =~= old(out)@ + self@.qualified_path());
        }
    }

    /// The path of the moved function, seen from where the function stood.
    pub fn qualified_path(&self) -> (r: String)
        ensures
            r@ == self@.qualified_path(),
    {
        let mut out = String::new();
        self.append_qualified_path(&mut out);
        assert(out@ =~= self@.qualified_path());
        out
    }

    /// The text of the whole.
    pub fn to_source(&self) -> (r: String)
        ensures
            r@ == self@.source(),
    {
        let mut out = owned("use std::prelude::v1::*;\n");
        out.append("#[allow(unused_imports)]\n");
        append_spaced(&mut out, self.vis.as_str());
        out.append("use ");
        self.append_qualified_path(&mut out);
        out.append(" as ");
        out.append(self.name.as_str());
        out.append(";\n");
        assert(out@ =~= "use std::prelude::v1::*;\n"@ + self@.alias());
        out.append("#[doc(hidden)]\n");
        out.append("pub mod ");
        out.append(self.name.as_str());
        out.append(" {\nuse super::*;\n");
        let ghost head = out@;
        append_wrapped(&mut out, &self.path, "pub mod ", " {\nuse super::*;\n");
        self.function.append_source(&mut out);
        out.append("\n");
        append_repeated(&mut out, "}\n", self.path.len());
        out.append("}\n");
        proof {
            let content = self@.function.source() + "\n"@;
            lemma_nested_flat(self@.path, content);
            assert(out@ =~= head + nested(self@.path, content) + "}\n"@);
            assert(out@ =~= self@.source());
        }
        out
    }
}

} // verus!
