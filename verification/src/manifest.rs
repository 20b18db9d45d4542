//! The project manifest: a TOML document, which `toml` parses and keeps. The
//! rules read it through three of its methods; what those give is stated
//! over a picture of the document as a tree.

use crate::text::texts;
use vstd::prelude::*;

verus! {

/// What a value of a manifest holds, as far as the rules read it.
pub enum NodeView {
    /// A string.
    Text(Seq<char>),
    /// An array, with its items in order.
    Array(Seq<NodeView>),
    /// A table, from each of its keys to the value under it.
    Table(Map<Seq<char>, NodeView>),
    /// An integer, a float, a boolean or a date.
    Other,
}

impl NodeView {
    /// The value under `key`, where `self` is a table that has the key.
    pub open spec fn get(self, key: Seq<char>) -> Option<NodeView> {
        match self {
            NodeView::Table(entries) => if entries.dom().contains(key) {
                Some(entries[key])
            } else {
                None
            },
            _ => None,
        }
    }

    /// The value reached from `self` by going down one table for each key of
    /// `path`, the first key first.
    pub open spec fn at(self, path: Seq<Seq<char>>) -> Option<NodeView>
        decreases path.len(),
    {
        if path.len() == 0 {
            Some(self)
        } else {
            match self.get(path[0]) {
                Some(child) => child.at(path.drop_first()),
                None => None,
            }
        }
    }
}

/// `toml::Value`, of which the verifier sees nothing but the name.
#[verifier::external_type_specification]
#[verifier::external_body]
pub struct ExTomlValue(toml::Value);

/// What a `toml::Value` holds.
pub uninterp spec fn value_view(value: toml::Value) -> NodeView;

/// What `toml` reads from a text: the document it holds, or the words in
/// which the parser refuses it.
pub uninterp spec fn toml_document(text: Seq<char>) -> Result<NodeView, Seq<char>>;

/// Parses `text` as a TOML document, by `toml::Value`'s `FromStr`.
///
/// Trusted: the outcome depends on the text alone. It is given the name
/// [`toml_document`], of which nothing more is said; the error is handed on
/// as its message.
#[verifier::external_body]
pub(crate) fn parse(text: &str) -> (r: Result<toml::Value, String>)
    ensures
        match r {
            Ok(doc) => toml_document(text@) == Ok::<NodeView, Seq<char>>(value_view(doc)),
            Err(refusal) => toml_document(text@) == Err::<NodeView, Seq<char>>(refusal@),
        },
{
    match text.parse::<toml::Value>() {
        Ok(doc) => Ok(doc),
        Err(error) => Err(error.to_string()),
    }
}

/// `toml::Value::get` with a string for the index: the value under that key
/// where `value` is a table that has the key, and nothing for a table
/// without the key and for a value of any other kind.
#[verifier::external_body]
pub(crate) fn get<'a>(value: &'a toml::Value, key: &str) -> (r: Option<&'a toml::Value>)
    ensures
        match r {
            Some(child) => value_view(*value).get(key@) == Some(value_view(*child)),
            None => value_view(*value).get(key@) is None,
        },
{
    value.get(key)
}

/// `toml::Value::as_array`: the items where `value` is an array, and
/// nothing for a value of any other kind.
#[verifier::external_body]
pub(crate) fn as_array(value: &toml::Value) -> (r: Option<&Vec<toml::Value>>)
    ensures
        match r {
            Some(items) => value_view(*value) matches NodeView::Array(views) && views.len()
                == items.len() && forall|i: int|
                0 <= i < items.len() ==> #[trigger] views[i] == value_view(items[i]),
            None => !(value_view(*value) is Array),
        },
{
    value.as_array()
}

/// `toml::Value::as_str`: the text where `value` is a string, and nothing
/// for a value of any other kind.
#[verifier::external_body]
pub(crate) fn as_str(value: &toml::Value) -> (r: Option<&str>)
    ensures
        match r {
            Some(text) => value_view(*value) == NodeView::Text(text@),
            None => !(value_view(*value) is Text),
        },
{
    value.as_str()
}

/// The value reached from `doc` by going down one table for each key of
/// `path`, the first key first.
pub fn lookup<'a>(doc: &'a toml::Value, path: &Vec<String>) -> (r: Option<&'a toml::Value>)
    ensures
        match r {
            Some(found) => value_view(*doc).at(texts(path@)) == Some(value_view(*found)),
            None => value_view(*doc).at(texts(path@)) is None,
        },
{
    let ghost keys = texts(path@);
    let mut current: &toml::Value = doc;
    let mut i: usize = 0;
    assert(keys.skip(0) =~= keys);
    while i < path.len()
        invariant
            i <= path.len(),
            keys == texts(path@),
            value_view(*doc).at(keys) == value_view(*current).at(keys.skip(i as int)),
        decreases path.len() - i,
    {
        proof {
            assert(keys.skip(i as int)[0] == path@[i as int]@);
            assert(keys.skip(i as int).drop_first() =~= keys.skip(i + 1));
        }
        match get(current, path[i].as_str()) {
            Some(child) => {
                current = child;
            },
            None => {
                return None;
            },
        }
        i += 1;
    }
    Some(current)
}

} // verus!
