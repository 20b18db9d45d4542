//! What holds of the rules, stated over what the functions' contracts speak
//! of, and proved.

use crate::attribute::AttrView;
use crate::config::checked;
use crate::config::configured;
use crate::config::created;
use crate::config::is_allow_list;
use crate::config::is_fault;
use crate::config::is_first_fault;
use crate::config::lemma_first_fault_is_one;
use crate::config::listed;
use crate::config::ConfigErrorView;
use crate::declaration::module;
use crate::declaration::nested;
use crate::declaration::sentinel;
use crate::declaration::FunctionView;
use crate::declaration::RewrittenDeclaration;
use crate::manifest::toml_document;
use crate::manifest::NodeView;
use crate::outcome::seen;
use crate::pattern::is_tag_identifier;
use crate::tag::is_first_label_fault;
use crate::tag::is_label_fault;
use crate::tag::lemma_first_label_fault_is_one;
use crate::tag::listing;
use crate::tag::quoted;
use crate::tag::resolved_labels;
use crate::tag::rewritten;
use crate::tag::validated;
use crate::tag::TagError;
use crate::tag::TagErrorView;
use crate::text::joined;
use crate::text::lemma_occurs_in_chain;
use crate::text::lemma_occurs_in_middle;
use crate::text::lemma_part_occurs_in_joined;
use crate::text::lemma_wrapped_concat;
use crate::text::lemma_wrapped_one;
use crate::text::occurs_in;
use crate::text::prefixed;
use crate::text::repeats;
use crate::text::spaced;
use vstd::prelude::*;

verus! {

/// Whether entry `j` is the first of `list` that has occurred before.
pub open spec fn is_first_repeat(list: Seq<Seq<char>>, j: int) -> bool {
    &&& 0 <= j < list.len()
    &&& repeats(list, j)
    &&& forall|k: int| 0 <= k < j ==> !repeats(list, k)
}

/// The path of a moved function is its first name, the sentinel, its labels
/// in order and the sentinel once more, each but the first with `::` in
/// front of it. The `use` item gives the first name to exactly that path,
/// with the visibility that the function had. And the names on the path are
/// those of the modules in which the text puts the function, from the
/// outermost, and the name that the function has there.
pub proof fn law_qualified_path(labels: Seq<Seq<char>>, item: FunctionView)
    ensures
        rewritten(labels, item).qualified_path() == item.sig.name + "::t"@ + prefixed(
            labels,
            "::"@,
        ) + "::t"@,
        rewritten(labels, item).alias() == "#[allow(unused_imports)]\n"@ + spaced(item.vis)
            + "use "@ + rewritten(labels, item).qualified_path() + " as "@ + item.sig.name
            + ";\n"@,
        rewritten(labels, item).function.sig.name == "t"@,
        rewritten(labels, item).source() == "use std::prelude::v1::*;\n"@ + rewritten(
            labels,
            item,
        ).alias() + "#[doc(hidden)]\n"@ + module(
            item.sig.name,
            nested(seq!["t"@] + labels, rewritten(labels, item).function.source() + "\n"@),
        ),
{
    let sep = "::"@;
    let none = Seq::<char>::empty();
    let moved = rewritten(labels, item);
    reveal_strlit("t");
    reveal_strlit("::");
    reveal_strlit("::t");
    assert("::t"@ =~= sep + sentinel());
    assert(moved.path.push(moved.function.sig.name) =~= seq![sentinel()] + labels + seq![
        sentinel(),
    ]);
    lemma_wrapped_concat(seq![sentinel()] + labels, seq![sentinel()], sep, none);
    lemma_wrapped_concat(seq![sentinel()], labels, sep, none);
    lemma_wrapped_one(sentinel(), sep, none);
    assert(moved.qualified_path() =~= item.sig.name + "::t"@ + prefixed(labels, sep) + "::t"@);
}

/// Every label stands in the path of the moved function with `::` on both
/// sides, so that a filter on the path finds the function by any one of its
/// labels.
pub proof fn law_label_in_path(labels: Seq<Seq<char>>, item: FunctionView, k: int)
    requires
        0 <= k < labels.len(),
    ensures
        occurs_in("::"@ + labels[k] + "::"@, rewritten(labels, item).qualified_path()),
{
    let sep = "::"@;
    let none = Seq::<char>::empty();
    let moved = rewritten(labels, item);
    let names = moved.path.push(moved.function.sig.name);
    let j = k + 1;
    let front = names.take(j);
    let back = names.skip(j + 1);
    assert(names[j] == labels[k]);
    assert(names =~= front + seq![names[j]] + back);
    assert(back =~= seq![back[0]] + back.skip(1));
    lemma_wrapped_concat(front + seq![names[j]], back, sep, none);
    lemma_wrapped_concat(front, seq![names[j]], sep, none);
    lemma_wrapped_concat(seq![back[0]], back.skip(1), sep, none);
    lemma_wrapped_one(names[j], sep, none);
    lemma_wrapped_one(back[0], sep, none);
    let before = item.sig.name + prefixed(front, sep);
    let after = back[0] + prefixed(back.skip(1), sep);
    lemma_occurs_in_middle(before, sep + labels[k] + sep, after);
    assert(moved.qualified_path() =~= before + (sep + labels[k] + sep) + after);
}

/// Resolving the same labels on the same declaration against the same
/// allowed tags gives the same outcome each time: the same text, character
/// by character, or the same error.
pub proof fn law_same_input_same_output(
    labels: Seq<Seq<char>>,
    item: FunctionView,
    allowed: Seq<Seq<char>>,
    first: Result<RewrittenDeclaration, TagError>,
    second: Result<RewrittenDeclaration, TagError>,
)
    requires
        seen(first) == resolved_labels(labels, item, allowed),
        seen(second) == resolved_labels(labels, item, allowed),
    ensures
        first is Ok <==> second is Ok,
        first is Ok ==> first->Ok_0@.source() == second->Ok_0@.source(),
        first is Err ==> first->Err_0@ == second->Err_0@,
{
}

/// A list of tags in which an entry occurs twice is refused as one with a
/// duplicate, and the error names the first entry that has occurred
/// before, where every entry in front of that one has the shape of a tag.
/// So does every manifest that lists these tags.
pub proof fn law_duplicate_tag(tags: Seq<Seq<char>>, j: int)
    requires
        is_first_repeat(tags, j),
        forall|k: int| 0 <= k < j ==> is_tag_identifier(#[trigger] tags[k]),
    ensures
        checked(tags) == Err::<Seq<Seq<char>>, ConfigErrorView>(
            ConfigErrorView::DuplicateTag(tags[j]),
        ),
        forall|doc: NodeView|
            listed(doc) == Ok::<Seq<Seq<char>>, ConfigErrorView>(tags) ==> #[trigger] configured(
                doc,
            ) == Err::<Seq<Seq<char>>, ConfigErrorView>(ConfigErrorView::DuplicateTag(tags[j])),
        forall|manifest: Seq<char>|
            (toml_document(manifest) matches Ok(doc) && listed(doc) == Ok::<
                Seq<Seq<char>>,
                ConfigErrorView,
            >(tags)) ==> #[trigger] created(manifest) == Err::<Seq<Seq<char>>, ConfigErrorView>(
                ConfigErrorView::DuplicateTag(tags[j]),
            ),
{
    assert forall|k: int| 0 <= k < j implies !is_fault(tags, k) by {
        assert(is_tag_identifier(tags[k]));
    }
    assert(is_first_fault(tags, j));
    lemma_first_fault_is_one(tags, j, choose|i: int| is_first_fault(tags, i));
}

/// A list of tags with an entry that does not have the shape of a tag is
/// refused for its format, and the error names the first such entry, where
/// no entry in front of that one has occurred before. So does every
/// manifest that lists these tags.
pub proof fn law_invalid_tag_format(tags: Seq<Seq<char>>, i: int)
    requires
        0 <= i < tags.len(),
        !is_tag_identifier(tags[i]),
        forall|k: int| 0 <= k < i ==> is_tag_identifier(#[trigger] tags[k]),
        forall|k: int| 0 <= k < i ==> !repeats(tags, k),
    ensures
        checked(tags) == Err::<Seq<Seq<char>>, ConfigErrorView>(
            ConfigErrorView::InvalidTagFormat(tags[i]),
        ),
        forall|doc: NodeView|
            listed(doc) == Ok::<Seq<Seq<char>>, ConfigErrorView>(tags) ==> #[trigger] configured(
                doc,
            ) == Err::<Seq<Seq<char>>, ConfigErrorView>(
                ConfigErrorView::InvalidTagFormat(tags[i]),
            ),
        forall|manifest: Seq<char>|
            (toml_document(manifest) matches Ok(doc) && listed(doc) == Ok::<
                Seq<Seq<char>>,
                ConfigErrorView,
            >(tags)) ==> #[trigger] created(manifest) == Err::<Seq<Seq<char>>, ConfigErrorView>(
                ConfigErrorView::InvalidTagFormat(tags[i]),
            ),
{
    assert(!repeats(tags, i)) by {
        if repeats(tags, i) {
            let j = choose|j: int| 0 <= j < i && #[trigger] tags[j] == tags[i];
            assert(is_tag_identifier(tags[j]));
        }
    }
    assert forall|k: int| 0 <= k < i implies !is_fault(tags, k) by {
        assert(is_tag_identifier(tags[k]));
    }
    assert(is_first_fault(tags, i));
    lemma_first_fault_is_one(tags, i, choose|j: int| is_first_fault(tags, j));
}

/// Labels among which one occurs twice are refused as a duplicate in use,
/// and the error names the first label that has occurred before, where
/// every label in front of that one is allowed. Whether the repeated label
/// is allowed is not asked.
pub proof fn law_duplicate_label(labels: Seq<Seq<char>>, allowed: Seq<Seq<char>>, j: int)
    requires
        is_first_repeat(labels, j),
        forall|k: int| 0 <= k < j ==> allowed.contains(#[trigger] labels[k]),
    ensures
        validated(labels, allowed) == Err::<(), TagErrorView>(
            TagErrorView::DuplicateTagInUse(labels[j]),
        ),
{
    assert forall|k: int| 0 <= k < j implies !is_label_fault(labels, allowed, k) by {
        assert(allowed.contains(labels[k]));
    }
    assert(is_first_label_fault(labels, allowed, j));
    lemma_first_label_fault_is_one(
        labels,
        allowed,
        j,
        choose|i: int| is_first_label_fault(labels, allowed, i),
    );
}

/// Labels among which one is not allowed are refused, whatever else holds
/// of them.
pub proof fn law_unknown_label_fails(labels: Seq<Seq<char>>, allowed: Seq<Seq<char>>, i: int)
    requires
        0 <= i < labels.len(),
        !allowed.contains(labels[i]),
    ensures
        validated(labels, allowed) is Err,
{
    lemma_some_label_fault_is_first(labels, allowed, i);
}

/// Where a label is at fault, some label is the first at fault.
proof fn lemma_some_label_fault_is_first(labels: Seq<Seq<char>>, allowed: Seq<Seq<char>>, i: int)
    requires
        0 <= i < labels.len(),
        is_label_fault(labels, allowed, i),
    ensures
        exists|j: int| is_first_label_fault(labels, allowed, j),
    decreases i,
{
    if exists|k: int| 0 <= k < i && is_label_fault(labels, allowed, k) {
        let k = choose|k: int| 0 <= k < i && is_label_fault(labels, allowed, k);
        lemma_some_label_fault_is_first(labels, allowed, k);
    } else {
        assert(is_first_label_fault(labels, allowed, i));
    }
}

/// Labels among which one is not allowed are refused with an error that
/// names the first such label and carries the allowed tags, where no label
/// in front of that one has occurred before. The words of the error hold
/// the list of the allowed tags, and so every one of the tags.
pub proof fn law_unknown_label(labels: Seq<Seq<char>>, allowed: Seq<Seq<char>>, i: int)
    requires
        0 <= i < labels.len(),
        !allowed.contains(labels[i]),
        forall|k: int| 0 <= k < i ==> allowed.contains(#[trigger] labels[k]),
        forall|k: int| 0 <= k < i ==> !repeats(labels, k),
    ensures
        validated(labels, allowed) == Err::<(), TagErrorView>(
            TagErrorView::TagNotAllowed(labels[i], allowed),
        ),
        occurs_in(listing(allowed), TagErrorView::TagNotAllowed(labels[i], allowed).message()),
        forall|k: int|
            0 <= k < allowed.len() ==> occurs_in(
                #[trigger] allowed[k],
                TagErrorView::TagNotAllowed(labels[i], allowed).message(),
            ),
{
    assert(!repeats(labels, i)) by {
        if repeats(labels, i) {
            let j = choose|j: int| 0 <= j < i && #[trigger] labels[j] == labels[i];
            assert(allowed.contains(labels[j]));
        }
    }
    assert forall|k: int| 0 <= k < i implies !is_label_fault(labels, allowed, k) by {
        assert(allowed.contains(labels[k]));
    }
    assert(is_first_label_fault(labels, allowed, i));
    lemma_first_label_fault_is_one(
        labels,
        allowed,
        i,
        choose|j: int| is_first_label_fault(labels, allowed, j),
    );
    let message = TagErrorView::TagNotAllowed(labels[i], allowed).message();
    let shown = listing(allowed);
    lemma_occurs_in_middle("Invalid tag '"@ + labels[i] + "'. Allowed tags are: "@, shown, "."@);
    assert forall|k: int| 0 <= k < allowed.len() implies occurs_in(
        #[trigger] allowed[k],
        message,
    ) by {
        let all = quoted(allowed);
        lemma_occurs_in_middle("\""@, allowed[k], "\""@);
        lemma_part_occurs_in_joined(all, ", "@, k);
        lemma_occurs_in_chain(allowed[k], all[k], joined(all, ", "@));
        lemma_occurs_in_middle("["@, joined(all, ", "@), "]"@);
        lemma_occurs_in_chain(allowed[k], joined(all, ", "@), shown);
        lemma_occurs_in_chain(allowed[k], shown, message);
    }
}

/// Labels pass validation exactly where each is allowed and none occurs
/// twice. Against a valid allow-list every label that passes has the shape
/// of a tag, so the modules that are named after the labels bear legal
/// names, and no two of them the same.
pub proof fn law_valid_labels(labels: Seq<Seq<char>>, allowed: Seq<Seq<char>>)
    ensures
        validated(labels, allowed) is Ok <==> forall|i: int|
            0 <= i < labels.len() ==> allowed.contains(#[trigger] labels[i]) && !repeats(
                labels,
                i,
            ),
        validated(labels, allowed) is Ok && is_allow_list(allowed) ==> forall|i: int|
            0 <= i < labels.len() ==> is_tag_identifier(#[trigger] labels[i]),
{
    if validated(labels, allowed) is Ok {
        assert forall|i: int| 0 <= i < labels.len() implies allowed.contains(
            #[trigger] labels[i],
        ) && !repeats(labels, i) by {
            if is_label_fault(labels, allowed, i) {
                lemma_some_label_fault_is_first(labels, allowed, i);
            }
        }
        if is_allow_list(allowed) {
            assert forall|i: int| 0 <= i < labels.len() implies is_tag_identifier(
                #[trigger] labels[i],
            ) by {
                let k = choose|k: int| 0 <= k < allowed.len() && allowed[k] == labels[i];
                assert(is_tag_identifier(allowed[k]));
            }
        }
    } else {
        let i = choose|i: int| is_first_label_fault(labels, allowed, i);
        assert(is_label_fault(labels, allowed, i));
    }
}

/// Once the attributes have been disambiguated, none is named by the bare
/// word `test`, and disambiguating them again changes nothing. An attribute
/// that was no bare `test` is what it was; so a tag annotation stays one.
pub proof fn law_disambiguation_settles(attr: AttrView)
    ensures
        !attr.disambiguated().is_bare_test(),
        attr.disambiguated().disambiguated() == attr.disambiguated(),
        !attr.is_bare_test() ==> attr.disambiguated() == attr,
        attr.disambiguated().is_tag() == attr.is_tag(),
{
    reveal_strlit("test");
    reveal_strlit("tag");
    reveal_strlit("self");
    reveal_strlit("pinny");
    if attr.is_bare_test() {
        let changed = attr.disambiguated();
        assert(changed.segments.len() == 2);
        assert(changed.segments[0] == "self"@);
        assert(changed.segments[1] == "test"@);
        assert("self"@[0] != "pinny"@[0]);
        assert("test"@[1] != "tag"@[1]);
    }
}

} // verus!
