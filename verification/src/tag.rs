//! The engine: it reads the labels of an annotation, checks them and the
//! declaration they stand on, and moves the function below its tags.

use crate::attribute::Attr;
use crate::attribute::AttrArgs;
use crate::attribute::AttrView;
use crate::config::is_allow_list;
use crate::config::loaded;
use crate::config::Config;
use crate::config::ConfigError;
use crate::config::ConfigErrorView;
use crate::config::ConfigStore;
use crate::declaration::attribute_views;
use crate::declaration::sentinel;
use crate::declaration::FunctionDeclaration;
use crate::declaration::FunctionView;
use crate::declaration::RewrittenDeclaration;
use crate::declaration::RewrittenView;
use crate::declaration::FnSig;
use crate::declaration::FnSigView;
use crate::labels::insert_label;
use crate::labels::label_count;
use crate::labels::label_list;
use crate::labels::label_texts;
use crate::labels::parse_terminated;
use crate::labels::TagLabels;
use crate::outcome::seen;
use crate::text::append_joined;
use crate::text::copy_texts;
use crate::text::holds;
use crate::text::joined;
use crate::text::owned;
use crate::text::repeats;
use crate::text::seen_before;
use crate::text::texts;
use vstd::prelude::*;

verus! {

/// What a failure is reported at.
#[derive(Debug, Clone, Copy, PartialEq, Eq)]
pub enum Place {
    /// The annotation with its labels.
    Annotation,
    /// The declaration that bears the annotation.
    Declaration,
}

/// Why an annotation is refused.
#[derive(Debug, Clone, PartialEq, Eq)]
pub enum TagError {
    /// The labels are no list of identifiers; with the parser's words.
    Syntax(String),
    /// The declaration is no function; with the parser's words.
    NotAFunction(String),
    /// The annotation names no label.
    EmptyLabelList,
    /// The function bears more than one annotation.
    MultipleTagAttributes,
    /// The label occurs twice in the annotation.
    DuplicateTagInUse(String),
    /// The label is not among the allowed tags, which follow it.
    TagNotAllowed(String, Vec<String>),
}

/// What a [`TagError`] holds.
pub enum TagErrorView {
    Syntax(Seq<char>),
    NotAFunction(Seq<char>),
    EmptyLabelList,
    MultipleTagAttributes,
    DuplicateTagInUse(Seq<char>),
    TagNotAllowed(Seq<char>, Seq<Seq<char>>),
}

impl View for TagError {
    type V = TagErrorView;

    open spec fn view(&self) -> TagErrorView {
        match self {
            TagError::Syntax(refusal) => TagErrorView::Syntax(refusal@),
            TagError::NotAFunction(refusal) => TagErrorView::NotAFunction(refusal@),
            TagError::EmptyLabelList => TagErrorView::EmptyLabelList,
            TagError::MultipleTagAttributes => TagErrorView::MultipleTagAttributes,
            TagError::DuplicateTagInUse(label) => TagErrorView::DuplicateTagInUse(label@),
            TagError::TagNotAllowed(label, allowed) => TagErrorView::TagNotAllowed(
                label@,
                texts(allowed@),
            ),
        }
    }
}

/// Every text of `list` between double quotes, as it stands: the tags of an
/// allow-list hold nothing that would have to be escaped there.
pub open spec fn quoted(list: Seq<Seq<char>>) -> Seq<Seq<char>> {
    Seq::new(list.len(), |i: int| "\""@ + list[i] + "\""@)
}

/// The list as it is shown in a message: in square brackets, each text
/// between double quotes, a comma and a space between neighbours.
pub open spec fn listing(list: Seq<Seq<char>>) -> Seq<char> {
    "["@ + joined(quoted(list), ", "@) + "]"@
}

impl TagErrorView {
    /// What the error is reported at: the declaration where it is no
    /// function or bears more than one annotation, else the annotation,
    /// whose labels are at fault.
    pub open spec fn place(self) -> Place {
        match self {
            TagErrorView::NotAFunction(_) => Place::Declaration,
            TagErrorView::MultipleTagAttributes => Place::Declaration,
            _ => Place::Annotation,
        }
    }

    /// The words in which the error is reported.
    pub open spec fn message(self) -> Seq<char> {
        match self {
            TagErrorView::Syntax(refusal) => refusal,
            TagErrorView::NotAFunction(refusal) => refusal,
            TagErrorView::EmptyLabelList =>
                "at least one tag is required: #[pinny::tag(<tags...>)]"@,
            TagErrorView::MultipleTagAttributes =>
                "Only one #[pinny::tag] per function is allowed."@,
            TagErrorView::DuplicateTagInUse(label) => "Duplicated tag '"@ + label + "'."@,
            TagErrorView::TagNotAllowed(label, allowed) => "Invalid tag '"@ + label
                + "'. Allowed tags are: "@ + listing(allowed) + "."@,
        }
    }
}

/// Appends the list as it is shown in a message.
fn append_listing(out: &mut String, list: &Vec<String>)
    ensures
        final(out)@ == old(out)@ + listing(texts(list@)),
{
    let mut shown: Vec<String> = Vec::new();
    let mut i: usize = 0;
    while i < list.len()
        invariant
            i <= list.len(),
            shown@.len() == i,
            forall|k: int|
                0 <= k < i ==> (#[trigger] shown@[k])@ == "\""@ + list@[k]@ + "\""@,
        decreases list.len() - i,
    {
        shown.push(owned("\"").concat(list[i].as_str()).concat("\""));
        i += 1;
    }
    assert(texts(shown@) =~= quoted(texts(list@)));
    out.append("[");
    append_joined(out, &shown, ", ");
    out.append("]");
    assert(out@ =~= old(out)@ + listing(texts(list@)));
}

impl TagError {
    /// What the error is reported at.
    pub fn place(&self) -> (r: Place)
        ensures
            r == self@.place(),
    {
        match self {
            TagError::NotAFunction(_) => Place::Declaration,
            TagError::MultipleTagAttributes => Place::Declaration,
            _ => Place::Annotation,
        }
    }

    /// The words in which the error is reported.
    pub fn message(&self) -> (r: String)
        ensures
            r@ == self@.message(),
    {
        match self {
            TagError::Syntax(refusal) => refusal.clone(),
            TagError::NotAFunction(refusal) => refusal.clone(),
            TagError::EmptyLabelList => owned(
                "at least one tag is required: #[pinny::tag(<tags...>)]",
            ),
            TagError::MultipleTagAttributes => owned(
                "Only one #[pinny::tag] per function is allowed.",
            ),
            TagError::DuplicateTagInUse(label) => owned("Duplicated tag '").concat(
                label.as_str(),
            ).concat("'."),
            TagError::TagNotAllowed(label, allowed) => {
                let mut out = owned("Invalid tag '");
                out.append(label.as_str());
                out.append("'. Allowed tags are: ");
                append_listing(&mut out, allowed);
                out.append(".");
                assert(out@ =~= self@.message());
                out
            },
        }
    }
}

/// An outcome of reading labels, seen through what the two sides hold.
pub open spec fn labelled(r: Result<TagLabels, TagError>) -> Result<
    Seq<Seq<char>>,
    TagErrorView,
> {
    match r {
        Ok(tags) => Ok(label_texts(tags)),
        Err(error) => Err(error@),
    }
}

/// Takes what the parser made of an annotation's text: hands the labels
/// on, refuses a list without a label, and turns the parser's refusal into
/// a syntax error.
pub fn accept_labels(parsed: Result<TagLabels, String>) -> (r: Result<TagLabels, TagError>)
    ensures
        labelled(r) == (match parsed {
            Ok(tags) => if label_texts(tags).len() == 0 {
                Err(TagErrorView::EmptyLabelList)
            } else {
                Ok(label_texts(tags))
            },
            Err(refusal) => Err(TagErrorView::Syntax(refusal@)),
        }),
        r is Ok ==> parsed is Ok && r->Ok_0 == parsed->Ok_0,
{
    match parsed {
        Ok(tags) => if label_count(&tags) == 0 {
            Err(TagError::EmptyLabelList)
        } else {
            Ok(tags)
        },
        Err(refusal) => Err(TagError::Syntax(refusal)),
    }
}

/// Reads the labels of an annotation from its text: identifiers separated
/// by commas. Whether a label occurs twice or is allowed is not asked here.
/// Which identifiers the text holds is for the parser to say; what comes
/// back has a label at least, or is a syntax error or the error of an
/// empty list.
pub fn parse_tag_labels(args: &str) -> (r: Result<TagLabels, TagError>)
    ensures
        match r {
            Ok(tags) => label_texts(tags).len() > 0,
            Err(error) => error is Syntax || error is EmptyLabelList,
        },
{
    accept_labels(parse_terminated(args))
}

/// Whether an attribute is a tag annotation, in its short or its full
/// spelling.
pub fn is_tag_attr(attr: &Attr) -> (r: bool)
    ensures
        r == attr@.is_tag(),
{
    match attr.args {
        AttrArgs::Eq { .. } => {
            return false;
        },
        _ => {},
    }
    if attr.is_named("tag") {
        return true;
    }
    if attr.segments.len() != 2 {
        return false;
    }
    let first = owned("pinny");
    let second = owned("tag");
    assert(attr@.segments[0] == attr.segments@[0]@);
    assert(attr@.segments[1] == attr.segments@[1]@);
    attr.segments[0] == first && attr.segments[1] == second
}

/// How many of the attributes are tag annotations.
pub open spec fn tag_count(attrs: Seq<AttrView>) -> nat
    decreases attrs.len(),
{
    if attrs.len() == 0 {
        0
    } else {
        tag_count(attrs.drop_last()) + if attrs.last().is_tag() {
            1nat
        } else {
            0nat
        }
    }
}

/// How many tag annotations a function bears that is handed over for one of
/// them to be worked on: that one, which the declaration no longer carries,
/// and those that are still on it.
pub open spec fn annotations(func: FunctionView) -> nat {
    1 + tag_count(func.attrs)
}

/// Counts the tag annotations among the attributes of a declaration.
pub fn count_tag_attrs(func: &FunctionDeclaration) -> (count: usize)
    ensures
        count == tag_count(func@.attrs),
{
    let ghost attrs = attribute_views(func.attrs@);
    let mut count: usize = 0;
    let mut i: usize = 0;
    assert(attrs.take(0) =~= Seq::<AttrView>::empty());
    while i < func.attrs.len()
        invariant
            i <= func.attrs.len(),
            attrs == attribute_views(func.attrs@),
            count == tag_count(attrs.take(i as int)),
            count <= i,
        decreases func.attrs.len() - i,
    {
        proof {
            assert(attrs.take(i + 1).drop_last() =~= attrs.take(i as int));
            assert(attrs.take(i + 1).last() == func.attrs@[i as int]@);
        }
        if is_tag_attr(&func.attrs[i]) {
            count += 1;
        }
        i += 1;
    }
    assert(attrs.take(func.attrs.len() as int) =~= attrs);
    count
}

/// Refuses a declaration whose attributes hold more than one tag
/// annotation.
pub fn validate_no_tag_attr(func: &FunctionDeclaration) -> (r: Result<(), TagError>)
    ensures
        seen(r) == if tag_count(func@.attrs) > 1 {
            Err::<(), TagErrorView>(TagErrorView::MultipleTagAttributes)
        } else {
            Ok::<(), TagErrorView>(())
        },
{
    if count_tag_attrs(func) > 1 {
        Err(TagError::MultipleTagAttributes)
    } else {
        Ok(())
    }
}

/// Whether label `i` is at fault: it has occurred before in the annotation,
/// or it is not among the allowed tags.
pub open spec fn is_label_fault(labels: Seq<Seq<char>>, allowed: Seq<Seq<char>>, i: int) -> bool {
    repeats(labels, i) || !allowed.contains(labels[i])
}

/// Whether label `i` is the first that is at fault.
pub open spec fn is_first_label_fault(
    labels: Seq<Seq<char>>,
    allowed: Seq<Seq<char>>,
    i: int,
) -> bool {
    &&& 0 <= i < labels.len()
    &&& is_label_fault(labels, allowed, i)
    &&& forall|k: int| 0 <= k < i ==> !is_label_fault(labels, allowed, k)
}

/// What validating labels against allowed tags gives: nothing to report
/// where no label is at fault; else the error for the first label at
/// fault, which is that of a duplicate where the label has occurred before,
/// allowed or not.
pub open spec fn validated(labels: Seq<Seq<char>>, allowed: Seq<Seq<char>>) -> Result<
    (),
    TagErrorView,
> {
    if exists|i: int| is_first_label_fault(labels, allowed, i) {
        let i = choose|i: int| is_first_label_fault(labels, allowed, i);
        if repeats(labels, i) {
            Err(TagErrorView::DuplicateTagInUse(labels[i]))
        } else {
            Err(TagErrorView::TagNotAllowed(labels[i], allowed))
        }
    } else {
        Ok(())
    }
}

/// The first label at fault is one label only.
pub proof fn lemma_first_label_fault_is_one(
    labels: Seq<Seq<char>>,
    allowed: Seq<Seq<char>>,
    i: int,
    j: int,
)
    requires
        is_first_label_fault(labels, allowed, i),
        is_first_label_fault(labels, allowed, j),
    ensures
        i == j,
{
    if i < j {
        assert(!is_label_fault(labels, allowed, i));
    }
    if j < i {
        assert(!is_label_fault(labels, allowed, j));
    }
}

/// Checks the labels of an annotation against the allow-list of the
/// project, from the first label to the last: a label that has occurred
/// before is a duplicate, one that is not among the allowed tags is refused
/// with the list of those, and the first label at fault decides.
pub fn validate_tag_labels(tags: &TagLabels, allowed_labels: &Vec<String>) -> (r: Result<
    (),
    TagError,
>)
    requires
        is_allow_list(texts(allowed_labels@)),
    ensures
        seen(r) == validated(label_texts(*tags), texts(allowed_labels@)),
{
    let labels = label_list(tags);
    let ghost all = texts(labels@);
    let ghost allowed = texts(allowed_labels@);
    let mut i: usize = 0;
    while i < labels.len()
        invariant
            i <= labels.len(),
            all == texts(labels@),
            all == label_texts(*tags),
            allowed == texts(allowed_labels@),
            is_allow_list(allowed),
            forall|k: int| 0 <= k < i ==> !is_label_fault(all, allowed, k),
        decreases labels.len() - i,
    {
        let again = seen_before(&labels, i);
        let known = holds(allowed_labels, &labels[i]);
        proof {
            assert(all[i as int] == labels@[i as int]@);
        }
        if again || !known {
            proof {
                assert(is_first_label_fault(all, allowed, i as int));
                lemma_first_label_fault_is_one(
                    all,
                    allowed,
                    i as int,
                    choose|j: int| is_first_label_fault(all, allowed, j),
                );
            }
            let label = labels[i].clone();
            if again {
                return Err(TagError::DuplicateTagInUse(label));
            } else {
                return Err(TagError::TagNotAllowed(label, copy_texts(allowed_labels)));
            }
        }
        i += 1;
    }
    assert(forall|j: int| !is_first_label_fault(all, allowed, j));
    Ok(())
}

/// Every attribute with a bare `test` turned into `self::test`.
pub open spec fn disambiguated_all(attrs: Seq<AttrView>) -> Seq<AttrView> {
    Seq::new(attrs.len(), |i: int| attrs[i].disambiguated())
}

/// Turns every attribute that is named by the bare word `test` into
/// `self::test`, and leaves the others as they are.
pub fn disambiguate_any_test_attr(attrs: &mut Vec<Attr>)
    ensures
        attribute_views(final(attrs)@) == disambiguated_all(attribute_views(old(attrs)@)),
{
    let ghost before = attribute_views(old(attrs)@);
    let mut i: usize = 0;
    while i < attrs.len()
        invariant
            i <= attrs.len(),
            attrs@.len() == before.len(),
            forall|k: int| 0 <= k < i ==> (#[trigger] attrs@[k])@ == before[k].disambiguated(),
            forall|k: int| i <= k < attrs@.len() ==> (#[trigger] attrs@[k])@ == before[k],
        decreases attrs.len() - i,
    {
        if !attrs[i].leading_colon && attrs[i].is_named("test") {
            let mut changed = attrs[i].copy();
            changed.segments.insert(0, owned("self"));
            assert(changed@.segments =~= seq!["self"@] + before[i as int].segments);
            attrs.set(i, changed);
        }
        i += 1;
    }
    assert(attribute_views(attrs@) =~= disambiguated_all(before));
}

/// What takes the place of a function that bears `labels`: the function
/// itself under the name of the sentinel, public, its attributes
/// disambiguated, the rest of its signature and its body as they were;
/// above it one module for the sentinel and one for each label, in order;
/// and its first name and visibility for the `use` item.
pub open spec fn rewritten(labels: Seq<Seq<char>>, item: FunctionView) -> RewrittenView {
    RewrittenView {
        name: item.sig.name,
        vis: item.vis,
        path: seq![sentinel()] + labels,
        function: FunctionView {
            attrs: disambiguated_all(item.attrs),
            vis: "pub"@,
            sig: FnSigView { name: sentinel(), ..item.sig },
            block: item.block,
        },
    }
}

/// Moves a function below its tags. The labels are taken as they are:
/// checking them is the caller's part.
pub fn rewrite(tags: TagLabels, item: FunctionDeclaration) -> (r: RewrittenDeclaration)
    ensures
        r@ == rewritten(label_texts(tags), item@),
{
    let ghost labels = label_texts(tags);
    let mut tags = tags;
    proof {
        reveal_strlit("t");
    }
    insert_label(&mut tags, 0, "t");
    let path = label_list(&tags);
    assert(texts(path@) =~= seq![sentinel()] + labels);
    let mut attrs = item.attrs;
    disambiguate_any_test_attr(&mut attrs);
    RewrittenDeclaration {
        name: item.sig.name,
        vis: item.vis,
        path,
        function: FunctionDeclaration {
            attrs,
            vis: owned("pub"),
            sig: FnSig { qualifiers: item.sig.qualifiers, name: owned("t"), rest: item.sig.rest },
            block: item.block,
        },
    }
}

/// What resolving an annotation gives, from its labels, the declaration it
/// stands on, which comes without that annotation, and the allowed tags:
/// the function must bear no annotation but the one, the labels have to be
/// valid; then the function is moved.
pub open spec fn resolved_labels(
    labels: Seq<Seq<char>>,
    item: FunctionView,
    allowed: Seq<Seq<char>>,
) -> Result<RewrittenView, TagErrorView> {
    if annotations(item) > 1 {
        Err(TagErrorView::MultipleTagAttributes)
    } else {
        match validated(labels, allowed) {
            Err(error) => Err(error),
            Ok(()) => Ok(rewritten(labels, item)),
        }
    }
}

/// Resolves an annotation whose labels have been parsed: checks the
/// declaration and the labels, and moves the function.
pub fn resolve_labels(
    tags: TagLabels,
    item: FunctionDeclaration,
    allowed_labels: &Vec<String>,
) -> (r: Result<RewrittenDeclaration, TagError>)
    requires
        is_allow_list(texts(allowed_labels@)),
    ensures
        seen(r) == resolved_labels(label_texts(tags), item@, texts(allowed_labels@)),
{
    // The annotation that is being worked on is one, and `item` no longer
    // carries it: any that is still there makes it more than one.
    if count_tag_attrs(&item) > 0 {
        return Err(TagError::MultipleTagAttributes);
    }
    match validate_tag_labels(&tags, allowed_labels) {
        Err(error) => {
            return Err(error);
        },
        Ok(()) => {},
    }
    Ok(rewrite(tags, item))
}

/// Whether `outcome` is one that resolving two texts can have: the error of
/// labels that are not read, of an empty list or of a declaration that is
/// not read; else what resolving gives for labels, one at least, and a
/// declaration.
pub open spec fn is_resolution(
    allowed: Seq<Seq<char>>,
    outcome: Result<RewrittenView, TagErrorView>,
) -> bool {
    ||| outcome matches Err(error) && (error is Syntax || error is EmptyLabelList
        || error is NotAFunction)
    ||| exists|labels: Seq<Seq<char>>, function: FunctionView|
        labels.len() > 0 && outcome == #[trigger] resolved_labels(labels, function, allowed)
}

/// Resolves an annotation: `args` is the text between the brackets of the
/// annotation, `item` the text of the declaration it stands on,
/// `allowed_labels` the allow-list of the project. The labels are read,
/// then the declaration; what is read is resolved as [`resolve_labels`]
/// says. On success the function has been moved below its tags; every
/// failure leaves nothing behind but its error.
pub fn resolve_tag(args: &str, item: &str, allowed_labels: &Vec<String>) -> (r: Result<
    RewrittenDeclaration,
    TagError,
>)
    requires
        is_allow_list(texts(allowed_labels@)),
    ensures
        is_resolution(texts(allowed_labels@), seen(r)),
{
    let tags = match parse_tag_labels(args) {
        Err(error) => {
            return Err(error);
        },
        Ok(tags) => tags,
    };
    let function = match FunctionDeclaration::parse(item) {
        Err(error) => {
            return Err(error);
        },
        Ok(function) => function,
    };
    let r = resolve_labels(tags, function, allowed_labels);
    assert(seen(r) == resolved_labels(label_texts(tags), function@, texts(allowed_labels@)));
    r
}

/// What stands where the annotated function stood.
#[derive(Debug, Clone, PartialEq, Eq)]
pub enum Expansion {
    /// The function, moved below its tags.
    Rewritten(RewrittenDeclaration),
    /// An error of the build, to be reported in these words at this place.
    Diagnostic { message: String, place: Place },
}

/// What an [`Expansion`] holds.
pub enum ExpansionView {
    Rewritten(RewrittenView),
    Diagnostic { message: Seq<char>, place: Place },
}

impl View for Expansion {
    type V = ExpansionView;

    open spec fn view(&self) -> ExpansionView {
        match self {
            Expansion::Rewritten(rewritten) => ExpansionView::Rewritten(rewritten@),
            Expansion::Diagnostic { message, place } => ExpansionView::Diagnostic {
                message: message@,
                place: *place,
            },
        }
    }
}

/// What stands for an outcome of resolving: the moved function, or the
/// words of the error at its place.
pub open spec fn shown(outcome: Result<RewrittenView, TagErrorView>) -> ExpansionView {
    match outcome {
        Ok(rewritten) => ExpansionView::Rewritten(rewritten),
        Err(error) => ExpansionView::Diagnostic { message: error.message(), place: error.place() },
    }
}

/// What stands for a failed load of the allow-list: the words of the error,
/// at the annotation.
pub open spec fn refused(error: ConfigErrorView) -> ExpansionView {
    ExpansionView::Diagnostic { message: error.message(), place: Place::Annotation }
}

/// Whether `expansion` is one that an annotation can have, given the
/// outcome of loading the allow-list: where there is no allow-list, what
/// stands for that failure; else what stands for an outcome of resolving
/// against the list.
pub open spec fn is_expansion(
    config: Result<Seq<Seq<char>>, ConfigErrorView>,
    expansion: ExpansionView,
) -> bool {
    match config {
        Err(error) => expansion == refused(error),
        Ok(allowed) => exists|outcome: Result<RewrittenView, TagErrorView>|
            is_resolution(allowed, outcome) && expansion == #[trigger] shown(outcome),
    }
}

impl Expansion {
    /// What stands for an outcome of resolving.
    pub fn of(outcome: Result<RewrittenDeclaration, TagError>) -> (r: Expansion)
        ensures
            r@ == shown(seen(outcome)),
    {
        match outcome {
            Ok(rewritten) => Expansion::Rewritten(rewritten),
            Err(error) => Expansion::Diagnostic { message: error.message(), place: error.place() },
        }
    }
}

/// Expands an annotation against the outcome of loading the allow-list.
pub fn expand(config: &Result<Config, ConfigError>, args: &str, item: &str) -> (r: Expansion)
    requires
        *config matches Ok(allowed) ==> allowed.wf(),
    ensures
        is_expansion(seen(*config), r@),
{
    match config {
        Ok(config) => {
            let outcome = resolve_tag(args, item, &config.allowed_tags);
            let r = Expansion::of(outcome);
            assert(r@ == shown(seen(outcome)));
            r
        },
        Err(error) => Expansion::Diagnostic { message: error.message(), place: Place::Annotation },
    }
}

/// Expands one annotation. The allow-list is taken from `store`, which is
/// filled through `read` if this is the first access of the process; an
/// error of that load is reported for this annotation and for every later
/// one.
pub fn macro_impl<F: FnOnce() -> Result<String, ConfigError>>(
    store: &mut ConfigStore,
    read: F,
    args: &str,
    item: &str,
) -> (r: Expansion)
    requires
        call_requires(read, ()),
    ensures
        final(store).content() matches Some(config) && is_expansion(seen(config), r@),
        old(store).content() is Some ==> final(store).content() == old(store).content(),
        old(store).content() is None ==> exists|manifest: Result<String, ConfigError>|
            #[trigger] call_ensures(read, (), manifest) && seen(
                final(store).content().unwrap(),
            ) == loaded(manifest),
{
    let config = Config::get_instance(store, read);
    expand(config, args, item)
}

} // verus!
