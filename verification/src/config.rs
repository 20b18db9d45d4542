//! The allow-list of a project: how it is read from the manifest, what makes
//! it valid, and how it is kept once it has been read.

use crate::manifest::toml_document;
use crate::manifest::as_array;
use crate::manifest::as_str;
use crate::manifest::lookup;
use crate::manifest::parse;
use crate::manifest::value_view;
use crate::manifest::NodeView;
use crate::outcome::seen;
use crate::pattern::is_tag_identifier;
use crate::pattern::is_valid_tag;
use crate::text::owned;
use crate::text::repeats;
use crate::text::seen_before;
use crate::text::texts;
use vstd::prelude::*;
use vstd::std_specs::cmp::PartialEqSpecImpl;

verus! {

/// The tags that a project allows, in the order of its manifest.
#[derive(Debug)]
pub struct Config {
    pub allowed_tags: Vec<String>,
}

/// What makes a list of tags an allow-list: every entry has the shape of a
/// tag, and none occurs twice.
pub open spec fn is_allow_list(tags: Seq<Seq<char>>) -> bool {
    &&& forall|i: int| 0 <= i < tags.len() ==> is_tag_identifier(#[trigger] tags[i])
    &&& forall|i: int| 0 <= i < tags.len() ==> !repeats(tags, i)
}

impl View for Config {
    type V = Seq<Seq<char>>;

    /// The allowed tags.
    open spec fn view(&self) -> Seq<Seq<char>> {
        texts(self.allowed_tags@)
    }
}

impl Config {
    /// Whether the tags are an allow-list.
    pub open spec fn wf(&self) -> bool {
        is_allow_list(self@)
    }
}

/// Why no allow-list could be had.
#[derive(Debug)]
pub enum ConfigError {
    /// No variable names the project's directory; with the reason.
    MissingEnvVar(String),
    /// The manifest could not be read; with the reason.
    ReadError(String),
    /// The manifest is no TOML document; with the parser's words.
    ParseError(String),
    /// The manifest has no value at `package.metadata.pinny.allowed`.
    MissingTags,
    /// The value there is no array.
    InvalidArrayFormat,
    /// An item of the array is no string.
    InvalidStringType,
    /// The tag occurs twice in the list.
    DuplicateTag(String),
    /// The tag does not have the shape of a tag.
    InvalidTagFormat(String),
}

/// What a [`ConfigError`] holds.
pub enum ConfigErrorView {
    MissingEnvVar(Seq<char>),
    ReadError(Seq<char>),
    ParseError(Seq<char>),
    MissingTags,
    InvalidArrayFormat,
    InvalidStringType,
    DuplicateTag(Seq<char>),
    InvalidTagFormat(Seq<char>),
}

impl View for ConfigError {
    type V = ConfigErrorView;

    open spec fn view(&self) -> ConfigErrorView {
        match self {
            ConfigError::MissingEnvVar(reason) => ConfigErrorView::MissingEnvVar(reason@),
            ConfigError::ReadError(reason) => ConfigErrorView::ReadError(reason@),
            ConfigError::ParseError(reason) => ConfigErrorView::ParseError(reason@),
            ConfigError::MissingTags => ConfigErrorView::MissingTags,
            ConfigError::InvalidArrayFormat => ConfigErrorView::InvalidArrayFormat,
            ConfigError::InvalidStringType => ConfigErrorView::InvalidStringType,
            ConfigError::DuplicateTag(tag) => ConfigErrorView::DuplicateTag(tag@),
            ConfigError::InvalidTagFormat(tag) => ConfigErrorView::InvalidTagFormat(tag@),
        }
    }
}

impl ConfigErrorView {
    /// Whether two errors count as the same: they are of one kind, and where
    /// the kind names a tag, they name the same tag. The reason that an
    /// environment, read or parse error carries does not count.
    pub open spec fn same(self, other: ConfigErrorView) -> bool {
        match (self, other) {
            (ConfigErrorView::MissingEnvVar(_), ConfigErrorView::MissingEnvVar(_)) => true,
            (ConfigErrorView::ReadError(_), ConfigErrorView::ReadError(_)) => true,
            (ConfigErrorView::ParseError(_), ConfigErrorView::ParseError(_)) => true,
            (ConfigErrorView::MissingTags, ConfigErrorView::MissingTags) => true,
            (ConfigErrorView::InvalidArrayFormat, ConfigErrorView::InvalidArrayFormat) => true,
            (ConfigErrorView::InvalidStringType, ConfigErrorView::InvalidStringType) => true,
            (ConfigErrorView::DuplicateTag(a), ConfigErrorView::DuplicateTag(b)) => a == b,
            (ConfigErrorView::InvalidTagFormat(a), ConfigErrorView::InvalidTagFormat(b)) => a == b,
            _ => false,
        }
    }

    /// The words in which the error is reported.
    pub open spec fn message(self) -> Seq<char> {
        match self {
            ConfigErrorView::MissingEnvVar(reason) => "Failed to get CARGO_MANIFEST_DIR: "@
                + reason,
            ConfigErrorView::ReadError(reason) => "Failed to read Cargo.toml: "@ + reason,
            ConfigErrorView::ParseError(reason) => "Invalid TOML format: "@ + reason,
            ConfigErrorView::MissingTags => "Missing `allowed` tags in Cargo.toml"@,
            ConfigErrorView::InvalidArrayFormat => "`allowed` tags must be an array"@,
            ConfigErrorView::InvalidStringType => "Each tag should be a string"@,
            ConfigErrorView::DuplicateTag(tag) => "Duplicated tag found: "@ + tag,
            ConfigErrorView::InvalidTagFormat(tag) => "Tag is not a valid rust identifier: "@
                + tag,
        }
    }
}

impl PartialEq for ConfigError {
    fn eq(&self, other: &Self) -> (r: bool) {
        match (self, other) {
            (ConfigError::MissingEnvVar(_), ConfigError::MissingEnvVar(_)) => true,
            (ConfigError::ReadError(_), ConfigError::ReadError(_)) => true,
            (ConfigError::ParseError(_), ConfigError::ParseError(_)) => true,
            (ConfigError::MissingTags, ConfigError::MissingTags) => true,
            (ConfigError::InvalidArrayFormat, ConfigError::InvalidArrayFormat) => true,
            (ConfigError::InvalidStringType, ConfigError::InvalidStringType) => true,
            (ConfigError::DuplicateTag(a), ConfigError::DuplicateTag(b)) => *a == *b,
            (ConfigError::InvalidTagFormat(a), ConfigError::InvalidTagFormat(b)) => *a == *b,
            _ => false,
        }
    }
}

impl PartialEqSpecImpl for ConfigError {
    open spec fn obeys_eq_spec() -> bool {
        true
    }

    open spec fn eq_spec(&self, other: &Self) -> bool {
        self@.same(other@)
    }
}

impl ConfigError {
    /// The words in which the error is reported.
    pub fn message(&self) -> (r: String)
        ensures
            r@ == self@.message(),
    {
        match self {
            ConfigError::MissingEnvVar(reason) => owned(
                "Failed to get CARGO_MANIFEST_DIR: ",
            ).concat(reason.as_str()),
            ConfigError::ReadError(reason) => owned("Failed to read Cargo.toml: ").concat(
                reason.as_str(),
            ),
            ConfigError::ParseError(reason) => owned("Invalid TOML format: ").concat(
                reason.as_str(),
            ),
            ConfigError::MissingTags => owned("Missing `allowed` tags in Cargo.toml"),
            ConfigError::InvalidArrayFormat => owned("`allowed` tags must be an array"),
            ConfigError::InvalidStringType => owned("Each tag should be a string"),
            ConfigError::DuplicateTag(tag) => owned("Duplicated tag found: ").concat(tag.as_str()),
            ConfigError::InvalidTagFormat(tag) => owned(
                "Tag is not a valid rust identifier: ",
            ).concat(tag.as_str()),
        }
    }
}

/// Whether entry `i` of `tags` is at fault: it has occurred before, or it
/// does not have the shape of a tag.
pub open spec fn is_fault(tags: Seq<Seq<char>>, i: int) -> bool {
    repeats(tags, i) || !is_tag_identifier(tags[i])
}

/// Whether entry `i` is the first of `tags` that is at fault.
pub open spec fn is_first_fault(tags: Seq<Seq<char>>, i: int) -> bool {
    &&& 0 <= i < tags.len()
    &&& is_fault(tags, i)
    &&& forall|k: int| 0 <= k < i ==> !is_fault(tags, k)
}

/// What checking a list of tags gives: the list itself where no entry is at
/// fault; else the error for the first entry at fault, which is that of a
/// duplicate where the entry has occurred before, whatever its shape.
pub open spec fn checked(tags: Seq<Seq<char>>) -> Result<Seq<Seq<char>>, ConfigErrorView> {
    if exists|i: int| is_first_fault(tags, i) {
        let i = choose|i: int| is_first_fault(tags, i);
        if repeats(tags, i) {
            Err(ConfigErrorView::DuplicateTag(tags[i]))
        } else {
            Err(ConfigErrorView::InvalidTagFormat(tags[i]))
        }
    } else {
        Ok(tags)
    }
}

/// The keys that lead from the root of a manifest to the list of tags.
pub open spec fn allowed_path() -> Seq<Seq<char>> {
    seq!["package"@, "metadata"@, "pinny"@, "allowed"@]
}

/// The texts of the items, where each item is a text.
pub open spec fn item_texts(items: Seq<NodeView>) -> Seq<Seq<char>> {
    Seq::new(items.len(), |i: int| items[i]->Text_0)
}

/// What a manifest lists as its tags, before any check of the tags: the
/// value at [`allowed_path`] has to be there, to be an array, and to hold
/// nothing but strings.
pub open spec fn listed(doc: NodeView) -> Result<Seq<Seq<char>>, ConfigErrorView> {
    match doc.at(allowed_path()) {
        None => Err(ConfigErrorView::MissingTags),
        Some(NodeView::Array(items)) => if forall|i: int|
            0 <= i < items.len() ==> (#[trigger] items[i]) is Text {
            Ok(item_texts(items))
        } else {
            Err(ConfigErrorView::InvalidStringType)
        },
        Some(_) => Err(ConfigErrorView::InvalidArrayFormat),
    }
}

/// The allow-list of a manifest, or why it has none.
pub open spec fn configured(doc: NodeView) -> Result<Seq<Seq<char>>, ConfigErrorView> {
    match listed(doc) {
        Ok(tags) => checked(tags),
        Err(error) => Err(error),
    }
}

/// The allow-list that the text of a manifest gives, or why it gives none.
pub open spec fn created(manifest: Seq<char>) -> Result<Seq<Seq<char>>, ConfigErrorView> {
    match toml_document(manifest) {
        Ok(doc) => configured(doc),
        Err(refusal) => Err(ConfigErrorView::ParseError(refusal)),
    }
}

/// What reading the manifest and then loading from it gives: the error that
/// stopped the reading, or what the text gives.
pub open spec fn loaded(manifest: Result<String, ConfigError>) -> Result<
    Seq<Seq<char>>,
    ConfigErrorView,
> {
    match manifest {
        Ok(text) => created(text@),
        Err(error) => Err(error@),
    }
}

/// The first entry at fault is one entry only.
pub proof fn lemma_first_fault_is_one(tags: Seq<Seq<char>>, i: int, j: int)
    requires
        is_first_fault(tags, i),
        is_first_fault(tags, j),
    ensures
        i == j,
{
    if i < j {
        assert(!is_fault(tags, i));
    }
    if j < i {
        assert(!is_fault(tags, j));
    }
}

/// A list is an allow-list exactly where checking it succeeds, and checking
/// then hands it back unchanged.
pub proof fn lemma_checked_ok(tags: Seq<Seq<char>>)
    ensures
        checked(tags) is Ok <==> is_allow_list(tags),
        checked(tags) is Ok ==> checked(tags) == Ok::<Seq<Seq<char>>, ConfigErrorView>(tags),
{
    if is_allow_list(tags) {
        assert forall|i: int| !is_first_fault(tags, i) by {
            if 0 <= i < tags.len() {
                assert(is_tag_identifier(tags[i]));
                assert(!repeats(tags, i));
            }
        }
    }
    if checked(tags) is Ok {
        lemma_no_fault_upto(tags, tags.len() as int);
        assert forall|i: int| 0 <= i < tags.len() implies is_tag_identifier(
            #[trigger] tags[i],
        ) by {
            assert(!is_fault(tags, i));
        }
        assert forall|i: int| 0 <= i < tags.len() implies !repeats(tags, i) by {
            assert(!is_fault(tags, i));
        }
    }
}

/// Where no entry is the first at fault, none is at fault.
proof fn lemma_no_fault_upto(tags: Seq<Seq<char>>, n: int)
    requires
        0 <= n <= tags.len(),
        forall|i: int| !is_first_fault(tags, i),
    ensures
        forall|k: int| 0 <= k < n ==> !is_fault(tags, k),
    decreases n,
{
    if n > 0 {
        lemma_no_fault_upto(tags, n - 1);
        assert(!is_first_fault(tags, n - 1));
    }
}

/// The place where allow-lists are made.
pub struct ConfigFactory {
    _prevent_instance: (),
}

impl ConfigFactory {
    /// The variable that names the project's directory before any other.
    pub fn override_variable() -> (name: &'static str)
        ensures
            name@ == "PINNY_CARGO_MANIFEST_DIR"@,
    {
        "PINNY_CARGO_MANIFEST_DIR"
    }

    /// The variable that names the project's directory where the override is
    /// absent.
    pub fn standard_variable() -> (name: &'static str)
        ensures
            name@ == "CARGO_MANIFEST_DIR"@,
    {
        "CARGO_MANIFEST_DIR"
    }

    /// The name of the manifest in the project's directory.
    pub fn manifest_file_name() -> (name: &'static str)
        ensures
            name@ == "Cargo.toml"@,
    {
        "Cargo.toml"
    }

    /// The project's directory: what the override variable holds, else what
    /// the standard variable holds. `standard_dir` is that variable's value,
    /// or the reason why it has none.
    pub fn manifest_root(override_dir: Option<String>, standard_dir: Result<String, String>) -> (r:
        Result<String, ConfigError>)
        ensures
            match override_dir {
                Some(dir) => r == Ok::<String, ConfigError>(dir),
                None => match standard_dir {
                    Ok(dir) => r == Ok::<String, ConfigError>(dir),
                    Err(reason) => r == Err::<String, ConfigError>(
                        ConfigError::MissingEnvVar(reason),
                    ),
                },
            },
    {
        match override_dir {
            Some(dir) => Ok(dir),
            None => match standard_dir {
                Ok(dir) => Ok(dir),
                Err(reason) => Err(ConfigError::MissingEnvVar(reason)),
            },
        }
    }

    /// Checks a list of tags, from the first to the last: an entry that has
    /// occurred before is a duplicate, one of another shape than a tag's is
    /// invalid, and the first entry at fault decides.
    pub fn validate(allowed_tags: Vec<String>) -> (r: Result<Config, ConfigError>)
        ensures
            seen(r) == checked(texts(allowed_tags@)),
            r matches Ok(config) ==> config.wf(),
    {
        let ghost tags = texts(allowed_tags@);
        proof {
            lemma_checked_ok(tags);
        }
        let mut i: usize = 0;
        while i < allowed_tags.len()
            invariant
                i <= allowed_tags.len(),
                tags == texts(allowed_tags@),
                forall|k: int| 0 <= k < i ==> !is_fault(tags, k),
            decreases allowed_tags.len() - i,
        {
            let again = seen_before(&allowed_tags, i);
            let shaped = is_valid_tag(allowed_tags[i].as_str());
            if again || !shaped {
                proof {
                    assert(tags[i as int] == allowed_tags@[i as int]@);
                    assert(is_first_fault(tags, i as int));
                    lemma_first_fault_is_one(
                        tags,
                        i as int,
                        choose|j: int| is_first_fault(tags, j),
                    );
                }
                let tag = allowed_tags[i].clone();
                if again {
                    return Err(ConfigError::DuplicateTag(tag));
                } else {
                    return Err(ConfigError::InvalidTagFormat(tag));
                }
            }
            proof {
                assert(tags[i as int] == allowed_tags@[i as int]@);
            }
            i += 1;
        }
        assert(forall|j: int| !is_first_fault(tags, j));
        Ok(Config { allowed_tags })
    }

    /// The allow-list of a manifest that has been parsed.
    pub fn from_document(doc: &toml::Value) -> (r: Result<Config, ConfigError>)
        ensures
            seen(r) == configured(value_view(*doc)),
            r matches Ok(config) ==> config.wf(),
    {
        let mut path: Vec<String> = Vec::new();
        path.push(owned("package"));
        path.push(owned("metadata"));
        path.push(owned("pinny"));
        path.push(owned("allowed"));
        assert(texts(path@) =~= allowed_path());
        let found = match lookup(doc, &path) {
            None => {
                return Err(ConfigError::MissingTags);
            },
            Some(found) => found,
        };
        let items = match as_array(found) {
            None => {
                return Err(ConfigError::InvalidArrayFormat);
            },
            Some(items) => items,
        };
        let ghost views = value_view(*found)->Array_0;
        let mut tags: Vec<String> = Vec::new();
        let mut i: usize = 0;
        while i < items.len()
            invariant
                i <= items.len(),
                value_view(*doc).at(allowed_path()) == Some(NodeView::Array(views)),
                views.len() == items.len(),
                forall|k: int| 0 <= k < items.len() ==> #[trigger] views[k] == value_view(items[k]),
                tags@.len() == i,
                forall|k: int| 0 <= k < i ==> (#[trigger] views[k]) is Text,
                forall|k: int| 0 <= k < i ==> (#[trigger] tags@[k])@ == views[k]->Text_0,
            decreases items.len() - i,
        {
            match as_str(&items[i]) {
                Some(text) => {
                    tags.push(owned(text));
                },
                None => {
                    assert(!(views[i as int] is Text));
                    return Err(ConfigError::InvalidStringType);
                },
            }
            i += 1;
        }
        assert(texts(tags@) =~= item_texts(views));
        Self::validate(tags)
    }

    /// The allow-list that the text of a manifest gives: the text is parsed,
    /// the list is looked up and checked.
    pub fn create(manifest: &str) -> (r: Result<Config, ConfigError>)
        ensures
            seen(r) == created(manifest@),
            r matches Ok(config) ==> config.wf(),
    {
        match parse(manifest) {
            Ok(doc) => Self::from_document(&doc),
            Err(refusal) => Err(ConfigError::ParseError(refusal)),
        }
    }
}

/// The one place where a process keeps the outcome of loading its
/// allow-list. It starts empty, is filled at the first access, and never
/// changes after that.
pub struct ConfigStore {
    slot: Option<Result<Config, ConfigError>>,
}

impl ConfigStore {
    /// An allow-list in the store is a valid one.
    #[verifier::type_invariant]
    spec fn holds_valid_list(self) -> bool {
        self.slot matches Some(Ok(config)) ==> config.wf()
    }

    /// What the store holds: nothing yet, or the outcome of the one load.
    pub closed spec fn content(&self) -> Option<Result<Config, ConfigError>> {
        self.slot
    }

    /// An empty store.
    pub fn new() -> (store: ConfigStore)
        ensures
            store.content() is None,
    {
        ConfigStore { slot: None }
    }

    /// What the store holds, without loading anything.
    pub fn get(&self) -> (r: Option<&Result<Config, ConfigError>>)
        ensures
            match r {
                Some(held) => self.content() == Some(*held),
                None => self.content() is None,
            },
            r matches Some(Ok(config)) ==> config.wf(),
    {
        proof {
            use_type_invariant(self);
        }
        self.slot.as_ref()
    }
}

impl Config {
    /// The outcome of loading the allow-list, which is the same at every
    /// access. At the first access `read` is called for the text of the
    /// manifest, or the error that stopped the reading, the allow-list is
    /// made from it and the outcome, success or failure, is put into the
    /// store. At every later access the store is left as it is and what it
    /// holds is handed out, whatever `read` would give.
    pub fn get_instance<'a, F: FnOnce() -> Result<String, ConfigError>>(
        store: &'a mut ConfigStore,
        read: F,
    ) -> (r: &'a Result<Config, ConfigError>)
        requires
            call_requires(read, ()),
        ensures
            final(store).content() == Some(*r),
            old(store).content() matches Some(held) ==> *r == held,
            old(store).content() is None ==> exists|manifest: Result<String, ConfigError>|
                #[trigger] call_ensures(read, (), manifest) && seen(*r) == loaded(manifest),
            *r matches Ok(config) ==> config.wf(),
    {
        proof {
            use_type_invariant(&*store);
        }
        if store.slot.is_none() {
            let manifest = read();
            let fresh = match manifest {
                Ok(text) => ConfigFactory::create(text.as_str()),
                Err(error) => Err(error),
            };
            assert(seen(fresh) == loaded(manifest));
            store.slot = Some(fresh);
        }
        store.slot.as_ref().unwrap()
    }
}

} // verus!
