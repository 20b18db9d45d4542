use pinny::config::ConfigError;
use pinny::config::ConfigStore;
use pinny::declaration::FunctionDeclaration;
use pinny::declaration::RewrittenDeclaration;
use pinny::tag::expand;
use pinny::tag::macro_impl;
use pinny::tag::parse_tag_labels;
use pinny::tag::resolve_labels;
use pinny::tag::resolve_tag;
use pinny::tag::rewrite;
use pinny::tag::Expansion;
use pinny::tag::Place;
use pinny::tag::TagError;
use quote::ToTokens;

fn allowed() -> Vec<String> {
    vec!["tag1".to_string(), "tag2".to_string()]
}

fn project() -> Vec<String> {
    vec!["fast".to_string(), "slow".to_string(), "bitcoin".to_string(), "other".to_string()]
}

fn has_glob_of_super(items: &[syn::Item]) -> bool {
    items.iter().any(|item| match item {
        syn::Item::Use(item) => {
            item.tree.to_token_stream().to_string().split_whitespace().collect::<String>()
                == "super::*"
        }
        _ => false,
    })
}

/// Walks the modules of `items` down to the one function, checks that each
/// module is public and brings in the names above it, and gives the path of
/// the function.
fn function_path(items: &[syn::Item]) -> (String, syn::ItemFn) {
    for item in items {
        match item {
            syn::Item::Mod(module) => {
                assert!(matches!(module.vis, syn::Visibility::Public(_)));
                let content = &module.content.as_ref().unwrap().1;
                assert!(has_glob_of_super(content));
                let (path, function) = function_path(content);
                return (format!("{}::{}", module.ident, path), function);
            }
            syn::Item::Fn(function) => {
                assert!(matches!(function.vis, syn::Visibility::Public(_)));
                return (function.sig.ident.to_string(), function.clone());
            }
            _ => {}
        }
    }
    panic!("no function");
}

/// The `use` item with a new name: what it names, the new name, and its
/// visibility as text.
fn alias(items: &[syn::Item]) -> (String, String, String) {
    for item in items {
        if let syn::Item::Use(item) = item {
            let mut path = Vec::new();
            let mut tree = &item.tree;
            loop {
                match tree {
                    syn::UseTree::Path(step) => {
                        path.push(step.ident.to_string());
                        tree = &step.tree;
                    }
                    syn::UseTree::Rename(rename) => {
                        path.push(rename.ident.to_string());
                        return (
                            path.join("::"),
                            rename.rename.to_string(),
                            item.vis.to_token_stream().to_string(),
                        );
                    }
                    _ => break,
                }
            }
        }
    }
    panic!("no alias");
}

fn items_of(rewritten: &RewrittenDeclaration) -> Vec<syn::Item> {
    syn::parse_file(&rewritten.to_source()).unwrap().items
}

#[test]
fn test_with_1_tag() {
    let rewritten = resolve_tag(
        "tag1",
        "#[test]
        fn test_with_1_tag() {
            assert_eq!(\"test_with_1_tag::t::tag1::t\", function_path!());
        }",
        &allowed(),
    )
    .unwrap();
    assert_eq!("test_with_1_tag::t::tag1::t", rewritten.qualified_path());
    assert_eq!("test_with_1_tag::t::tag1::t", function_path(&items_of(&rewritten)).0);
}

#[test]
fn test_with_2_tags() {
    let rewritten = resolve_tag(
        "tag1, tag2",
        "#[test]
        fn test_with_2_tags() {
            assert_eq!(\"test_with_2_tags::t::tag1::tag2::t\", function_path!());
        }",
        &allowed(),
    )
    .unwrap();
    assert_eq!("test_with_2_tags::t::tag1::tag2::t", rewritten.qualified_path());
    assert_eq!("test_with_2_tags::t::tag1::tag2::t", function_path(&items_of(&rewritten)).0);
}

#[test]
fn test_invoke_outer_fn() {
    let rewritten = resolve_tag(
        "tag2",
        "#[test]
        fn test_invoke_outer_fn() {
            invoke_me();
        }",
        &allowed(),
    )
    .unwrap();
    // every module between the function and where it stood brings in the names above it,
    // so that the body still finds what it calls
    let (path, function) = function_path(&items_of(&rewritten));
    assert_eq!("test_invoke_outer_fn::t::tag2::t", path);
    assert_eq!(
        "{invoke_me();}",
        function.block.to_token_stream().to_string().split_whitespace().collect::<String>()
    );
}

#[test]
fn test_refer_to_tagged_test_original_name() {
    let rewritten = resolve_tag(
        "tag2",
        "#[test]
        fn test_invoke_outer_fn() {
            invoke_me();
        }",
        &allowed(),
    )
    .unwrap();
    let items = items_of(&rewritten);
    let (target, name, _) = alias(&items);
    assert_eq!("test_invoke_outer_fn", name);
    assert_eq!("test_invoke_outer_fn::t::tag2::t", target);
    assert_eq!(function_path(&items).0, target);
}

#[test]
fn test_ignored_tagged_test() {
    let rewritten = resolve_tag(
        "tag1",
        "#[test]
        #[ignore]
        fn test_ignored_tagged_test() {
            panic!();
        }",
        &allowed(),
    )
    .unwrap();
    let (_, function) = function_path(&items_of(&rewritten));
    let attrs: Vec<String> = function
        .attrs
        .iter()
        .map(|attr| attr.to_token_stream().to_string().split_whitespace().collect())
        .collect();
    assert_eq!(vec!["#[self::test]".to_string(), "#[ignore]".to_string()], attrs);
}

#[test]
fn test_tokio_crate() {
    let rewritten = resolve_tag(
        "tag1",
        "#[test]
        async fn test_tokio_crate() {
            assert_eq!(
                \"thirdparty_tokio::test_tokio_crate::t::tag1::t::{{closure}}\",
                function_path!()
            );
        }",
        &allowed(),
    )
    .unwrap();
    assert_eq!("test_tokio_crate::t::tag1::t", rewritten.qualified_path());
    let (path, function) = function_path(&items_of(&rewritten));
    assert_eq!("test_tokio_crate::t::tag1::t", path);
    assert!(function.sig.asyncness.is_some());
}

#[test]
fn test_compilation_failure() {
    let result = resolve_tag(
        "tag1",
        "#[tag(tag2)]
        #[test]
        fn test_compilation_failure() {}",
        &allowed(),
    );
    assert_eq!(Err(TagError::MultipleTagAttributes), result);
}

#[test]
fn scenario_two_tags_of_a_project() {
    let rewritten =
        resolve_tag("fast, bitcoin", "#[test] fn test_quick_btc() { assert!(true); }", &project())
            .unwrap();
    assert_eq!("test_quick_btc::t::fast::bitcoin::t", rewritten.qualified_path());
    let items = items_of(&rewritten);
    let (target, name, _) = alias(&items);
    assert_eq!("test_quick_btc", name);
    assert_eq!("test_quick_btc::t::fast::bitcoin::t", target);
    assert_eq!(target, function_path(&items).0);
}

#[test]
fn scenario_label_used_twice() {
    let result = resolve_tag("fast, fast", "#[test] fn test_quick() {}", &project());
    assert_eq!(Err(TagError::DuplicateTagInUse("fast".to_string())), result);
}

#[test]
fn scenario_unknown_label() {
    let result = resolve_tag("unknown", "#[test] fn test_quick() {}", &project());
    assert_eq!(Err(TagError::TagNotAllowed("unknown".to_string(), project())), result);
    let message = result.unwrap_err().message();
    assert_eq!(
        "Invalid tag 'unknown'. Allowed tags are: [\"fast\", \"slow\", \"bitcoin\", \"other\"].",
        message
    );
    for tag in project() {
        assert!(message.contains(&tag));
    }
}

#[test]
fn scenario_manifest_without_allowed_tags() {
    let mut store = ConfigStore::new();
    let first = macro_impl(
        &mut store,
        || Ok("[package]\nname = \"consumer\"\n[package.metadata.pinny]\n".to_string()),
        "fast",
        "#[test] fn first() {}",
    );
    assert_eq!(
        Expansion::Diagnostic {
            message: "Missing `allowed` tags in Cargo.toml".to_string(),
            place: Place::Annotation,
        },
        first
    );
    assert!(matches!(store.get(), Some(Err(ConfigError::MissingTags))));
    // another annotation, later: the manifest would now do, but is not read again
    let second = macro_impl(
        &mut store,
        || Ok("[package.metadata.pinny]\nallowed = [\"slow\"]\n".to_string()),
        "slow",
        "#[test] fn second() {}",
    );
    assert_eq!(first, second);
    assert!(matches!(store.get(), Some(Err(ConfigError::MissingTags))));
}

#[test]
fn expansion_against_a_loaded_list() {
    let mut store = ConfigStore::new();
    let read = || Ok("[package.metadata.pinny]\nallowed = [\"fast\", \"slow\"]\n".to_string());
    match macro_impl(&mut store, read, "fast", "#[test] fn quick() {}") {
        Expansion::Rewritten(rewritten) => {
            assert_eq!("quick::t::fast::t", rewritten.qualified_path())
        }
        other => panic!("{other:?}"),
    }
    assert_eq!(
        Expansion::Diagnostic {
            message: "Invalid tag 'other'. Allowed tags are: [\"fast\", \"slow\"].".to_string(),
            place: Place::Annotation,
        },
        macro_impl(&mut store, || panic!("read twice"), "other", "#[test] fn quick() {}")
    );
    assert_eq!(
        Expansion::Diagnostic {
            message: "Duplicated tag 'slow'.".to_string(),
            place: Place::Annotation,
        },
        expand(store.get().unwrap(), "slow, slow", "#[test] fn quick() {}")
    );
    assert_eq!(
        Expansion::Diagnostic {
            message: "at least one tag is required: #[pinny::tag(<tags...>)]".to_string(),
            place: Place::Annotation,
        },
        expand(store.get().unwrap(), "", "#[test] fn quick() {}")
    );
    assert_eq!(
        Expansion::Diagnostic {
            message: "Only one #[pinny::tag] per function is allowed.".to_string(),
            place: Place::Declaration,
        },
        expand(store.get().unwrap(), "slow", "#[tag(fast)] #[test] fn quick() {}")
    );
    assert_eq!(
        Expansion::Diagnostic {
            message: "Failed to read Cargo.toml: gone".to_string(),
            place: Place::Annotation,
        },
        expand(&Err(ConfigError::ReadError("gone".to_string())), "slow", "#[test] fn quick() {}")
    );
}

#[test]
fn labels_are_read_before_the_declaration() {
    let both = resolve_tag("", "struct NoFunction;", &allowed());
    assert_eq!(Err(TagError::EmptyLabelList), both);
    let declaration = resolve_tag("tag1", "struct NoFunction;", &allowed());
    assert!(matches!(declaration, Err(TagError::NotAFunction(_))));
    // the declaration is read before its attributes and the labels are checked
    let declaration = resolve_tag("unknown", "#[tag(a)] fn broken( {}", &allowed());
    assert!(matches!(declaration, Err(TagError::NotAFunction(_))));
    // a second annotation is refused before the labels are checked
    let second = resolve_tag("unknown, unknown", "#[tag(a)] fn f() {}", &allowed());
    assert_eq!(Err(TagError::MultipleTagAttributes), second);
}

#[test]
fn text_of_the_whole_is_exact() {
    let rewritten = resolve_tag(
        "tag1, tag2",
        "#[test]
        #[ignore = \"slow\"]
        pub(crate) async fn check<T: Clone>(x: T) -> T where T: Send { x }",
        &allowed(),
    )
    .unwrap();
    let expected = "use std::prelude::v1::*;
#[allow(unused_imports)]
pub (crate) use check::t::tag1::tag2::t as check;
#[doc(hidden)]
pub mod check {
use super::*;
pub mod t {
use super::*;
pub mod tag1 {
use super::*;
pub mod tag2 {
use super::*;
#[self::test]
#[ignore = \"slow\"]
pub async fn t< T : Clone > (x : T) -> T where T : Send { x }
}
}
}
}
";
    assert_eq!(expected, rewritten.to_source());
    let items = items_of(&rewritten);
    assert_eq!("pub (crate)", alias(&items).2);
}

#[test]
fn text_without_visibility_and_attributes() {
    let rewritten = resolve_tag("tag1", "fn plain() {}", &allowed()).unwrap();
    let expected = "use std::prelude::v1::*;
#[allow(unused_imports)]
use plain::t::tag1::t as plain;
#[doc(hidden)]
pub mod plain {
use super::*;
pub mod t {
use super::*;
pub mod tag1 {
use super::*;
pub fn t() { }
}
}
}
";
    assert_eq!(expected, rewritten.to_source());
}

#[test]
fn same_input_gives_the_same_text() {
    let item = "#[test] #[tokio::test] unsafe extern \"C\" fn twice(a: u8, b: ...) -> u8 { a }";
    let first = resolve_tag("tag2, tag1", item, &allowed()).unwrap();
    let second = resolve_tag("tag2, tag1", item, &allowed()).unwrap();
    assert_eq!(first, second);
    assert_eq!(first.to_source().into_bytes(), second.to_source().into_bytes());
}

#[test]
fn moved_function_keeps_all_but_its_name() {
    let item = "#[test]
        #[should_panic(expected = \"x\")]
        pub const unsafe fn kept<'a, T>(x: &'a T, y: u8) -> &'a T where T: Sized { x }";
    let before = FunctionDeclaration::parse(item).unwrap();
    let labels = parse_tag_labels("tag1").unwrap();
    let rewritten = rewrite(labels, before.clone());
    assert_eq!("kept", rewritten.name);
    assert_eq!(before.vis, rewritten.vis);
    assert_eq!(vec!["t".to_string(), "tag1".to_string()], rewritten.path);
    assert_eq!("t", rewritten.function.sig.name);
    assert_eq!("pub", rewritten.function.vis);
    assert_eq!(before.sig.qualifiers, rewritten.function.sig.qualifiers);
    assert_eq!(before.sig.rest, rewritten.function.sig.rest);
    assert_eq!(before.block, rewritten.function.block);
    assert_eq!(before.attrs[1], rewritten.function.attrs[1]);
    assert_eq!(vec!["self".to_string(), "test".to_string()], rewritten.function.attrs[0].segments);
    // and what was read is what was written
    let reread = syn::parse_str::<syn::ItemFn>(&before.to_source()).unwrap();
    let written = syn::parse_str::<syn::ItemFn>(item).unwrap();
    assert_eq!(
        written.to_token_stream().to_string(),
        reread.to_token_stream().to_string()
    );
}

#[test]
fn sentinel_may_be_a_label_too() {
    let allowed = vec!["t".to_string()];
    let rewritten = resolve_tag("t", "#[test] fn f() {}", &allowed).unwrap();
    assert_eq!("f::t::t::t", rewritten.qualified_path());
    assert_eq!("f::t::t::t", function_path(&items_of(&rewritten)).0);
}

#[test]
fn resolving_parsed_labels() {
    let labels = parse_tag_labels("tag2").unwrap();
    let function = FunctionDeclaration::parse("fn f() {}").unwrap();
    let rewritten = resolve_labels(labels, function, &allowed()).unwrap();
    assert_eq!("f::t::tag2::t", rewritten.qualified_path());
}

#[test]
fn every_label_is_found_in_the_path() {
    let rewritten =
        resolve_tag("slow, bitcoin, other", "#[test] fn test_sluggish_btc() {}", &project())
            .unwrap();
    let path = rewritten.qualified_path();
    assert_eq!("test_sluggish_btc::t::slow::bitcoin::other::t", path);
    for label in ["slow", "bitcoin", "other"] {
        assert!(path.contains(&format!("::{label}::")));
        assert!(path.contains(&format!(":{label}:")));
    }
    assert!(!path.contains(":fast:"));
}

#[test]
fn errors_say_what_they_are_reported_at() {
    let list = vec!["fast".to_string()];
    assert_eq!(Place::Annotation, TagError::Syntax("x".to_string()).place());
    assert_eq!(Place::Annotation, TagError::EmptyLabelList.place());
    assert_eq!(Place::Annotation, TagError::DuplicateTagInUse("fast".to_string()).place());
    assert_eq!(Place::Annotation, TagError::TagNotAllowed("slow".to_string(), list).place());
    assert_eq!(Place::Declaration, TagError::MultipleTagAttributes.place());
    assert_eq!(Place::Declaration, TagError::NotAFunction("x".to_string()).place());
    match expand(&Ok(pinny::config::ConfigFactory::validate(vec![]).unwrap()), "a", "enum E {}") {
        Expansion::Diagnostic { place, .. } => assert_eq!(Place::Declaration, place),
        other => panic!("{other:?}"),
    }
    match expand(&Ok(pinny::config::ConfigFactory::validate(vec![]).unwrap()), "a b", "fn f() {}") {
        Expansion::Diagnostic { place, .. } => assert_eq!(Place::Annotation, place),
        other => panic!("{other:?}"),
    }
}

#[test]
fn one_annotation_still_on_the_declaration_is_one_too_many() {
    let labels = parse_tag_labels("tag1").unwrap();
    let function = FunctionDeclaration::parse("#[tag(tag2)] fn f() {}").unwrap();
    assert_eq!(
        Err(TagError::MultipleTagAttributes),
        resolve_labels(labels, function, &allowed())
    );
}
