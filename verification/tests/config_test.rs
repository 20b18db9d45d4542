use pinny::config::Config;
use pinny::config::ConfigError;
use pinny::config::ConfigFactory;
use pinny::config::ConfigStore;
use pinny::manifest::lookup;

#[test]
fn test_create_config_with_3_tags_ok() {
    let content = r#"
[Package]
name = "consumer"
version = "0.0.1"

[package.metadata.pinny]
allowed = ["tag1", "tag2", "tag3"]
"#;

    let config_result = ConfigFactory::create(content);
    assert!(config_result.is_ok());

    let config = config_result.unwrap();

    assert_eq!(3, config.allowed_tags.len());
    assert_eq!("tag1", config.allowed_tags[0]);
    assert_eq!("tag2", config.allowed_tags[1]);
    assert_eq!("tag3", config.allowed_tags[2]);
}

#[test]
fn test_create_config_with_missing_file_ko() {
    let mut store = ConfigStore::new();
    let config_result = Config::get_instance(&mut store, || {
        Err(ConfigError::ReadError("No such file or directory (os error 2)".to_string()))
    });
    assert!(config_result.is_err());
    assert!(matches!(
        config_result.as_ref().err().unwrap(),
        ConfigError::ReadError(_)
    ));
}

#[test]
fn test_create_config_with_invalid_toml_ko() {
    let content = r#"
[Pa
name = "consumer"
version = "0.0.1"

[package.metadata.pinny]
"#;

    let config_result = ConfigFactory::create(content);
    assert!(config_result.is_err());
    assert!(matches!(
        config_result.err().unwrap(),
        ConfigError::ParseError(_)
    ));
}

#[test]
fn test_create_config_with_missing_allowed_tags_ko() {
    let content = r#"
[Package]
name = "consumer"
version = "0.0.1"

[package.metadata.pinny]
"#;

    let config_result = ConfigFactory::create(content);
    assert!(config_result.is_err());
    assert_eq!(ConfigError::MissingTags, config_result.err().unwrap());
}

#[test]
fn test_create_config_with_missing_metadata_ko() {
    let content = r#"
[Package]
name = "consumer"
version = "0.0.1"
"#;

    let config_result = ConfigFactory::create(content);
    assert!(config_result.is_err());
    assert_eq!(ConfigError::MissingTags, config_result.err().unwrap());
}

#[test]
fn test_create_config_with_duplicated_tag_ko() {
    let content = r#"
[Package]
name = "consumer"
version = "0.0.1"

[package.metadata.pinny]
allowed = ["tag1", "tag1", "tag3"]
"#;

    let config_result = ConfigFactory::create(content);
    assert!(config_result.is_err());
    assert_eq!(
        ConfigError::DuplicateTag("tag1".into()),
        config_result.err().unwrap()
    );
}

#[test]
fn test_create_config_with_invalid_tag_format_ko() {
    let content = r#"
[Package]
name = "consumer"
version = "0.0.1"

[package.metadata.pinny]
allowed = ["?invalid", "tag2", "tag3"]
"#;

    let config_result = ConfigFactory::create(content);
    assert!(config_result.is_err());
    assert_eq!(
        ConfigError::InvalidTagFormat("?invalid".into()),
        config_result.err().unwrap()
    );
}

#[test]
fn test_create_config_with_invalid_tags_array_ko() {
    let content = r#"
[Package]
name = "consumer"
version = "0.0.1"

[package.metadata.pinny]
allowed = "tag1"
"#;

    let config_result = ConfigFactory::create(content);
    assert!(config_result.is_err());
    assert_eq!(
        ConfigError::InvalidArrayFormat,
        config_result.err().unwrap()
    );
}

fn manifest_with(allowed: &str) -> String {
    format!("[package.metadata.pinny]\nallowed = {allowed}\n")
}

fn tags(list: &[&str]) -> Vec<String> {
    list.iter().map(|tag| tag.to_string()).collect()
}

#[test]
fn item_that_is_no_string_is_refused() {
    let result = ConfigFactory::create(&manifest_with("[\"tag1\", 2]"));
    assert_eq!(ConfigError::InvalidStringType, result.err().unwrap());
    // before any duplicate or shape is looked at
    let result = ConfigFactory::create(&manifest_with("[[\"tag1\"], [\"tag1\"]]"));
    assert_eq!(ConfigError::InvalidStringType, result.err().unwrap());
    let result = ConfigFactory::create(&manifest_with("[\"a\", \"a\", \"?\", true]"));
    assert_eq!(ConfigError::InvalidStringType, result.err().unwrap());
}

#[test]
fn value_that_is_no_array_is_refused() {
    for value in ["1", "1.5", "true", "1979-05-27", "{ a = \"tag1\" }"] {
        let result = ConfigFactory::create(&manifest_with(value));
        assert_eq!(ConfigError::InvalidArrayFormat, result.err().unwrap());
    }
}

#[test]
fn path_through_a_value_that_is_no_table_is_missing() {
    let result = ConfigFactory::create("package = \"text\"\n");
    assert_eq!(ConfigError::MissingTags, result.err().unwrap());
    let result = ConfigFactory::create("[package]\nmetadata = [\"pinny\"]\n");
    assert_eq!(ConfigError::MissingTags, result.err().unwrap());
    let result = ConfigFactory::create("[package.metadata]\npinny = 3\n");
    assert_eq!(ConfigError::MissingTags, result.err().unwrap());
    let result = ConfigFactory::create("");
    assert_eq!(ConfigError::MissingTags, result.err().unwrap());
}

#[test]
fn empty_list_is_an_allow_list() {
    let config = ConfigFactory::create(&manifest_with("[]")).unwrap();
    assert!(config.allowed_tags.is_empty());
}

#[test]
fn first_entry_at_fault_decides() {
    // the entry of another shape comes first
    assert_eq!(
        Err(ConfigError::InvalidTagFormat("Tag".into())),
        ConfigFactory::validate(tags(&["Tag", "a", "a"])).map(|config| config.allowed_tags)
    );
    // the repeated entry comes first
    assert_eq!(
        Err(ConfigError::DuplicateTag("a".into())),
        ConfigFactory::validate(tags(&["a", "a", "Tag"])).map(|config| config.allowed_tags)
    );
    // an entry that is repeated and of another shape is reported for its shape, at its first place
    assert_eq!(
        Err(ConfigError::InvalidTagFormat("?".into())),
        ConfigFactory::validate(tags(&["?", "?"])).map(|config| config.allowed_tags)
    );
    assert_eq!(
        Ok(tags(&["a", "b", "c"])),
        ConfigFactory::validate(tags(&["a", "b", "c"])).map(|config| config.allowed_tags)
    );
}

#[test]
fn shape_of_a_tag() {
    let shaped =
        ["a", "z", "tag", "tag1", "tag_1", "a_", "a__0", "t", "abcdefghijklmnopqrstuvwxyz0123456789_"];
    for tag in shaped {
        assert!(pinny::pattern::is_valid_tag(tag), "{tag}");
        assert!(ConfigFactory::validate(tags(&[tag])).is_ok(), "{tag}");
    }
    let misshapen = [
        "", "A", "1a", "_a", "aB", "a-b", "a b", " a", "a ", "a\n", "\na", "é", "aé", "a.b",
        "?invalid", "a\nb",
    ];
    for tag in misshapen {
        assert!(!pinny::pattern::is_valid_tag(tag), "{tag:?}");
        assert_eq!(
            ConfigError::InvalidTagFormat(tag.to_string()),
            ConfigFactory::validate(tags(&[tag])).err().unwrap(),
            "{tag:?}"
        );
    }
}

#[test]
fn messages_of_config_errors() {
    assert_eq!(
        "Failed to get CARGO_MANIFEST_DIR: environment variable not found",
        ConfigError::MissingEnvVar("environment variable not found".into()).message()
    );
    assert_eq!(
        "Failed to read Cargo.toml: denied",
        ConfigError::ReadError("denied".into()).message()
    );
    assert_eq!(
        "Invalid TOML format: broken",
        ConfigError::ParseError("broken".into()).message()
    );
    assert_eq!(
        "Missing `allowed` tags in Cargo.toml",
        ConfigError::MissingTags.message()
    );
    assert_eq!(
        "`allowed` tags must be an array",
        ConfigError::InvalidArrayFormat.message()
    );
    assert_eq!(
        "Each tag should be a string",
        ConfigError::InvalidStringType.message()
    );
    assert_eq!(
        "Duplicated tag found: tag1",
        ConfigError::DuplicateTag("tag1".into()).message()
    );
    assert_eq!(
        "Tag is not a valid rust identifier: ?invalid",
        ConfigError::InvalidTagFormat("?invalid".into()).message()
    );
}

#[test]
fn parse_error_carries_the_words_of_the_parser() {
    let error = ConfigFactory::create("[Pa\n").err().unwrap();
    match &error {
        ConfigError::ParseError(reason) => {
            assert!(!reason.is_empty());
            assert_eq!(format!("Invalid TOML format: {reason}"), error.message());
        }
        other => panic!("{other:?}"),
    }
}

#[test]
fn errors_of_one_kind_are_equal_whatever_their_reason() {
    assert_eq!(
        ConfigError::MissingEnvVar("a".into()),
        ConfigError::MissingEnvVar("b".into())
    );
    assert_eq!(ConfigError::ReadError("a".into()), ConfigError::ReadError("b".into()));
    assert_eq!(ConfigError::ParseError("a".into()), ConfigError::ParseError("b".into()));
    assert_ne!(ConfigError::DuplicateTag("a".into()), ConfigError::DuplicateTag("b".into()));
    assert_ne!(
        ConfigError::InvalidTagFormat("a".into()),
        ConfigError::InvalidTagFormat("b".into())
    );
    assert_ne!(ConfigError::DuplicateTag("a".into()), ConfigError::InvalidTagFormat("a".into()));
    assert_ne!(ConfigError::MissingTags, ConfigError::InvalidArrayFormat);
    assert_ne!(ConfigError::ReadError("a".into()), ConfigError::ParseError("a".into()));
}

#[test]
fn override_comes_before_the_standard_variable() {
    assert_eq!(
        Ok("/override".to_string()),
        ConfigFactory::manifest_root(Some("/override".into()), Ok("/standard".into()))
    );
    assert_eq!(
        Ok("/override".to_string()),
        ConfigFactory::manifest_root(Some("/override".into()), Err("not found".into()))
    );
    assert_eq!(
        Ok("/standard".to_string()),
        ConfigFactory::manifest_root(None, Ok("/standard".into()))
    );
    match ConfigFactory::manifest_root(None, Err("not found".into())) {
        Err(ConfigError::MissingEnvVar(reason)) => assert_eq!("not found", reason),
        other => panic!("{other:?}"),
    }
    assert_eq!("PINNY_CARGO_MANIFEST_DIR", ConfigFactory::override_variable());
    assert_eq!("CARGO_MANIFEST_DIR", ConfigFactory::standard_variable());
    assert_eq!("Cargo.toml", ConfigFactory::manifest_file_name());
}

#[test]
fn store_keeps_the_first_outcome() {
    let mut store = ConfigStore::new();
    assert!(store.get().is_none());
    let first = Config::get_instance(&mut store, || Ok(manifest_with("[\"fast\", \"slow\"]")));
    assert_eq!(tags(&["fast", "slow"]), first.as_ref().unwrap().allowed_tags);
    // a later access does not read again
    let second = Config::get_instance(&mut store, || panic!("read twice"));
    assert_eq!(tags(&["fast", "slow"]), second.as_ref().unwrap().allowed_tags);
    assert_eq!(tags(&["fast", "slow"]), store.get().unwrap().as_ref().unwrap().allowed_tags);
}

#[test]
fn store_keeps_a_failure_too() {
    let mut store = ConfigStore::new();
    let first = Config::get_instance(&mut store, || {
        Err(ConfigError::MissingEnvVar("environment variable not found".into()))
    });
    assert!(matches!(first, Err(ConfigError::MissingEnvVar(_))));
    let second = Config::get_instance(&mut store, || Ok(manifest_with("[\"fast\"]")));
    match second {
        Err(ConfigError::MissingEnvVar(reason)) => {
            assert_eq!("environment variable not found", reason)
        }
        other => panic!("{other:?}"),
    }
}

fn document(text: &str) -> toml::Value {
    text.parse::<toml::Value>().unwrap()
}

#[test]
fn values_are_found_along_a_path() {
    let doc = document("a = \"x\"\nb = [1, 2.5, true, 1979-05-27]\n[c]\nd = []\n[c.e]\nf = 1\n");
    let at = |path: &[&str]| {
        let path: Vec<String> = path.iter().map(|key| key.to_string()).collect();
        lookup(&doc, &path)
    };
    assert_eq!(Some("x"), at(&["a"]).and_then(|found| found.as_str()));
    assert_eq!(Some(4), at(&["b"]).and_then(|found| found.as_array()).map(|items| items.len()));
    assert_eq!(Some(0), at(&["c", "d"]).and_then(|found| found.as_array()).map(|items| items.len()));
    assert_eq!(Some(1), at(&["c", "e", "f"]).and_then(|found| found.as_integer()));
    assert!(at(&["c", "z"]).is_none());
    assert!(at(&["a", "d"]).is_none());
    assert!(at(&["b", "0"]).is_none());
    assert!(at(&["z"]).is_none());
    assert_eq!(Some(&doc), at(&[]));
}

#[test]
fn allow_list_of_a_document() {
    let doc = document(&manifest_with("[\"fast\"]"));
    assert_eq!(tags(&["fast"]), ConfigFactory::from_document(&doc).unwrap().allowed_tags);
    assert_eq!(
        ConfigError::MissingTags,
        ConfigFactory::from_document(&toml::Value::Integer(1)).err().unwrap()
    );
    assert_eq!(
        ConfigError::InvalidStringType,
        ConfigFactory::from_document(&document(&manifest_with("[\"fast\", 1.5]"))).err().unwrap()
    );
}
