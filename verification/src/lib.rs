//! Tags for test functions.
//!
//! A test author puts labels on a test function:
//!
//! ```rust,ignore
//! #[tag(fast, bitcoin)]
//! #[test]
//! fn test_quick_btc() {
//!     assert!(true);
//! }
//! ```
//!
//! The labels have to be among the tags that the project allows in its
//! manifest:
//!
//! ```toml
//! [package.metadata.pinny]
//! allowed = ["fast", "slow", "bitcoin", "other"]
//! ```
//!
//! The function is then moved below one module for each label, between two
//! marks named `t`, and keeps its first name through a `use` item:
//!
//! ```text
//! <module_path>::test_quick_btc::t::fast::bitcoin::t
//! ```
//!
//! A test runner that filters on qualified names now selects tests by tag,
//! without knowing of tags: `cargo test :fast:` runs the tests tagged `fast`.
//!
//! This library holds the rules: how the allow-list is read from the
//! manifest and checked ([`config`]), how the labels of an annotation are
//! read and checked and how the function is moved ([`tag`]), and what text
//! stands in its place afterwards ([`declaration`]). It reads no file and no
//! environment; its callers hand it texts. TOML is read by `toml`, Rust by
//! `syn`, the shape of a tag is matched by `regex`; what is taken on trust of
//! them is said where they are called. What holds of the rules is proved in
//! [`laws`].

pub mod attribute;
pub mod config;
pub mod declaration;
pub mod labels;
pub mod laws;
pub mod manifest;
pub mod outcome;
pub mod pattern;
pub mod syntax;
pub mod tag;
pub mod text;
