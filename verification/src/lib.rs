//! A git-backed library of templated text: the verified core.
//!
//! The modules here hold the logic of the library as functions on plain
//! values with contracts: argument parsing, revision tag rules, frontmatter
//! metadata and queries, source manifests and the merge of several sources,
//! history collapsing, and the thin calls into the outside crates that parse
//! frontmatter, render templates, diff text and colour terminal output.
pub mod text;
pub mod cli;
pub mod from_repo;
pub mod output;
pub mod error;
pub mod tags;
pub mod order;
pub mod yaml;
pub mod meta;
pub mod query;
pub mod frontmatter;
pub mod template;
pub mod diff;
pub mod manifest;
pub mod library;
pub mod store;
pub mod skills;
pub mod source;
pub mod report;
