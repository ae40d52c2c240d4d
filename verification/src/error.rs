//! The library's error type: one variant per way an operation can fail,
//! each carrying the plain values its message names.
use vstd::prelude::*;
use vstd::string::*;
use crate::text::{views, join_with, join_from};

verus! {

/// Everything that can go wrong in the library. Paths are carried as the
/// text they were given as.
#[derive(Debug, Clone, PartialEq, Eq)]
pub enum Error {
    Io { path: String, reason: String },
    Git(String),
    Render(String),
    Frontmatter(String),
    FrontmatterWrite(String),
    NotFound(String),
    InvalidRevision { name: String, rev: String, reason: String },
    AlreadyInitialized(String),
    NotAStore(String),
    InvalidTagName { tag: String, reason: String },
    TagAlreadyExists { name: String, tag: String },
    TagNotFound { name: String, tag: String },
    NotALibrary(String),
    SourcesManifest { path: String, reason: String },
    UnknownSource { name: String },
    AmbiguousSource { candidates: String },
    DuplicateSourceName { name: String },
    SourceNotUpdatable { name: String, reason: String },
    NotFastForward { name: String },
    SkillAlreadyExists { paths: Vec<String> },
}


/// The message describing `e`.
pub open spec fn message_of(e: Error) -> Seq<char> {
    match e {
            Error::Io { path, reason } => "io error at "@ + path@ + ": "@ + reason@,
            Error::Git(s) => "git error: "@ + s@,
            Error::Render(s) => "template render error: "@ + s@,
            Error::Frontmatter(s) => "frontmatter parse error: "@ + s@,
            Error::FrontmatterWrite(s) => "frontmatter serialize error: "@ + s@,
            Error::NotFound(s) => "template not found: "@ + s@,
            Error::InvalidRevision { name, rev, reason } => "invalid revision '"@ + rev@ + "' for '"@ + name@ + "': "@ + reason@,
            Error::AlreadyInitialized(p) => "store already initialized at "@ + p@,
            Error::NotAStore(p) => "'"@ + p@ + "' doesn't look like a lengua store (no templates/ directory) — pass --store <path>, or run `lengua init` here first"@,
            Error::InvalidTagName { tag, reason } => "invalid tag name '"@ + tag@ + "': "@ + reason@,
            Error::TagAlreadyExists { name, tag } => "tag '"@ + tag@ + "' already exists on '"@ + name@ + "' (use --force to overwrite)"@,
            Error::TagNotFound { name, tag } => "no tag '"@ + tag@ + "' on '"@ + name@ + "'"@,
            Error::NotALibrary(p) => "'"@ + p@ + "' doesn't look like a lengua library (no .lengua/sources.toml) — pass --store <path>, or run `lengua init` here first"@,
            Error::SourcesManifest { path, reason } => "couldn't read sources manifest at "@ + path@ + ": "@ + reason@,
            Error::UnknownSource { name } => "no source named '"@ + name@ + "'"@,
            Error::AmbiguousSource { candidates } => "multiple sources exist ("@ + candidates@ + ") — pass --source <name> to pick one"@,
            Error::DuplicateSourceName { name } => "a source named '"@ + name@ + "' already exists — pass --name to pick a different one"@,
            Error::SourceNotUpdatable { name, reason } => "source '"@ + name@ + "' can't be updated: "@ + reason@,
            Error::NotFastForward { name } => "source '"@ + name@ + "' has diverged from its origin and can't be fast-forwarded — resolve manually or re-fetch it fresh"@,
            Error::SkillAlreadyExists { paths } => "skill file(s) already exist: "@ + join_with(views(paths@), ", "@) + " (use --force to overwrite)"@,
    }
}

impl Error {
    /// The message describing this error, as shown to a user.
    pub fn message(&self) -> (r: String)
        ensures
            r@ == message_of(*self),
    {
        match self {
            Error::Io { path, reason } => {
                let mut m = String::new();
                m.append("io error at ");
                m.append(path.as_str());
                m.append(": ");
                m.append(reason.as_str());
                m
            },
            Error::Git(s) => {
                let mut m = String::new();
                m.append("git error: ");
                m.append(s.as_str());
                m
            },
            Error::Render(s) => {
                let mut m = String::new();
                m.append("template render error: ");
                m.append(s.as_str());
                m
            },
            Error::Frontmatter(s) => {
                let mut m = String::new();
                m.append("frontmatter parse error: ");
                m.append(s.as_str());
                m
            },
            Error::FrontmatterWrite(s) => {
                let mut m = String::new();
                m.append("frontmatter serialize error: ");
                m.append(s.as_str());
                m
            },
            Error::NotFound(s) => {
                let mut m = String::new();
                m.append("template not found: ");
                m.append(s.as_str());
                m
            },
            Error::InvalidRevision { name, rev, reason } => {
                let mut m = String::new();
                m.append("invalid revision '");
                m.append(rev.as_str());
                m.append("' for '");
                m.append(name.as_str());
                m.append("': ");
                m.append(reason.as_str());
                m
            },
            Error::AlreadyInitialized(p) => {
                let mut m = String::new();
                m.append("store already initialized at ");
                m.append(p.as_str());
                m
            },
            Error::NotAStore(p) => {
                let mut m = String::new();
                m.append("'");
                m.append(p.as_str());
                m.append("' doesn't look like a lengua store (no templates/ directory) — pass --store <path>, or run `lengua init` here first");
                m
            },
            Error::InvalidTagName { tag, reason } => {
                let mut m = String::new();
                m.append("invalid tag name '");
                m.append(tag.as_str());
                m.append("': ");
                m.append(reason.as_str());
                m
            },
            Error::TagAlreadyExists { name, tag } => {
                let mut m = String::new();
                m.append("tag '");
                m.append(tag.as_str());
                m.append("' already exists on '");
                m.append(name.as_str());
                m.append("' (use --force to overwrite)");
                m
            },
            Error::TagNotFound { name, tag } => {
                let mut m = String::new();
                m.append("no tag '");
                m.append(tag.as_str());
                m.append("' on '");
                m.append(name.as_str());
                m.append("'");
                m
            },
            Error::NotALibrary(p) => {
                let mut m = String::new();
                m.append("'");
                m.append(p.as_str());
                m.append("' doesn't look like a lengua library (no .lengua/sources.toml) — pass --store <path>, or run `lengua init` here first");
                m
            },
            Error::SourcesManifest { path, reason } => {
                let mut m = String::new();
                m.append("couldn't read sources manifest at ");
                m.append(path.as_str());
                m.append(": ");
                m.append(reason.as_str());
                m
            },
            Error::UnknownSource { name } => {
                let mut m = String::new();
                m.append("no source named '");
                m.append(name.as_str());
                m.append("'");
                m
            },
            Error::AmbiguousSource { candidates } => {
                let mut m = String::new();
                m.append("multiple sources exist (");
                m.append(candidates.as_str());
                m.append(") — pass --source <name> to pick one");
                m
            },
            Error::DuplicateSourceName { name } => {
                let mut m = String::new();
                m.append("a source named '");
                m.append(name.as_str());
                m.append("' already exists — pass --name to pick a different one");
                m
            },
            Error::SourceNotUpdatable { name, reason } => {
                let mut m = String::new();
                m.append("source '");
                m.append(name.as_str());
                m.append("' can't be updated: ");
                m.append(reason.as_str());
                m
            },
            Error::NotFastForward { name } => {
                let mut m = String::new();
                m.append("source '");
                m.append(name.as_str());
                m.append("' has diverged from its origin and can't be fast-forwarded — resolve manually or re-fetch it fresh");
                m
            },
            Error::SkillAlreadyExists { paths } => {
                let mut m = String::new();
                m.append("skill file(s) already exist: ");
                let joined = join_from(paths, 0, ", ");
                assert(views(paths@).skip(0) =~= views(paths@));
                m.append(joined.as_str());
                m.append(" (use --force to overwrite)");
                m
            },
        }
    }
}

} // verus!
