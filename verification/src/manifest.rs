//! `.lengua/sources.toml`: the ordered list of a library's named sources.
//!
//! Deliberately not a lockfile: no commit id is ever recorded here. Each
//! source's own nested git repo (`.lengua/<name>/.git`) is the sole authority
//! on what commit it's at; this file only records *what sources exist*, in
//! what order (fetch order doubles as merge-precedence order), and how each
//! was adopted (which decides how `update` fetches new content for it).
use vstd::prelude::*;
use vstd::string::*;
use crate::error::Error;
use crate::text::{same_text, char_count, concat};

verus! {

/// File name of the manifest inside `.lengua/`.
pub const MANIFEST_FILE: &'static str = "sources.toml";

/// Format version written into new manifests.
pub const MANIFEST_VERSION: u32 = 1;

/// How a source's content was adopted.
#[derive(Debug, Clone)]
pub enum SourceKind {
    /// Created by plain `init`: an empty, writable repo with no origin at
    /// all. Never updatable (there's nothing to fetch from).
    Local,
    /// Adopted via a raw filesystem copy of the directory `origin`.
    Copied { origin: String, subdir: Option<String> },
    /// Adopted via a git transport clone of `url`.
    Cloned { url: String, git_ref: Option<String>, subdir: Option<String> },
}

/// One named source of a library.
#[derive(Debug, Clone)]
pub struct SourceEntry {
    pub name: String,
    pub kind: SourceKind,
}

/// The manifest: a format version and the sources, lowest precedence first.
#[derive(Debug, Clone)]
pub struct SourcesManifest {
    pub version: u32,
    pub sources: Vec<SourceEntry>,
}

/// The names of the sources, in order.
pub open spec fn source_names(sources: Seq<SourceEntry>) -> Seq<Seq<char>> {
    sources.map_values(|e: SourceEntry| e.name@)
}

/// `path` joined with the relative name `name`, as `Path::join` does: a
/// `/` goes between them unless `path` is empty or already ends in `/`.
pub open spec fn join_path(path: Seq<char>, name: Seq<char>) -> Seq<char> {
    if path.len() == 0 || path.last() == '/' {
        path + name
    } else {
        path + "/"@ + name
    }
}

/// `path` joined with the relative name `name` (see [`join_path`]).
pub fn path_join(path: &str, name: &str) -> (r: String)
    ensures
        r@ == join_path(path@, name@),
{
    proof {
        reveal_strlit("/");
    }
    let n = char_count(path);
    if n == 0 || path.get_char(n - 1) == '/' {
        concat(path, name)
    } else {
        let mut r = concat(path, "/");
        r.append(name);
        r
    }
}

/// The manifest file inside the `.lengua/` directory `lengua_dir`.
pub fn manifest_path(lengua_dir: &str) -> (r: String)
    ensures
        r@ == join_path(lengua_dir@, "sources.toml"@),
{
    path_join(lengua_dir, "sources.toml")
}

impl SourcesManifest {
    /// The source names, in precedence order.
    pub open spec fn names(&self) -> Seq<Seq<char>> {
        source_names(self.sources@)
    }

    /// No two sources share a name.
    pub open spec fn wf(&self) -> bool {
        forall|i: int, j: int|
            0 <= i < j < self.sources@.len() ==> #[trigger] self.names()[i]
                != #[trigger] self.names()[j]
    }

    /// An empty manifest at the current format version.
    pub fn new() -> (r: Self)
        ensures
            r.version == 1,
            r.sources@.len() == 0,
            r.wf(),
    {
        SourcesManifest { version: MANIFEST_VERSION, sources: Vec::new() }
    }

    /// Whether a source called `name` is listed.
    pub fn contains(&self, name: &str) -> (r: bool)
        ensures
            r == self.names().contains(name@),
    {
        let mut i: usize = 0;
        while i < self.sources.len()
            invariant
                i <= self.sources@.len(),
                forall|j: int| 0 <= j < i ==> self.names()[j] != name@,
            decreases self.sources.len() - i,
        {
            if same_text(self.sources[i].name.as_str(), name) {
                assert(self.names()[i as int] == name@);
                return true;
            }
            i = i + 1;
        }
        false
    }

    /// Appends a new source, becoming the new highest-precedence entry.
    /// Errors, leaving the manifest as it was, if `name` is already taken.
    pub fn push(&mut self, entry: SourceEntry) -> (r: Result<(), Error>)
        ensures
            old(self).names().contains(entry.name@) ==> {
                &&& r matches Err(Error::DuplicateSourceName { name }) && name@ == entry.name@
                &&& *final(self) == *old(self)
            },
            !old(self).names().contains(entry.name@) ==> {
                &&& r is Ok
                &&& final(self).sources@ == old(self).sources@.push(entry)
                &&& final(self).version == old(self).version
            },
            old(self).wf() ==> final(self).wf(),
    {
        if self.contains(entry.name.as_str()) {
            return Err(Error::DuplicateSourceName { name: entry.name });
        }
        let ghost before = self.names();
        let ghost name = entry.name@;
        self.sources.push(entry);
        assert(self.names() =~= before.push(name));
        Ok(())
    }
}

} // verus!
