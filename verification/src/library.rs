//! The decisions of a library: a `.lengua/` directory holding one or more
//! named sources, listed in `sources.toml` (see [`crate::manifest`]).
//!
//! Reads with no explicit source merge across every source: the last fetched
//! (i.e. last in `sources.toml`) wins on a name collision, and a collision
//! always produces a [`ShadowWarning`], never a silent resolution. Writes and
//! the inherently single-source history/tag operations need an unambiguous
//! target: an explicit source name, or the sole source if there's only one,
//! else [`Error::AmbiguousSource`].
use vstd::prelude::*;
use vstd::string::*;
use crate::error::Error;
use crate::query::Query;
use crate::store::TemplateEntry;
use crate::manifest::{SourceEntry, SourceKind, SourcesManifest, join_path, path_join};
use crate::order::{keys_sorted, lookup, upsert_sorted, position_of};
use crate::text::{
    opt_chars, opt_view,
    pieces, views, split_pieces, same_text, char_count, last_index, rfind_char, substring, concat,
    has_suffix, ends_with, join_with, join_from,
};

verus! {

/// Directory, inside a library root, that holds the manifest and sources.
pub const LENGUA_DIR: &'static str = ".lengua";

/// Name given to the source a plain `init` creates.
pub const DEFAULT_LOCAL_NAME: &'static str = "local";

/// The last component of `comps` that is not `.`, if any.
pub open spec fn last_component(comps: Seq<Seq<char>>) -> Option<Seq<char>>
    decreases comps.len(),
{
    if comps.len() == 0 {
        None
    } else if comps.last() == "."@ {
        last_component(comps.drop_last())
    } else {
        Some(comps.last())
    }
}

/// The final component of the path `dir`, as `Path::file_name` gives it:
/// none when the path is empty, the root, or ends in `..`.
pub open spec fn file_name(dir: Seq<char>) -> Option<Seq<char>> {
    match last_component(pieces(dir, '/')) {
        Some(c) => if c == ".."@ {
            None
        } else {
            Some(c)
        },
        None => None,
    }
}

/// The source name a `--from-dir` path suggests: its final component, or
/// `source` when it has none.
pub open spec fn name_from_dir(dir: Seq<char>) -> Seq<char> {
    match file_name(dir) {
        Some(n) => if n.len() > 0 {
            n
        } else {
            "source"@
        },
        None => "source"@,
    }
}

/// The source name a `--from-dir` path suggests (see [`name_from_dir`]).
pub fn derive_name_from_dir(dir: &str) -> (r: String)
    ensures
        r@ == name_from_dir(dir@),
{
    proof {
        reveal_strlit(".");
        reveal_strlit("..");
        reveal_strlit("source");
    }
    let comps = split_pieces(dir, '/');
    let ghost cs = views(comps@);
    let mut k: usize = comps.len();
    assert(cs.take(k as int) =~= cs);
    while k > 0 && same_text(comps[k - 1].as_str(), ".")
        invariant
            k <= comps.len(),
            cs == views(comps@),
            last_component(cs) == last_component(cs.take(k as int)),
        decreases k,
    {
        assert(cs.take(k as int).drop_last() =~= cs.take(k - 1));
        assert(cs.take(k as int).last() == comps@[k - 1]@);
        k = k - 1;
    }
    if k == 0 {
        assert(cs.take(0) =~= Seq::<Seq<char>>::empty());
        return String::from_str("source");
    }
    assert(cs.take(k as int).last() == comps@[k - 1]@);
    let last = comps[k - 1].as_str();
    if same_text(last, "..") || char_count(last) == 0 {
        String::from_str("source")
    } else {
        String::from_str(last)
    }
}

/// `s` without the characters `c` at its end.
pub open spec fn trim_end_char(s: Seq<char>, c: char) -> Seq<char>
    decreases s.len(),
{
    if s.len() > 0 && s.last() == c {
        trim_end_char(s.drop_last(), c)
    } else {
        s
    }
}

/// `s` without repetitions of the non-empty `p` at its end.
pub open spec fn trim_end_seq(s: Seq<char>, p: Seq<char>) -> Seq<char>
    decreases s.len(),
{
    if p.len() > 0 && has_suffix(s, p) {
        trim_end_seq(s.take(s.len() - p.len()), p)
    } else {
        s
    }
}

/// The text of `s` after its last `c`, or all of `s` when there is none.
pub open spec fn after_last(s: Seq<char>, c: char) -> Seq<char> {
    match last_index(s, c) {
        Some(i) => s.skip(i + 1),
        None => s,
    }
}

/// The source name a `--from-repo` URL suggests: its last path segment,
/// without trailing slashes or `.git`, or `source` when that is empty.
pub open spec fn name_from_url(url: Seq<char>) -> Seq<char> {
    let trimmed = trim_end_seq(trim_end_char(url, '/'), ".git"@);
    let last = after_last(trimmed, '/');
    if last.len() > 0 {
        last
    } else {
        "source"@
    }
}

/// The source name a `--from-repo` URL suggests (see [`name_from_url`]).
pub fn derive_name_from_url(url: &str) -> (r: String)
    ensures
        r@ == name_from_url(url@),
{
    proof {
        reveal_strlit(".git");
        reveal_strlit("source");
    }
    let mut end = char_count(url);
    assert(url@.take(end as int) =~= url@);
    while end > 0 && url.get_char(end - 1) == '/'
        invariant
            end <= url@.len(),
            trim_end_char(url@, '/') == trim_end_char(url@.take(end as int), '/'),
        decreases end,
    {
        assert(url@.take(end as int).drop_last() =~= url@.take(end - 1));
        end = end - 1;
    }
    let mut cur = substring(url, 0, end);
    assert(cur@ == trim_end_char(url@, '/'));
    let ghost first = cur@;
    while ends_with(cur.as_str(), ".git")
        invariant
            trim_end_seq(first, ".git"@) == trim_end_seq(cur@, ".git"@),
        decreases cur@.len(),
    {
        proof {
            reveal_strlit(".git");
        }
        let n = char_count(cur.as_str());
        let ghost prev = cur@;
        cur = substring(cur.as_str(), 0, n - 4);
        assert(cur@ =~= prev.take(prev.len() - 4));
    }
    let n = char_count(cur.as_str());
    let last = match rfind_char(cur.as_str(), '/') {
        Some(i) => substring(cur.as_str(), i + 1, n),
        None => cur,
    };
    if char_count(last.as_str()) > 0 {
        last
    } else {
        String::from_str("source")
    }
}


/// Where a `--from-dir` path `path` should be adopted from, given the source
/// names of the library found at `path` (`None` when `path` holds no
/// `.lengua/sources.toml`): a bare store is taken as it is; a library with
/// exactly one source redirects to that source's directory; a library with
/// no sources or several is refused.
pub open spec fn local_source_dir(path: Seq<char>, library: Option<Seq<Seq<char>>>) -> Result<Seq<char>, Seq<char>> {
    match library {
        None => Ok(path),
        Some(names) => if names.len() == 1 {
            Ok(join_path(join_path(path, ".lengua"@), names[0]))
        } else if names.len() == 0 {
            Err("'"@ + path + "' is a lengua library with no sources"@)
        } else {
            Err("'"@ + path + "' is a lengua library with multiple sources ("@ + join_with(names, ", "@)
                + ") — point --from-dir at one directly, e.g. '"@ + path + "/.lengua/<name>'"@)
        },
    }
}

/// Decides where a `--from-dir` path is adopted from (see
/// [`local_source_dir`]); `library` lists the sources of the library found
/// at `path`, if one is there.
pub fn resolve_local_source_dir(path: &str, library: Option<&Vec<String>>) -> (r: Result<String, Error>)
    ensures
        match local_source_dir(path@, match library { Some(v) => Some(views(v@)), None => None }) {
            Ok(dir) => r matches Ok(d) && d@ == dir,
            Err(msg) => r matches Err(Error::Git(m)) && m@ == msg,
        },
{
    match library {
        None => Ok(String::from_str(path)),
        Some(names) => {
            if names.len() == 1 {
                let inner = path_join(path, ".lengua");
                Ok(path_join(inner.as_str(), names[0].as_str()))
            } else if names.len() == 0 {
                let mut m = concat("'", path);
                m.append("' is a lengua library with no sources");
                Err(Error::Git(m))
            } else {
                let listed = join_from(names, 0, ", ");
                assert(views(names@).skip(0) =~= views(names@));
                let mut m = concat("'", path);
                m.append("' is a lengua library with multiple sources (");
                m.append(listed.as_str());
                m.append(") — point --from-dir at one directly, e.g. '");
                m.append(path);
                m.append("/.lengua/<name>'");
                Err(Error::Git(m))
            }
        },
    }
}

/// The name a newly adopted source gets when exactly one of `from_dir` and
/// `from_repo_url` is given: the explicit `name` if any, else one derived
/// from `--from-dir` or `--from-repo`.
pub open spec fn chosen_source_name(
    name: Option<Seq<char>>,
    from_dir: Option<Seq<char>>,
    from_repo_url: Option<Seq<char>>,
) -> Seq<char> {
    match name {
        Some(n) => n,
        None => match from_dir {
            Some(d) => name_from_dir(d),
            None => name_from_url(from_repo_url.unwrap()),
        },
    }
}

/// Names a newly adopted source (see [`chosen_source_name`]): refused when
/// neither or both adoption flags are given. A name that is already taken
/// is refused, unless `force` is set and a `subdir` is imported: then the
/// import goes into that existing source, and the second part of the
/// result says so.
pub fn name_new_source(
    name: Option<&str>,
    from_dir: Option<&str>,
    from_repo_url: Option<&str>,
    subdir: Option<&str>,
    force: bool,
    existing: &SourcesManifest,
) -> (r: Result<(String, bool), Error>)
    ensures
        (from_dir is Some == from_repo_url is Some) ==> (r matches Err(Error::Git(m))
            && m@ == "exactly one of --from-dir/--from-repo is required"@),
        (from_dir is Some != from_repo_url is Some) ==> {
            let chosen = chosen_source_name(opt_view(name), opt_view(from_dir), opt_view(from_repo_url));
            if !existing.names().contains(chosen) {
                r matches Ok((n, false)) && n@ == chosen
            } else if force && subdir is Some {
                r matches Ok((n, true)) && n@ == chosen
            } else {
                r matches Err(Error::DuplicateSourceName { name: dup }) && dup@ == chosen
            }
        },
{
    let auto = match (from_dir, from_repo_url) {
        (Some(dir), None) => derive_name_from_dir(dir),
        (None, Some(url)) => derive_name_from_url(url),
        _ => {
            return Err(Error::Git(String::from_str("exactly one of --from-dir/--from-repo is required")));
        },
    };
    let chosen = match name {
        Some(explicit) => String::from_str(explicit),
        None => auto,
    };
    if existing.contains(chosen.as_str()) {
        if force && subdir.is_some() {
            return Ok((chosen, true));
        }
        return Err(Error::DuplicateSourceName { name: chosen });
    }
    Ok((chosen, false))
}

/// What `init` does at a store path `root`: with no library there yet, it
/// creates one; with one there, it re-imports into an existing source when
/// `force` is set and a `subdir` is imported, and is refused otherwise.
#[derive(Debug, Clone, Copy, PartialEq, Eq)]
pub enum InitMode {
    Create,
    Reimport,
}

/// Decides what `init` does at `root` (see [`InitMode`]), given whether a
/// library already exists there.
pub fn init_mode(root: &str, library_exists: bool, force: bool, subdir: Option<&str>) -> (r: Result<InitMode, Error>)
    ensures
        !library_exists ==> r == Ok::<InitMode, Error>(InitMode::Create),
        library_exists && force && subdir is Some ==> r == Ok::<InitMode, Error>(InitMode::Reimport),
        library_exists && !(force && subdir is Some) ==> (r matches Err(Error::AlreadyInitialized(p)) && p@ == root@),
{
    if !library_exists {
        Ok(InitMode::Create)
    } else if force && subdir.is_some() {
        Ok(InitMode::Reimport)
    } else {
        Err(Error::AlreadyInitialized(String::from_str(root)))
    }
}

/// The source an `init` re-import (see [`init_mode`]) goes into: the source
/// named as [`name_new_source`] names it (with `force` set), which must
/// already exist in the library's manifest `existing`; a name not yet there
/// is refused as the library at `root` being already initialized, and an
/// existing name without a `subdir` as a duplicate.
pub fn reimport_target(
    root: &str,
    name: Option<&str>,
    from_dir: Option<&str>,
    from_repo_url: Option<&str>,
    subdir: Option<&str>,
    existing: &SourcesManifest,
) -> (r: Result<String, Error>)
    ensures
        (from_dir is Some == from_repo_url is Some) ==> (r matches Err(Error::Git(m))
            && m@ == "exactly one of --from-dir/--from-repo is required"@),
        (from_dir is Some != from_repo_url is Some) ==> {
            let chosen = chosen_source_name(opt_view(name), opt_view(from_dir), opt_view(from_repo_url));
            if existing.names().contains(chosen) {
                if subdir is Some {
                    r matches Ok(n) && n@ == chosen
                } else {
                    r matches Err(Error::DuplicateSourceName { name: dup }) && dup@ == chosen
                }
            } else {
                r matches Err(Error::AlreadyInitialized(p)) && p@ == root@
            }
        },
{
    match name_new_source(name, from_dir, from_repo_url, subdir, true, existing) {
        Ok((n, true)) => Ok(n),
        Ok((_, false)) => Err(Error::AlreadyInitialized(String::from_str(root))),
        Err(e) => Err(e),
    }
}

/// Resolves the single source a write or an inherently single-source read
/// should target, among the sources named `names` (in precedence order):
/// the first source called `source` if given, else the sole source. An
/// unknown name is [`Error::UnknownSource`]; no name with zero or several
/// sources is [`Error::AmbiguousSource`] listing every candidate.
pub fn resolve_source(names: &Vec<String>, source: Option<&str>) -> (r: Result<usize, Error>)
    ensures
        match source {
            Some(s) => match r {
                Ok(i) => i < names.len() && names@[i as int]@ == s@ && forall|j: int| 0 <= j < i ==> names@[j]@ != s@,
                Err(e) => !views(names@).contains(s@) && (e matches Error::UnknownSource { name } && name@ == s@),
            },
            None => if names.len() == 1 {
                r == Ok::<usize, Error>(0)
            } else {
                r matches Err(Error::AmbiguousSource { candidates }) && candidates@ == join_with(views(names@), ", "@)
            },
        },
{
    match source {
        Some(s) => {
            let mut i: usize = 0;
            while i < names.len()
                invariant
                    source == Some(s),
                    i <= names.len(),
                    forall|j: int| 0 <= j < i ==> names@[j]@ != s@,
                decreases names.len() - i,
            {
                if same_text(names[i].as_str(), s) {
                    return Ok(i);
                }
                i = i + 1;
            }
            assert forall|j: int| 0 <= j < views(names@).len() implies views(names@)[j] != s@ by {
                assert(views(names@)[j] == names@[j]@);
            }
            Err(Error::UnknownSource { name: String::from_str(s) })
        },
        None => {
            if names.len() == 1 {
                Ok(0)
            } else {
                let candidates = join_from(names, 0, ", ");
                assert(views(names@).skip(0) =~= views(names@));
                Err(Error::AmbiguousSource { candidates })
            }
        },
    }
}


/// A name collision between two sources: `winner` (later in the manifest)
/// shadows `loser` for template `name`. Never silent: every collision is
/// reported as one of these.
#[derive(Debug, Clone, PartialEq, Eq)]
pub struct ShadowWarning {
    pub name: String,
    pub winner: String,
    pub loser: String,
}

/// The result of a successful fetch of a new source.
#[derive(Debug, Clone)]
pub struct FetchOutcome {
    pub source: String,
    pub warnings: Vec<ShadowWarning>,
}

/// A warning as (name, winner, loser).
pub open spec fn warning_view(w: ShadowWarning) -> (Seq<char>, Seq<char>, Seq<char>) {
    (w.name@, w.winner@, w.loser@)
}

pub open spec fn warnings_view(ws: Seq<ShadowWarning>) -> Seq<(Seq<char>, Seq<char>, Seq<char>)> {
    ws.map_values(|w: ShadowWarning| warning_view(w))
}

/// The labels (source names) of `sources`.
pub open spec fn labels_of(sources: Seq<(String, Vec<String>)>) -> Seq<Seq<char>> {
    sources.map_values(|p: (String, Vec<String>)| p.0@)
}

/// The template names of each of `sources`.
pub open spec fn lists_of(sources: Seq<(String, Vec<String>)>) -> Seq<Seq<Seq<char>>> {
    sources.map_values(|p: (String, Vec<String>)| views(p.1@))
}

/// Merging the template names `names` of source `idx` into the state
/// (winners, warnings): each name now belongs to `idx`, and a name that
/// already belonged to a source adds a warning naming both.
pub open spec fn merge_names(
    state: (Map<Seq<char>, int>, Seq<(Seq<char>, Seq<char>, Seq<char>)>),
    labels: Seq<Seq<char>>,
    idx: int,
    names: Seq<Seq<char>>,
) -> (Map<Seq<char>, int>, Seq<(Seq<char>, Seq<char>, Seq<char>)>)
    decreases names.len(),
{
    if names.len() == 0 {
        state
    } else {
        let prev = merge_names(state, labels, idx, names.drop_last());
        let n = names.last();
        (
            prev.0.insert(n, idx),
            if prev.0.contains_key(n) {
                prev.1.push((n, labels[idx], labels[prev.0[n]]))
            } else {
                prev.1
            },
        )
    }
}

/// The merged view of the sources with `labels` holding `lists` of template
/// names, in precedence order: which source each name comes from, and the
/// shadow warnings, in the order the merge meets them.
pub open spec fn merge_sources(labels: Seq<Seq<char>>, lists: Seq<Seq<Seq<char>>>) -> (
    Map<Seq<char>, int>,
    Seq<(Seq<char>, Seq<char>, Seq<char>)>,
)
    decreases lists.len(),
{
    if lists.len() == 0 {
        (Map::empty(), Seq::empty())
    } else {
        merge_names(merge_sources(labels, lists.drop_last()), labels, lists.len() - 1, lists.last())
    }
}

/// `winners` (sorted by name) holds exactly the name-to-source map `m`.
pub open spec fn holds_map(winners: Seq<(String, usize)>, m: Map<Seq<char>, int>) -> bool {
    &&& keys_sorted(winners)
    &&& forall|k: Seq<char>|
        #![trigger lookup(winners, k)]
        match lookup(winners, k) {
            Some(i) => m.contains_key(k) && m[k] == i as int,
            None => !m.contains_key(k),
        }
}

/// Merges the template names of `sources` (source name, its template names),
/// given in precedence order, last fetched winning: returns which source
/// each name comes from (sorted by name) and every shadow warning.
pub fn merge(sources: &Vec<(String, Vec<String>)>) -> (r: (Vec<(String, usize)>, Vec<ShadowWarning>))
    ensures
        holds_map(r.0@, merge_sources(labels_of(sources@), lists_of(sources@)).0),
        warnings_view(r.1@) == merge_sources(labels_of(sources@), lists_of(sources@)).1,
{
    let ghost labels = labels_of(sources@);
    let ghost lists = lists_of(sources@);
    let mut winners: Vec<(String, usize)> = Vec::new();
    let mut warnings: Vec<ShadowWarning> = Vec::new();
    let mut i: usize = 0;
    assert(lists.take(0) =~= Seq::<Seq<Seq<char>>>::empty());
    assert(warnings_view(warnings@) =~= Seq::<(Seq<char>, Seq<char>, Seq<char>)>::empty());
    while i < sources.len()
        invariant
            i <= sources.len(),
            labels == labels_of(sources@),
            lists == lists_of(sources@),
            holds_map(winners@, merge_sources(labels, lists.take(i as int)).0),
            warnings_view(warnings@) == merge_sources(labels, lists.take(i as int)).1,
            forall|k: Seq<char>| #![trigger lookup(winners@, k)] lookup(winners@, k) matches Some(v) ==> v < i,
        decreases sources.len() - i,
    {
        let names = &sources[i].1;
        let ghost start = merge_sources(labels, lists.take(i as int));
        let ghost list = lists[i as int];
        assert(list == views(names@));
        let mut j: usize = 0;
        assert(list.take(0) =~= Seq::<Seq<char>>::empty());
        while j < names.len()
            invariant
                i < sources.len(),
                j <= names.len(),
                *names == sources@[i as int].1,
                labels == labels_of(sources@),
                list == views(names@),
                holds_map(winners@, merge_names(start, labels, i as int, list.take(j as int)).0),
                warnings_view(warnings@) == merge_names(start, labels, i as int, list.take(j as int)).1,
                forall|k: Seq<char>| #![trigger lookup(winners@, k)] lookup(winners@, k) matches Some(v) ==> v <= i,
            decreases names.len() - j,
        {
            let n = names[j].as_str();
            let ghost prev = merge_names(start, labels, i as int, list.take(j as int));
            assert(list.take(j + 1).drop_last() =~= list.take(j as int));
            assert(list.take(j + 1).last() == n@);
            let found = position_of(&winners, n);
            match found {
                Some(pos) => {
                    let loser_idx = winners[pos].1;
                    assert(lookup(winners@, n@) == Some(loser_idx));
                    assert(labels[i as int] == sources@[i as int].0@);
                    assert(labels[loser_idx as int] == sources@[loser_idx as int].0@);
                    let w = ShadowWarning {
                        name: String::from_str(n),
                        winner: sources[i].0.clone(),
                        loser: sources[loser_idx].0.clone(),
                    };
                    let ghost before = warnings@;
                    warnings.push(w);
                    assert(warnings_view(warnings@) =~= warnings_view(before).push((n@, labels[i as int], labels[prev.0[n@]])));
                },
                None => {
                    assert(lookup(winners@, n@) is None);
                },
            }
            let ghost before_w = winners@;
            upsert_sorted(&mut winners, String::from_str(n), i);
            assert forall|k: Seq<char>| #![trigger lookup(winners@, k)]
                match lookup(winners@, k) {
                    Some(v) => prev.0.insert(n@, i as int).contains_key(k) && prev.0.insert(n@, i as int)[k] == v as int,
                    None => !prev.0.insert(n@, i as int).contains_key(k),
                } by {
                assert(lookup(winners@, k) == if k == n@ { Some(i) } else { lookup(before_w, k) });
            }
            assert forall|k: Seq<char>| #![trigger lookup(winners@, k)] lookup(winners@, k) matches Some(v) ==> v <= i by {
                assert(lookup(winners@, k) == if k == n@ { Some(i) } else { lookup(before_w, k) });
            }
            j = j + 1;
        }
        assert(list.take(j as int) =~= list);
        assert(lists.take(i + 1).drop_last() =~= lists.take(i as int));
        assert(lists.take(i + 1).last() == list);
        assert(lists.take(i + 1).len() - 1 == i);
        i = i + 1;
    }
    assert(lists.take(i as int) =~= lists);
    (winners, warnings)
}


proof fn lemma_contains_drop_last(s: Seq<Seq<char>>, k: Seq<char>)
    requires
        s.len() > 0,
    ensures
        s.contains(k) == (s.drop_last().contains(k) || s.last() == k),
{
    if s.contains(k) {
        let i = choose|i: int| 0 <= i < s.len() && s[i] == k;
        if i < s.len() - 1 {
            assert(s.drop_last()[i] == k);
        }
    }
    if s.drop_last().contains(k) {
        let i = choose|i: int| 0 <= i < s.drop_last().len() && s.drop_last()[i] == k;
        assert(s[i] == k);
    }
    if s.last() == k {
        assert(s[s.len() - 1] == k);
    }
}

/// How merging one source's names changes which source each name comes from.
proof fn lemma_merge_names_map(
    state: (Map<Seq<char>, int>, Seq<(Seq<char>, Seq<char>, Seq<char>)>),
    labels: Seq<Seq<char>>,
    idx: int,
    names: Seq<Seq<char>>,
    k: Seq<char>,
)
    ensures
        merge_names(state, labels, idx, names).0.contains_key(k) == (state.0.contains_key(k) || names.contains(k)),
        names.contains(k) ==> merge_names(state, labels, idx, names).0[k] == idx,
        !names.contains(k) && state.0.contains_key(k) ==> merge_names(state, labels, idx, names).0[k] == state.0[k],
    decreases names.len(),
{
    if names.len() > 0 {
        lemma_merge_names_map(state, labels, idx, names.drop_last(), k);
        lemma_contains_drop_last(names, k);
    }
}

/// Merging only ever appends warnings.
proof fn lemma_merge_names_prefix(
    state: (Map<Seq<char>, int>, Seq<(Seq<char>, Seq<char>, Seq<char>)>),
    labels: Seq<Seq<char>>,
    idx: int,
    names: Seq<Seq<char>>,
)
    ensures
        state.1.is_prefix_of(merge_names(state, labels, idx, names).1),
    decreases names.len(),
{
    if names.len() > 0 {
        lemma_merge_names_prefix(state, labels, idx, names.drop_last());
        let prev = merge_names(state, labels, idx, names.drop_last());
        assert(prev.1.is_prefix_of(merge_names(state, labels, idx, names).1)) by {
            assert(prev.1.push(arbitrary()).subrange(0, prev.1.len() as int) =~= prev.1);
            if prev.0.contains_key(names.last()) {
                let full = prev.1.push((names.last(), labels[idx], labels[prev.0[names.last()]]));
                assert(full.subrange(0, prev.1.len() as int) =~= prev.1);
            }
        }
    }
}

/// A name met in source `idx` that already belonged to a source is reported,
/// naming `idx` as winner and the source it belonged to as loser.
proof fn lemma_merge_names_warns(
    state: (Map<Seq<char>, int>, Seq<(Seq<char>, Seq<char>, Seq<char>)>),
    labels: Seq<Seq<char>>,
    idx: int,
    names: Seq<Seq<char>>,
    k: Seq<char>,
)
    requires
        names.contains(k),
        names.no_duplicates(),
        state.0.contains_key(k),
    ensures
        merge_names(state, labels, idx, names).1.contains((k, labels[idx], labels[state.0[k]])),
    decreases names.len(),
{
    let prev = merge_names(state, labels, idx, names.drop_last());
    let w = (k, labels[idx], labels[state.0[k]]);
    lemma_contains_drop_last(names, k);
    assert(names.drop_last().no_duplicates()) by {
        assert forall|a: int, b: int| 0 <= a < names.drop_last().len() && 0 <= b < names.drop_last().len() && a != b
            implies names.drop_last()[a] != names.drop_last()[b] by {
            assert(names.drop_last()[a] == names[a] && names.drop_last()[b] == names[b]);
        }
    }
    if names.last() == k {
        if names.drop_last().contains(k) {
            let a = choose|a: int| 0 <= a < names.drop_last().len() && names.drop_last()[a] == k;
            assert(names[a] == names[names.len() - 1]);
        }
        lemma_merge_names_map(state, labels, idx, names.drop_last(), k);
        let full = merge_names(state, labels, idx, names).1;
        assert(full == prev.1.push(w));
        assert(full[full.len() - 1] == w);
    } else {
        lemma_merge_names_warns(state, labels, idx, names.drop_last(), k);
        let j = choose|j: int| 0 <= j < prev.1.len() && prev.1[j] == w;
        let full = merge_names(state, labels, idx, names).1;
        if prev.0.contains_key(names.last()) {
            assert(full == prev.1.push((names.last(), labels[idx], labels[prev.0[names.last()]])));
        } else {
            assert(full == prev.1);
        }
        assert(full[j] == w);
    }
}

/// Which source each name comes from in the merged view.
proof fn lemma_merge_sources_map(labels: Seq<Seq<char>>, lists: Seq<Seq<Seq<char>>>, k: Seq<char>)
    ensures
        merge_sources(labels, lists).0.contains_key(k) == exists|i: int| 0 <= i < lists.len() && #[trigger] lists[i].contains(k),
        merge_sources(labels, lists).0.contains_key(k) ==> {
            let w = merge_sources(labels, lists).0[k];
            &&& 0 <= w < lists.len()
            &&& lists[w].contains(k)
            &&& forall|j: int| w < j < lists.len() ==> !(#[trigger] lists[j].contains(k))
        },
    decreases lists.len(),
{
    if lists.len() > 0 {
        let rest = lists.drop_last();
        lemma_merge_sources_map(labels, rest, k);
        lemma_merge_names_map(merge_sources(labels, rest), labels, lists.len() - 1, lists.last(), k);
        assert forall|i: int| 0 <= i < rest.len() implies #[trigger] rest[i].contains(k) == lists[i].contains(k) by {
            assert(rest[i] == lists[i]);
        }
        if exists|i: int| 0 <= i < lists.len() && #[trigger] lists[i].contains(k) {
            let i = choose|i: int| 0 <= i < lists.len() && #[trigger] lists[i].contains(k);
            if i < lists.len() - 1 {
                assert(rest[i].contains(k));
            }
        }
        if merge_sources(labels, lists).0.contains_key(k) && !lists.last().contains(k) {
            let w = merge_sources(labels, rest).0[k];
            assert(merge_sources(labels, lists).0[k] == w);
            assert forall|j: int| w < j < lists.len() implies !(#[trigger] lists[j].contains(k)) by {
                if j < lists.len() - 1 {
                    assert(!rest[j].contains(k));
                }
            }
        }
    }
}

/// Merging fewer sources gives a prefix of the warnings.
proof fn lemma_merge_sources_prefix(labels: Seq<Seq<char>>, lists: Seq<Seq<Seq<char>>>, m: int)
    requires
        0 <= m <= lists.len(),
    ensures
        merge_sources(labels, lists.take(m)).1.is_prefix_of(merge_sources(labels, lists).1),
    decreases lists.len(),
{
    if m == lists.len() {
        assert(lists.take(m) =~= lists);
        let w = merge_sources(labels, lists).1;
        assert(w.subrange(0, w.len() as int) =~= w);
    } else {
        let rest = lists.drop_last();
        lemma_merge_sources_prefix(labels, rest, m);
        assert(rest.take(m) =~= lists.take(m));
        lemma_merge_names_prefix(merge_sources(labels, rest), labels, lists.len() - 1, lists.last());
        let a = merge_sources(labels, lists.take(m)).1;
        let b = merge_sources(labels, rest).1;
        let c = merge_sources(labels, lists).1;
        assert(a.is_prefix_of(c)) by {
            assert forall|i: int| 0 <= i < a.len() implies a[i] == c[i] by {
                assert(a[i] == b.subrange(0, a.len() as int)[i]);
                assert(b[i] == c.subrange(0, b.len() as int)[i]);
            }
            assert(a =~= c.subrange(0, a.len() as int));
        }
    }
}

/// Law: in the merged view of several sources (listed lowest precedence
/// first), a template name is present exactly when some source holds it,
/// and it comes from the last source that holds it: the most recently
/// fetched source wins.
pub proof fn law_last_fetched_wins(labels: Seq<Seq<char>>, lists: Seq<Seq<Seq<char>>>, k: Seq<char>)
    ensures
        merge_sources(labels, lists).0.contains_key(k) == exists|i: int| 0 <= i < lists.len() && #[trigger] lists[i].contains(k),
        merge_sources(labels, lists).0.contains_key(k) ==> {
            let w = merge_sources(labels, lists).0[k];
            &&& 0 <= w < lists.len()
            &&& lists[w].contains(k)
            &&& forall|j: int| w < j < lists.len() ==> !(#[trigger] lists[j].contains(k))
        },
{
    lemma_merge_sources_map(labels, lists, k);
}

/// Law: a name collision is never resolved silently. When source `i` holds
/// template `k` and an earlier source holds it too, the merge reports a
/// warning naming `k`, source `i` as the winner, and as the loser the last
/// source before `i` that holds `k`.
pub proof fn law_collision_is_reported(labels: Seq<Seq<char>>, lists: Seq<Seq<Seq<char>>>, i: int, k: Seq<char>)
    requires
        0 <= i < lists.len(),
        lists[i].contains(k),
        lists[i].no_duplicates(),
        exists|j: int| 0 <= j < i && #[trigger] lists[j].contains(k),
    ensures
        exists|j: int|
            0 <= j < i && #[trigger] lists[j].contains(k) && (forall|m: int| j < m < i ==> !(#[trigger] lists[m].contains(k)))
                && merge_sources(labels, lists).1.contains((k, labels[i], labels[j])),
{
    let before = lists.take(i);
    let upto = lists.take(i + 1);
    lemma_merge_sources_map(labels, before, k);
    let jw = choose|j: int| 0 <= j < i && #[trigger] lists[j].contains(k);
    assert(before[jw].contains(k));
    let state = merge_sources(labels, before);
    let w = state.0[k];
    assert(upto.drop_last() =~= before);
    assert(upto.last() == lists[i]);
    lemma_merge_names_warns(state, labels, i, lists[i], k);
    lemma_merge_sources_prefix(labels, lists, i + 1);
    let part = merge_sources(labels, upto).1;
    let full = merge_sources(labels, lists).1;
    let t = (k, labels[i], labels[w]);
    let p = choose|p: int| 0 <= p < part.len() && part[p] == t;
    assert(full[p] == part.subrange(0, part.len() as int)[p]);
    assert(full[p] == t);
    assert(lists[w].contains(k));
    assert forall|m: int| w < m < i implies !(#[trigger] lists[m].contains(k)) by {
        assert(before[m] == lists[m]);
    }
}


/// The warnings of `ws` that name template `k`, in order.
pub open spec fn warnings_named(ws: Seq<(Seq<char>, Seq<char>, Seq<char>)>, k: Seq<char>) -> Seq<(Seq<char>, Seq<char>, Seq<char>)>
    decreases ws.len(),
{
    if ws.len() == 0 {
        Seq::empty()
    } else {
        let prev = warnings_named(ws.drop_last(), k);
        if ws.last().0 == k {
            prev.push(ws.last())
        } else {
            prev
        }
    }
}

/// The positions of the sources (of `lists`, lowest precedence first) that
/// hold template `k`, in increasing order.
pub open spec fn holders(lists: Seq<Seq<Seq<char>>>, k: Seq<char>) -> Seq<int>
    decreases lists.len(),
{
    if lists.len() == 0 {
        Seq::empty()
    } else {
        let prev = holders(lists.drop_last(), k);
        if lists.last().contains(k) {
            prev.push(lists.len() - 1)
        } else {
            prev
        }
    }
}

/// One warning for each consecutive pair of the holders `hs` of template
/// `k`: the later source wins over the one just before it.
pub open spec fn shadow_chain(labels: Seq<Seq<char>>, hs: Seq<int>, k: Seq<char>) -> Seq<(Seq<char>, Seq<char>, Seq<char>)>
    decreases hs.len(),
{
    if hs.len() < 2 {
        Seq::empty()
    } else {
        shadow_chain(labels, hs.drop_last(), k).push((k, labels[hs.last()], labels[hs[hs.len() - 2]]))
    }
}

/// The last holder of `k` is the last source holding it.
proof fn lemma_holders(lists: Seq<Seq<Seq<char>>>, k: Seq<char>)
    ensures
        (holders(lists, k).len() > 0) == exists|i: int| 0 <= i < lists.len() && #[trigger] lists[i].contains(k),
        holders(lists, k).len() > 0 ==> {
            let h = holders(lists, k).last();
            &&& 0 <= h < lists.len()
            &&& lists[h].contains(k)
            &&& forall|j: int| h < j < lists.len() ==> !(#[trigger] lists[j].contains(k))
        },
    decreases lists.len(),
{
    if lists.len() > 0 {
        let rest = lists.drop_last();
        lemma_holders(rest, k);
        assert forall|i: int| 0 <= i < rest.len() implies #[trigger] rest[i].contains(k) == lists[i].contains(k) by {
            assert(rest[i] == lists[i]);
        }
        if exists|i: int| 0 <= i < lists.len() && #[trigger] lists[i].contains(k) {
            let i = choose|i: int| 0 <= i < lists.len() && #[trigger] lists[i].contains(k);
            if i < lists.len() - 1 {
                assert(rest[i].contains(k));
            }
        }
        let n = lists.len() - 1;
        assert(lists.last() == lists[n]);
        if lists.last().contains(k) {
            assert(holders(lists, k).last() == n);
        } else if holders(rest, k).len() > 0 {
            let h = holders(rest, k).last();
            assert(holders(lists, k) == holders(rest, k));
            assert(lists[h] == rest[h]);
            assert forall|j: int| h < j < lists.len() implies !(#[trigger] lists[j].contains(k)) by {
                if j < n {
                    assert(rest[j] == lists[j]);
                }
            }
        }
    }
}

/// Merging one source's names (no name twice) adds at most one warning
/// naming `k`: when the source holds `k` and `k` already belonged to a
/// source, naming that one as the loser.
proof fn lemma_merge_names_named(
    state: (Map<Seq<char>, int>, Seq<(Seq<char>, Seq<char>, Seq<char>)>),
    labels: Seq<Seq<char>>,
    idx: int,
    names: Seq<Seq<char>>,
    k: Seq<char>,
)
    requires
        names.no_duplicates(),
    ensures
        warnings_named(merge_names(state, labels, idx, names).1, k) == warnings_named(state.1, k) + if names.contains(k)
            && state.0.contains_key(k) {
            seq![(k, labels[idx], labels[state.0[k]])]
        } else {
            Seq::empty()
        },
    decreases names.len(),
{
    if names.len() == 0 {
        assert(warnings_named(state.1, k) + Seq::<(Seq<char>, Seq<char>, Seq<char>)>::empty() =~= warnings_named(state.1, k));
    } else {
        let front = names.drop_last();
        let n = names.last();
        assert(front.no_duplicates()) by {
            assert forall|a: int, b: int| 0 <= a < front.len() && 0 <= b < front.len() && a != b
                implies front[a] != front[b] by {
                assert(front[a] == names[a] && front[b] == names[b]);
            }
        }
        lemma_merge_names_named(state, labels, idx, front, k);
        lemma_contains_drop_last(names, k);
        lemma_merge_names_map(state, labels, idx, front, k);
        let prev = merge_names(state, labels, idx, front);
        let full = merge_names(state, labels, idx, names);
        if prev.0.contains_key(n) {
            let w = (n, labels[idx], labels[prev.0[n]]);
            assert(full.1 == prev.1.push(w));
            assert(full.1.drop_last() =~= prev.1);
        } else {
            assert(full.1 == prev.1);
        }
        if n == k {
            if front.contains(k) {
                let a = choose|a: int| 0 <= a < front.len() && front[a] == k;
                assert(names[a] == names[names.len() - 1]);
            }
            assert(!front.contains(k));
            if state.0.contains_key(k) {
                assert(warnings_named(full.1, k) =~= warnings_named(state.1, k) + seq![(k, labels[idx], labels[state.0[k]])]);
            } else {
                assert(warnings_named(full.1, k) =~= warnings_named(state.1, k) + Seq::<(Seq<char>, Seq<char>, Seq<char>)>::empty());
            }
        } else {
            assert(warnings_named(full.1, k) == warnings_named(prev.1, k));
        }
    }
}

/// Law: across the whole library, every collision on a name is reported
/// once. For each template name `k`, the merge's warnings that name `k`
/// are, in order, one for each consecutive pair of the sources holding it
/// (lowest precedence first): the later source as winner over the one just
/// before it as loser. A name held by `m` sources gives exactly `m - 1`
/// warnings, and a name held by one source none.
pub proof fn law_each_collision_reported_once(labels: Seq<Seq<char>>, lists: Seq<Seq<Seq<char>>>, k: Seq<char>)
    requires
        forall|i: int| 0 <= i < lists.len() ==> (#[trigger] lists[i]).no_duplicates(),
    ensures
        warnings_named(merge_sources(labels, lists).1, k) == shadow_chain(labels, holders(lists, k), k),
    decreases lists.len(),
{
    if lists.len() > 0 {
        let rest = lists.drop_last();
        assert forall|i: int| 0 <= i < rest.len() implies (#[trigger] rest[i]).no_duplicates() by {
            assert(rest[i] == lists[i]);
        }
        law_each_collision_reported_once(labels, rest, k);
        let st = merge_sources(labels, rest);
        assert(lists.last() == lists[lists.len() - 1]);
        lemma_merge_names_named(st, labels, lists.len() - 1, lists.last(), k);
        lemma_merge_sources_map(labels, rest, k);
        lemma_holders(rest, k);
        let hs = holders(rest, k);
        if lists.last().contains(k) {
            assert(holders(lists, k) == hs.push(lists.len() - 1));
            if hs.len() > 0 {
                let w = st.0[k];
                let h = hs.last();
                if w < h {
                    assert(rest[h].contains(k));
                } else if h < w {
                    assert(rest[w].contains(k));
                }
                assert(w == h);
                assert(hs.push(lists.len() - 1).drop_last() =~= hs);
                assert(hs.push(lists.len() - 1)[hs.len() - 1] == h);
            } else {
                assert(!st.0.contains_key(k));
                assert(shadow_chain(labels, hs.push(lists.len() - 1), k) =~= Seq::<(Seq<char>, Seq<char>, Seq<char>)>::empty());
                assert(shadow_chain(labels, hs, k) =~= Seq::<(Seq<char>, Seq<char>, Seq<char>)>::empty());
            }
        } else {
            assert(holders(lists, k) == hs);
        }
        assert(warnings_named(merge_sources(labels, lists).1, k) =~= shadow_chain(labels, holders(lists, k), k));
    }
}

/// The warnings for the names `names` of the existing source `loser` that
/// the newly fetched source `winner`, holding `new_names`, shadows.
pub open spec fn shadowed(names: Seq<Seq<char>>, new_names: Seq<Seq<char>>, winner: Seq<char>, loser: Seq<char>) -> Seq<(Seq<char>, Seq<char>, Seq<char>)>
    decreases names.len(),
{
    if names.len() == 0 {
        Seq::empty()
    } else {
        shadowed(names.drop_last(), new_names, winner, loser) + if new_names.contains(names.last()) {
            seq![(names.last(), winner, loser)]
        } else {
            Seq::empty()
        }
    }
}

/// The warnings a fetch of `winner` (holding `new_names`) reports against
/// the existing sources `labels` holding `lists`, source by source.
pub open spec fn fetch_shadowing(winner: Seq<char>, new_names: Seq<Seq<char>>, labels: Seq<Seq<char>>, lists: Seq<Seq<Seq<char>>>) -> Seq<(Seq<char>, Seq<char>, Seq<char>)>
    decreases lists.len(),
{
    if lists.len() == 0 || labels.len() < lists.len() {
        Seq::empty()
    } else {
        fetch_shadowing(winner, new_names, labels, lists.drop_last()) + shadowed(lists.last(), new_names, winner, labels[lists.len() - 1])
    }
}

/// The shadow warnings `new_source`, holding `new_names`, causes against
/// the first `limit` of the `existing` sources.
fn warnings_against(
    new_source: &str,
    new_names: &Vec<String>,
    existing: &Vec<(String, Vec<String>)>,
    limit: usize,
) -> (r: Vec<ShadowWarning>)
    requires
        limit <= existing.len(),
    ensures
        warnings_view(r@) == fetch_shadowing(
            new_source@,
            views(new_names@),
            labels_of(existing@),
            lists_of(existing@).take(limit as int),
        ),
{
    let ghost labels = labels_of(existing@);
    let ghost lists = lists_of(existing@);
    let ghost fresh = views(new_names@);
    let mut out: Vec<ShadowWarning> = Vec::new();
    let mut i: usize = 0;
    assert(lists.take(0) =~= Seq::<Seq<Seq<char>>>::empty());
    assert(warnings_view(out@) =~= Seq::<(Seq<char>, Seq<char>, Seq<char>)>::empty());
    while i < limit
        invariant
            i <= limit,
            limit <= existing.len(),
            labels == labels_of(existing@),
            lists == lists_of(existing@),
            fresh == views(new_names@),
            warnings_view(out@) == fetch_shadowing(new_source@, fresh, labels, lists.take(i as int)),
        decreases limit - i,
    {
        let names = &existing[i].1;
        let ghost start = warnings_view(out@);
        let ghost list = lists[i as int];
        assert(list == views(names@));
        assert(labels[i as int] == existing@[i as int].0@);
        let mut j: usize = 0;
        assert(list.take(0) =~= Seq::<Seq<char>>::empty());
        assert(start + shadowed(list.take(0), fresh, new_source@, labels[i as int]) =~= start);
        while j < names.len()
            invariant
                i < existing.len(),
                j <= names.len(),
                *names == existing@[i as int].1,
                labels == labels_of(existing@),
                fresh == views(new_names@),
                list == views(names@),
                warnings_view(out@) == start + shadowed(list.take(j as int), fresh, new_source@, labels[i as int]),
            decreases names.len() - j,
        {
            assert(list.take(j + 1).drop_last() =~= list.take(j as int));
            assert(list.take(j + 1).last() == names@[j as int]@);
            let ghost before = warnings_view(out@);
            if crate::text::contains_text(new_names, names[j].as_str()) {
                let w = ShadowWarning {
                    name: names[j].clone(),
                    winner: String::from_str(new_source),
                    loser: existing[i].0.clone(),
                };
                out.push(w);
                assert(warnings_view(out@) =~= before.push((names@[j as int]@, new_source@, labels[i as int])));
            }
            assert(warnings_view(out@) =~= start + shadowed(list.take(j + 1), fresh, new_source@, labels[i as int]));
            j = j + 1;
        }
        assert(list.take(j as int) =~= list);
        assert(lists.take(i + 1).drop_last() =~= lists.take(i as int));
        assert(lists.take(i + 1).last() == list);
        i = i + 1;
    }
    out
}

/// The shadow warnings a newly fetched source `new_source`, holding the
/// templates `new_names`, causes against the `existing` sources (name and
/// template names, in precedence order): one per existing template that the
/// new source also holds.
pub fn fetch_warnings(new_source: &str, new_names: &Vec<String>, existing: &Vec<(String, Vec<String>)>) -> (r: Vec<ShadowWarning>)
    ensures
        warnings_view(r@) == fetch_shadowing(new_source@, views(new_names@), labels_of(existing@), lists_of(existing@)),
{
    assert(lists_of(existing@).take(existing.len() as int) =~= lists_of(existing@));
    warnings_against(new_source, new_names, existing, existing.len())
}

/// The shadow warnings of a re-import into the existing source `source`,
/// now holding `new_names`: those a fetch would report against the sources
/// before the first one named `source` (all of them when none is), which
/// are the sources it shadows; the sources after it shadow it instead.
pub fn reimport_warnings(source: &str, new_names: &Vec<String>, existing: &Vec<(String, Vec<String>)>) -> (r: Vec<ShadowWarning>)
    ensures
        exists|p: int|
            #![trigger lists_of(existing@).take(p)]
            0 <= p <= existing.len()
            && (forall|j: int| 0 <= j < p ==> existing@[j].0@ != source@)
            && (p < existing.len() ==> existing@[p].0@ == source@)
            && warnings_view(r@) == fetch_shadowing(source@, views(new_names@), labels_of(existing@), lists_of(existing@).take(p)),
{
    let mut p: usize = 0;
    while p < existing.len()
        invariant
            p <= existing.len(),
            forall|j: int| 0 <= j < p ==> existing@[j].0@ != source@,
        ensures
            p <= existing.len(),
            forall|j: int| 0 <= j < p ==> existing@[j].0@ != source@,
            p < existing.len() ==> existing@[p as int].0@ == source@,
        decreases existing.len() - p,
    {
        if crate::text::same_text(existing[p].0.as_str(), source) {
            break;
        }
        p = p + 1;
    }
    let r = warnings_against(source, new_names, existing, p);
    assert(lists_of(existing@).take(p as int) == lists_of(existing@).take(p as int));
    r
}

/// How a source is brought up to date with its origin.
#[derive(Debug)]
pub enum UpdateAction {
    /// Re-read the directory it was copied from.
    FromCopy { origin: String },
    /// Fetch from the remote `url` it was cloned from (at `git_ref`, if set).
    FromClone { url: String, git_ref: Option<String> },
}

pub open spec fn local_reason() -> Seq<char> {
    "a local source has no origin to update from"@
}

pub open spec fn subdir_reason() -> Seq<char> {
    "imported via --subdir; history wasn't preserved so there's nothing to fast-forward against"@
}

/// `item` is the update plan for source `e`: a local source or one imported
/// from a subdirectory can't be updated; a copied or cloned one is updated
/// from its origin.
pub open spec fn planned_for(e: SourceEntry, item: (String, Result<UpdateAction, Error>)) -> bool {
    &&& item.0@ == e.name@
    &&& match e.kind {
        SourceKind::Local => item.1 matches Err(Error::SourceNotUpdatable { name, reason })
            && name@ == e.name@ && reason@ == local_reason(),
        SourceKind::Copied { origin, subdir } => match subdir {
            Some(_) => item.1 matches Err(Error::SourceNotUpdatable { name, reason })
                && name@ == e.name@ && reason@ == subdir_reason(),
            None => item.1 matches Ok(UpdateAction::FromCopy { origin: o }) && o@ == origin@,
        },
        SourceKind::Cloned { url, git_ref, subdir } => match subdir {
            Some(_) => item.1 matches Err(Error::SourceNotUpdatable { name, reason })
                && name@ == e.name@ && reason@ == subdir_reason(),
            None => item.1 matches Ok(UpdateAction::FromClone { url: u, git_ref: g })
                && u@ == url@ && opt_chars(g) == opt_chars(git_ref),
        },
    }
}

/// Law: a source imported from a subdirectory is never updated. Whatever
/// it was adopted by, a copy or a clone, a source whose kind records a
/// subdirectory is planned as not updatable, for the reason that its
/// history wasn't kept; a local source likewise has no origin. Only a copy
/// or a clone of a whole store is refreshed, from the origin or URL its
/// entry records.
pub proof fn law_update_plans_follow_the_kind(e: SourceEntry, item: (String, Result<UpdateAction, Error>))
    requires
        planned_for(e, item),
    ensures
        item.0@ == e.name@,
        (e.kind matches SourceKind::Copied { subdir: Some(_), .. } || e.kind matches SourceKind::Cloned {
            subdir: Some(_),
            ..
        }) ==> (item.1 matches Err(Error::SourceNotUpdatable { name, reason }) && name@ == e.name@
            && reason@
            == "imported via --subdir; history wasn't preserved so there's nothing to fast-forward against"@),
        e.kind is Local ==> (item.1 matches Err(Error::SourceNotUpdatable { name, reason }) && name@ == e.name@
            && reason@ == "a local source has no origin to update from"@),
        e.kind matches SourceKind::Copied { origin, subdir: None } ==> (item.1 matches Ok(
            UpdateAction::FromCopy { origin: o },
        ) && o@ == origin@),
        e.kind matches SourceKind::Cloned { url, git_ref, subdir: None } ==> (item.1 matches Ok(
            UpdateAction::FromClone { url: u, git_ref: g },
        ) && u@ == url@ && opt_chars(g) == opt_chars(git_ref)),
{
}

fn clone_opt(o: &Option<String>) -> (r: Option<String>)
    ensures
        opt_chars(r) == opt_chars(*o),
{
    match o {
        Some(s) => Some(s.clone()),
        None => None,
    }
}

fn plan_one(e: &SourceEntry) -> (r: (String, Result<UpdateAction, Error>))
    ensures
        planned_for(*e, r),
{
    let name = e.name.clone();
    let action = match &e.kind {
        SourceKind::Local => Err(Error::SourceNotUpdatable {
            name: e.name.clone(),
            reason: String::from_str("a local source has no origin to update from"),
        }),
        SourceKind::Copied { origin, subdir } => match subdir {
            Some(_) => Err(Error::SourceNotUpdatable {
                name: e.name.clone(),
                reason: String::from_str("imported via --subdir; history wasn't preserved so there's nothing to fast-forward against"),
            }),
            None => Ok(UpdateAction::FromCopy { origin: origin.clone() }),
        },
        SourceKind::Cloned { url, git_ref, subdir } => match subdir {
            Some(_) => Err(Error::SourceNotUpdatable {
                name: e.name.clone(),
                reason: String::from_str("imported via --subdir; history wasn't preserved so there's nothing to fast-forward against"),
            }),
            None => Ok(UpdateAction::FromClone { url: url.clone(), git_ref: clone_opt(git_ref) }),
        },
    };
    (name, action)
}

/// Plans a refresh of one source (`Some(name)`) or of every source (`None`):
/// one item per targeted source, in manifest order, never stopping at the
/// first source that can't be updated. An unknown name gives a single
/// [`Error::UnknownSource`] item.
pub fn update_plan(entries: &Vec<SourceEntry>, source: Option<&str>) -> (r: Vec<(String, Result<UpdateAction, Error>)>)
    ensures
        match source {
            None => r.len() == entries.len() && forall|i: int| 0 <= i < entries.len() ==> planned_for(#[trigger] entries@[i], r@[i]),
            Some(s) => r.len() == 1 && if exists|i: int| 0 <= i < entries.len() && #[trigger] entries@[i].name@ == s@ {
                exists|i: int|
                    0 <= i < entries.len() && #[trigger] entries@[i].name@ == s@ && (forall|j: int| 0 <= j < i ==> entries@[j].name@ != s@)
                        && planned_for(entries@[i], r@[0])
            } else {
                r@[0].0@ == s@ && (r@[0].1 matches Err(Error::UnknownSource { name }) && name@ == s@)
            },
        },
{
    let mut out: Vec<(String, Result<UpdateAction, Error>)> = Vec::new();
    match source {
        Some(s) => {
            let mut i: usize = 0;
            while i < entries.len()
                invariant
                    source == Some(s),
                    i <= entries.len(),
                    out.len() == 0,
                    forall|j: int| 0 <= j < i ==> entries@[j].name@ != s@,
                decreases entries.len() - i,
            {
                if same_text(entries[i].name.as_str(), s) {
                    out.push(plan_one(&entries[i]));
                    assert(planned_for(entries@[i as int], out@[0]));
                    return out;
                }
                i = i + 1;
            }
            out.push((String::from_str(s), Err(Error::UnknownSource { name: String::from_str(s) })));
            out
        },
        None => {
            let mut i: usize = 0;
            while i < entries.len()
                invariant
                    source is None,
                    i <= entries.len(),
                    out.len() == i,
                    forall|j: int| 0 <= j < i ==> planned_for(#[trigger] entries@[j], out@[j]),
                decreases entries.len() - i,
            {
                out.push(plan_one(&entries[i]));
                i = i + 1;
            }
            out
        },
    }
}

/// The source the merged view takes template `name` from: its index in the
/// merged `winners` (see [`merge`]), or [`Error::NotFound`].
pub fn winner_of(winners: &Vec<(String, usize)>, name: &str) -> (r: Result<usize, Error>)
    requires
        keys_sorted(winners@),
    ensures
        match lookup(winners@, name@) {
            Some(i) => r == Ok::<usize, Error>(i),
            None => r matches Err(Error::NotFound(n)) && n@ == name@,
        },
{
    match position_of(winners, name) {
        Some(p) => {
            proof {
                crate::order::lemma_find_position_some(winners@, name@);
            }
            Ok(winners[p].1)
        },
        None => Err(Error::NotFound(String::from_str(name))),
    }
}


/// The entries of `entries` (template, source) whose metadata `query`
/// accepts, in their order.
pub open spec fn accepted(entries: Seq<(TemplateEntry, String)>, query: Query) -> Seq<(TemplateEntry, String)>
    decreases entries.len(),
{
    if entries.len() == 0 {
        Seq::empty()
    } else {
        let rest = accepted(entries.drop_last(), query);
        if query.accepts(entries.last().0.meta) {
            rest.push(entries.last())
        } else {
            rest
        }
    }
}

/// Keeps the entries (template, source) whose frontmatter `query` accepts,
/// in their order: a search over a listing.
pub fn filter_by_query(entries: Vec<(TemplateEntry, String)>, query: &Query) -> (r: Vec<(TemplateEntry, String)>)
    requires
        forall|i: int| 0 <= i < entries.len() ==> (#[trigger] entries@[i]).0.meta.wf(),
    ensures
        r@ == accepted(entries@, *query),
{
    let ghost all = entries@;
    let mut rest = entries;
    let mut out: Vec<(TemplateEntry, String)> = Vec::new();
    let ghost mut done: int = 0;
    assert(all.take(0) =~= Seq::<(TemplateEntry, String)>::empty());
    while rest.len() > 0
        invariant
            0 <= done <= all.len(),
            rest@ == all.skip(done),
            forall|i: int| 0 <= i < all.len() ==> (#[trigger] all[i]).0.meta.wf(),
            out@ == accepted(all.take(done), *query),
        decreases rest.len(),
    {
        let e = rest.remove(0);
        assert(e == all[done]);
        assert(all.take(done + 1).drop_last() =~= all.take(done));
        assert(all.take(done + 1).last() == e);
        if query.matches(&e.0.meta) {
            out.push(e);
        }
        proof {
            done = done + 1;
        }
    }
    assert(all.take(done) =~= all);
    out
}

} // verus!
