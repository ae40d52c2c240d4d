//! The decisions of a single git-backed store of templates: where a
//! template lives in the repository, how a template's text becomes an entry,
//! which names the working tree holds, how a file's history collapses into
//! log entries, and the rules around a template's tags.
use vstd::prelude::*;
use vstd::string::*;
use crate::error::Error;
use crate::frontmatter::{Parsed, parse, parse_spec};
use crate::meta::TemplateMeta;
use crate::order::{keys_sorted, lookup, upsert_sorted};
use crate::tags::{TagEntry, tag_ref, tag_ref_name, tag_scope};
use crate::text::{views, concat, join_from, join_with, starts_with, char_count, substring, has_prefix};
use crate::yaml::YamlValue;

verus! {

/// Directory, inside a store, that holds the templates.
pub const TEMPLATES_DIR: &'static str = "templates";

/// A template read from a store: its name, metadata and body.
#[derive(Debug)]
pub struct TemplateEntry {
    pub name: String,
    pub meta: TemplateMeta,
    pub body: String,
}

/// One commit in a template's history.
#[derive(Debug, Clone)]
pub struct LogEntry {
    pub commit: String,
    pub message: String,
}

/// The path of template `name` inside the repository.
pub open spec fn repo_path(name: Seq<char>) -> Seq<char> {
    "templates/"@ + name
}

/// The path of template `name` inside the repository: `templates/<name>`.
pub fn git_path(name: &str) -> (r: String)
    ensures
        r@ == repo_path(name@),
{
    concat("templates/", name)
}

/// Turns the text of template `name` into an entry by parsing its
/// frontmatter (see [`crate::frontmatter::parse`]).
pub fn template_entry(name: &str, text: &str) -> (r: Result<TemplateEntry, Error>)
    ensures
        match r {
            Ok(e) => e.name@ == name@ && parse_spec(text@, Ok(Parsed { meta: e.meta, body: e.body })),
            Err(err) => parse_spec(text@, Err(err)),
        },
{
    match parse(text) {
        Ok(parsed) => Ok(TemplateEntry { name: String::from_str(name), meta: parsed.meta, body: parsed.body }),
        Err(e) => Err(e),
    }
}


/// One commit of the first-parent walk from `HEAD`, newest first: its id,
/// its message title, and the blob the template's path holds there (none
/// when the template doesn't exist in that commit).
pub type CommitRecord = (String, String, Option<String>);

pub open spec fn record_view(r: CommitRecord) -> (Seq<char>, Seq<char>, Option<Seq<char>>) {
    (r.0@, r.1@, match r.2 {
        Some(b) => Some(b@),
        None => None,
    })
}

/// Whether record `i` of a walk (newest first) is a commit at which the
/// template's content changed: the template exists there, and the next
/// older record (its parent in the walk) holds other content or none, or
/// there is no older record.
pub open spec fn changed_at(records: Seq<(Seq<char>, Seq<char>, Option<Seq<char>>)>, i: int) -> bool {
    &&& records[i].2 is Some
    &&& (i + 1 >= records.len() || records[i + 1].2 != records[i].2)
}

/// The (commit, message) of each of the first `n` records at which the
/// template's content changed, in walk order.
pub open spec fn changes_upto(records: Seq<(Seq<char>, Seq<char>, Option<Seq<char>>)>, n: nat) -> Seq<(Seq<char>, Seq<char>)>
    decreases n,
{
    if n == 0 {
        Seq::empty()
    } else {
        let prev = changes_upto(records, (n - 1) as nat);
        if changed_at(records, n - 1) {
            prev.push((records[n - 1].0, records[n - 1].1))
        } else {
            prev
        }
    }
}

/// The log of a walk `records` (newest first): the commits that changed
/// the template, each the oldest of a run of commits holding the same
/// content. Commits where the template doesn't exist are not listed.
pub open spec fn collapse(records: Seq<(Seq<char>, Seq<char>, Option<Seq<char>>)>) -> Seq<(Seq<char>, Seq<char>)> {
    changes_upto(records, records.len())
}

/// The first `n` records' changes, as [`changes_upto`] lists them, hold the
/// commit of each record before `n` whose content differs from the next
/// one's, and only such commits.
proof fn lemma_changes_upto(records: Seq<(Seq<char>, Seq<char>, Option<Seq<char>>)>, n: nat)
    requires
        n <= records.len(),
    ensures
        forall|i: int|
            0 <= i < n && records[i].2 is Some && (i + 1 == records.len() || records[i + 1].2 != records[i].2)
                ==> #[trigger] changes_upto(records, n).contains((records[i].0, records[i].1)),
        forall|x: (Seq<char>, Seq<char>)|
            #[trigger] changes_upto(records, n).contains(x) ==> exists|i: int|
                0 <= i < n && records[i].2 is Some && (i + 1 == records.len() || records[i + 1].2 != records[i].2)
                    && x == (records[i].0, records[i].1),
    decreases n,
{
    if n > 0 {
        let m = (n - 1) as nat;
        lemma_changes_upto(records, m);
        let prev = changes_upto(records, m);
        let cur = changes_upto(records, n);
        let last = (records[n - 1].0, records[n - 1].1);
        if changed_at(records, n - 1) {
            assert(cur == prev.push(last));
            assert(cur[cur.len() - 1] == last);
            assert forall|x: (Seq<char>, Seq<char>)| prev.contains(x) implies cur.contains(x) by {
                let k = choose|k: int| 0 <= k < prev.len() && prev[k] == x;
                assert(cur[k] == x);
            }
            assert forall|x: (Seq<char>, Seq<char>)| #[trigger] cur.contains(x) implies prev.contains(x) || x == last by {
                let k = choose|k: int| 0 <= k < cur.len() && cur[k] == x;
                if k < prev.len() {
                    assert(prev[k] == x);
                }
            }
        } else {
            assert(cur == prev);
        }
    }
}

/// Law: the log lists a commit exactly when the template's content there
/// differs from its parent's. A commit that holds the template, and whose
/// next older commit holds other content, none, or doesn't exist, is
/// always listed, whatever older commits hold; and every listed entry is
/// the (commit, message) of such a commit. A revert to earlier content is
/// a change like any other.
pub proof fn law_log_lists_each_change(records: Seq<(Seq<char>, Seq<char>, Option<Seq<char>>)>)
    ensures
        forall|i: int|
            0 <= i < records.len() && records[i].2 is Some && (i + 1 == records.len() || records[i + 1].2
                != records[i].2) ==> #[trigger] collapse(records).contains((records[i].0, records[i].1)),
        forall|x: (Seq<char>, Seq<char>)|
            #[trigger] collapse(records).contains(x) ==> exists|i: int|
                0 <= i < records.len() && records[i].2 is Some && (i + 1 == records.len() || records[i + 1].2
                    != records[i].2) && x == (records[i].0, records[i].1),
{
    lemma_changes_upto(records, records.len());
}

pub open spec fn log_view(entries: Seq<LogEntry>) -> Seq<(Seq<char>, Seq<char>)> {
    entries.map_values(|e: LogEntry| (e.commit@, e.message@))
}

/// Collapses a walk into the template's log, newest first (see
/// [`collapse`]): a path simplification, not full git history
/// simplification.
pub fn collapse_log(records: &Vec<CommitRecord>) -> (r: Vec<LogEntry>)
    ensures
        log_view(r@) == collapse(records@.map_values(|c: CommitRecord| record_view(c))),
{
    let ghost all = records@.map_values(|c: CommitRecord| record_view(c));
    let mut out: Vec<LogEntry> = Vec::new();
    let n = records.len();
    let mut i: usize = 0;
    assert(log_view(out@) =~= Seq::<(Seq<char>, Seq<char>)>::empty());
    while i < n
        invariant
            i <= n,
            n == records.len(),
            all == records@.map_values(|c: CommitRecord| record_view(c)),
            all.len() == n,
            log_view(out@) == changes_upto(all, i as nat),
        decreases n - i,
    {
        assert(all[i as int] == record_view(records@[i as int]));
        let changed = match &records[i].2 {
            None => false,
            Some(blob) => {
                if i + 1 == n {
                    true
                } else {
                    assert(all[i + 1] == record_view(records@[i + 1]));
                    match &records[i + 1].2 {
                        None => true,
                        Some(older) => !crate::text::same_text(older.as_str(), blob.as_str()),
                    }
                }
            },
        };
        assert(changed == changed_at(all, i as int));
        if changed {
            let ghost before = log_view(out@);
            out.push(LogEntry { commit: records[i].0.clone(), message: records[i].1.clone() });
            assert(log_view(out@) =~= before.push((all[i as int].0, all[i as int].1)));
        }
        i = i + 1;
    }
    out
}

/// The tag name a listed ref carries: the ref name without the template's
/// tag prefix (`prefix`), or the whole ref name if it lacks that prefix.
pub open spec fn tag_of_ref(prefix: Seq<char>, full: Seq<char>) -> Seq<char> {
    if has_prefix(full, prefix) {
        full.skip(prefix.len() as int)
    } else {
        full
    }
}

/// Law: a tag made on `template` is listed back under its own name.
/// The ref that names it lies under the template's tag prefix, and
/// stripping that prefix gives the tag again.
pub proof fn law_tag_ref_round_trip(template: Seq<char>, tag: Seq<char>)
    ensures
        has_prefix(tag_ref(template, tag), tag_scope(template)),
        tag_of_ref(tag_scope(template), tag_ref(template, tag)) == tag,
{
    let full = tag_ref(template, tag);
    let scope = tag_scope(template);
    assert(full =~= scope + tag);
    assert(full.take(scope.len() as int) =~= scope);
    assert(full.skip(scope.len() as int) =~= tag);
}

/// The tags of a template from the refs listed under its tag prefix
/// `prefix` (full ref name, commit id), sorted by tag name. A tag listed
/// twice keeps the commit of its last listing.
pub fn tag_entries(prefix: &str, refs: &Vec<(String, String)>) -> (r: Vec<TagEntry>)
    ensures
        crate::order::keys_sorted(tag_pairs(r@)),
        forall|t: Seq<char>|
            #![trigger lookup(tag_pairs(r@), t)]
            match lookup(tag_pairs(r@), t) {
                Some(c) => exists|i: int|
                    0 <= i < refs.len() && tag_of_ref(prefix@, #[trigger] refs@[i].0@) == t && c@ == refs@[i].1@
                        && forall|j: int| i < j < refs.len() ==> tag_of_ref(prefix@, #[trigger] refs@[j].0@) != t,
                None => forall|i: int| 0 <= i < refs.len() ==> tag_of_ref(prefix@, #[trigger] refs@[i].0@) != t,
            },
{
    let mut sorted: Vec<(String, String)> = Vec::new();
    let n = char_count(prefix);
    let mut i: usize = 0;
    while i < refs.len()
        invariant
            i <= refs.len(),
            n == prefix@.len(),
            keys_sorted(sorted@),
            forall|t: Seq<char>|
                #![trigger lookup(sorted@, t)]
                match lookup(sorted@, t) {
                    Some(c) => exists|k: int|
                        0 <= k < i && tag_of_ref(prefix@, #[trigger] refs@[k].0@) == t && c@ == refs@[k].1@
                            && forall|j: int| k < j < i ==> tag_of_ref(prefix@, #[trigger] refs@[j].0@) != t,
                    None => forall|k: int| 0 <= k < i ==> tag_of_ref(prefix@, #[trigger] refs@[k].0@) != t,
                },
        decreases refs.len() - i,
    {
        let full = refs[i].0.as_str();
        let tag = if starts_with(full, prefix) {
            substring(full, n, char_count(full))
        } else {
            String::from_str(full)
        };
        assert(tag@ == tag_of_ref(prefix@, refs@[i as int].0@));
        let ghost before = sorted@;
        let ghost tv = tag@;
        let commit = refs[i].1.clone();
        upsert_sorted(&mut sorted, tag, commit);
        assert forall|t: Seq<char>|
            #![trigger lookup(sorted@, t)]
            match lookup(sorted@, t) {
                Some(c) => exists|k: int|
                    0 <= k < i + 1 && tag_of_ref(prefix@, #[trigger] refs@[k].0@) == t && c@ == refs@[k].1@
                        && forall|j: int| k < j < i + 1 ==> tag_of_ref(prefix@, #[trigger] refs@[j].0@) != t,
                None => forall|k: int| 0 <= k < i + 1 ==> tag_of_ref(prefix@, #[trigger] refs@[k].0@) != t,
            } by {
            if t == tv {
                assert(tag_of_ref(prefix@, refs@[i as int].0@) == t);
            } else {
                assert(lookup(sorted@, t) == lookup(before, t));
                match lookup(before, t) {
                    Some(c) => {
                        let k = choose|k: int|
                            0 <= k < i && tag_of_ref(prefix@, #[trigger] refs@[k].0@) == t && c@ == refs@[k].1@
                                && forall|j: int| k < j < i ==> tag_of_ref(prefix@, #[trigger] refs@[j].0@) != t;
                        assert(forall|j: int| k < j < i + 1 ==> tag_of_ref(prefix@, #[trigger] refs@[j].0@) != t);
                    },
                    None => {},
                }
            }
        }
        i = i + 1;
    }
    let mut out: Vec<TagEntry> = Vec::new();
    let mut k: usize = 0;
    while k < sorted.len()
        invariant
            k <= sorted.len(),
            out@.len() == k,
            tag_pairs(out@) == sorted@.take(k as int),
        decreases sorted.len() - k,
    {
        let ghost before = out@;
        let t = sorted[k].0.clone();
        let c = sorted[k].1.clone();
        assert(t == sorted@[k as int].0 && c == sorted@[k as int].1);
        out.push(TagEntry { tag: t, commit: c });
        assert(tag_pairs(out@) =~= tag_pairs(before).push(sorted@[k as int]));
        assert(tag_pairs(out@) =~= sorted@.take(k + 1));
        k = k + 1;
    }
    assert(sorted@.take(k as int) =~= sorted@);
    out
}

/// The tags as (tag, commit) pairs.
pub open spec fn tag_pairs(tags: Seq<TagEntry>) -> Seq<(String, String)> {
    tags.map_values(|t: TagEntry| (t.tag, t.commit))
}


/// The name of the template at the relative path with components `comps`:
/// the components joined with `/` on every platform.
pub open spec fn name_of_path(comps: Seq<String>) -> Seq<char> {
    join_with(views(comps), "/"@)
}

/// The template names of the files under `templates/`, given as the
/// components of each file's path relative to that directory: each name
/// once, sorted, empty names left out.
pub fn template_names(paths: &Vec<Vec<String>>) -> (r: Vec<String>)
    ensures
        forall|a: int, b: int|
            #![trigger r@[a], r@[b]]
            0 <= a < b < r.len() ==> crate::order::seq_lt(r@[a]@, r@[b]@),
        forall|k: Seq<char>|
            #![trigger views(r@).contains(k)]
            views(r@).contains(k) == exists|i: int|
                0 <= i < paths.len() && name_of_path(#[trigger] paths@[i]@) == k && k.len() > 0,
{
    let mut set: Vec<(String, ())> = Vec::new();
    let mut i: usize = 0;
    while i < paths.len()
        invariant
            i <= paths.len(),
            keys_sorted(set@),
            forall|k: Seq<char>|
                #![trigger lookup(set@, k)]
                lookup(set@, k) is Some == exists|j: int|
                    0 <= j < i && name_of_path(#[trigger] paths@[j]@) == k && k.len() > 0,
        decreases paths.len() - i,
    {
        let name = join_from(&paths[i], 0, "/");
        assert(views(paths@[i as int]@).skip(0) =~= views(paths@[i as int]@));
        if char_count(name.as_str()) > 0 {
            let ghost nv = name@;
            let ghost before = set@;
            upsert_sorted(&mut set, name, ());
            assert forall|k: Seq<char>|
                #![trigger lookup(set@, k)]
                lookup(set@, k) is Some == exists|j: int|
                    0 <= j < i + 1 && name_of_path(#[trigger] paths@[j]@) == k && k.len() > 0 by {
                if k == nv {
                    assert(name_of_path(paths@[i as int]@) == k);
                } else {
                    assert(lookup(set@, k) == lookup(before, k));
                }
            }
        } else {
            assert forall|k: Seq<char>|
                #![trigger lookup(set@, k)]
                lookup(set@, k) is Some == exists|j: int|
                    0 <= j < i + 1 && name_of_path(#[trigger] paths@[j]@) == k && k.len() > 0 by {
                if exists|j: int| 0 <= j < i + 1 && name_of_path(#[trigger] paths@[j]@) == k && k.len() > 0 {
                    let j = choose|j: int| 0 <= j < i + 1 && name_of_path(#[trigger] paths@[j]@) == k && k.len() > 0;
                    assert(j < i);
                }
            }
        }
        i = i + 1;
    }
    let mut out: Vec<String> = Vec::new();
    let mut k: usize = 0;
    while k < set.len()
        invariant
            k <= set.len(),
            out@.len() == k,
            keys_sorted(set@),
            forall|m: int| 0 <= m < k ==> (#[trigger] out@[m])@ == set@[m].0@,
        decreases set.len() - k,
    {
        out.push(set[k].0.clone());
        k = k + 1;
    }
    assert forall|a: int, b: int|
        #![trigger out@[a], out@[b]]
        0 <= a < b < out.len() implies crate::order::seq_lt(out@[a]@, out@[b]@) by {
        assert(crate::order::seq_lt(set@[a].0@, set@[b].0@));
    }
    assert forall|key: Seq<char>|
        #![trigger views(out@).contains(key)]
        views(out@).contains(key) == (lookup(set@, key) is Some) by {
        if views(out@).contains(key) {
            let m = choose|m: int| 0 <= m < views(out@).len() && views(out@)[m] == key;
            crate::order::lemma_find_position(set@, key, m);
        }
        if lookup(set@, key) is Some {
            crate::order::lemma_find_position_some(set@, key);
            let m = crate::order::find_position(set@, key).unwrap();
            assert(views(out@)[m] == key);
        }
    }
    out
}

/// `gix::validate::reference::name_partial` accepts `name` as a partial
/// reference name.
pub uninterp spec fn valid_partial_ref(name: Seq<char>) -> bool;

/// `gix::validate::reference::name_partial` on `name`'s bytes: whether git
/// would accept it as (part of) a reference name (see [`valid_partial_ref`]).
#[verifier::external_body]
fn is_valid_partial_ref(name: &str) -> (r: bool)
    ensures
        r == valid_partial_ref(name@),
{
    gix::validate::reference::name_partial(gix::bstr::BStr::new(name.as_bytes())).is_ok()
}

/// The ref a lookup of tag `tag` on template `name` should read: its full
/// ref name, or none when that isn't even a valid ref name (e.g. `HEAD~1`),
/// since such a tag can never have been created.
pub fn tag_lookup_ref(name: &str, tag: &str) -> (r: Option<String>)
    ensures
        match r {
            Some(full) => full@ == tag_ref(name@, tag@) && valid_partial_ref(tag_ref(name@, tag@)),
            None => !valid_partial_ref(tag_ref(name@, tag@)),
        },
{
    let full = tag_ref_name(name, tag);
    if is_valid_partial_ref(full.as_str()) {
        Some(full)
    } else {
        None
    }
}

/// Importing a subdirectory's templates into the store at `dest`: an
/// existing repository there (`has_repo`) is reused only with `force`, and
/// refused as already initialized otherwise; without one a new store is
/// made. The result tells whether the existing one is reused.
pub fn subdir_import_reuses(dest: &str, has_repo: bool, force: bool) -> (r: Result<bool, Error>)
    ensures
        !has_repo ==> r == Ok::<bool, Error>(false),
        has_repo && force ==> r == Ok::<bool, Error>(true),
        has_repo && !force ==> (r matches Err(Error::AlreadyInitialized(p)) && p@ == dest@),
{
    if !has_repo {
        Ok(false)
    } else if force {
        Ok(true)
    } else {
        Err(Error::AlreadyInitialized(String::from_str(dest)))
    }
}

/// Creating tag `tag` on `name` where a tag of that name already `exists`:
/// refused unless `force` is set.
pub fn check_tag_free(name: &str, tag: &str, exists: bool, force: bool) -> (r: Result<(), Error>)
    ensures
        (exists && !force) ==> (r matches Err(Error::TagAlreadyExists { name: n, tag: t }) && n@ == name@ && t@ == tag@),
        !(exists && !force) ==> r is Ok,
{
    if !force && exists {
        return Err(Error::TagAlreadyExists { name: String::from_str(name), tag: String::from_str(tag) });
    }
    Ok(())
}

/// Removing tag `tag` from `name`: refused when no such tag `exists`.
pub fn check_tag_present(name: &str, tag: &str, exists: bool) -> (r: Result<(), Error>)
    ensures
        !exists ==> (r matches Err(Error::TagNotFound { name: n, tag: t }) && n@ == name@ && t@ == tag@),
        exists ==> r is Ok,
{
    if !exists {
        return Err(Error::TagNotFound { name: String::from_str(name), tag: String::from_str(tag) });
    }
    Ok(())
}

} // verus!
