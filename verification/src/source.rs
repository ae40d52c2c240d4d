//! Adopting an existing store as the start of a new source: which route the
//! content takes (a plain filesystem copy for anything local, git's
//! transport for a genuine remote or a requested ref), what the manifest
//! records about it, and how a later update judges the copy against its
//! origin.
use vstd::prelude::*;
use vstd::string::*;
use crate::error::Error;
use crate::text::{opt_chars, opt_view};
use crate::manifest::SourceKind;
use crate::text::concat;

verus! {

/// Where a new store is adopted from.
#[derive(Debug)]
pub enum Source {
    /// A local directory: always copied on the filesystem.
    Dir(String),
    /// A URL, or a free-form location that may still name a local path.
    Url(String),
}

/// How a store's content was actually brought in. The manifest records this
/// (not which flag was given), so that an update picks the matching strategy.
#[derive(Debug, Clone, Copy, PartialEq, Eq)]
pub enum AdoptionMechanism {
    Copied,
    Cloned,
}

/// The way [`clone_or_copy_route`] brings a store in.
#[derive(Debug)]
pub enum Route {
    /// Copy the local directory at `path`, history and working tree alike.
    Copy { path: String },
    /// Clone `url` through git's transport, checking out `git_ref` if given.
    Clone { url: String, git_ref: Option<String> },
}

/// What gix makes of `url` as a repository location, on the target the
/// crate was built for: the local filesystem path it names (a bare path or
/// a `file://` URL), no path for a genuine remote, or the parse error's
/// message.
pub uninterp spec fn url_local_path(url: Seq<char>) -> Result<Option<Seq<char>>, Seq<char>>;

pub open spec fn local_path_view(r: Result<Option<String>, String>) -> Result<Option<Seq<char>>, Seq<char>> {
    match r {
        Ok(p) => Ok(opt_chars(p)),
        Err(e) => Err(e@),
    }
}

/// `gix::Url::try_from` followed by `gix_path::from_bstring` on the path of
/// a `file` scheme URL: the result is named by [`url_local_path`].
#[verifier::external_body]
fn parse_local_path(url: &str) -> (r: Result<Option<String>, String>)
    ensures
        local_path_view(r) == url_local_path(url@),
{
    match gix::Url::try_from(url) {
        Err(e) => Err(e.to_string()),
        Ok(parsed) if parsed.scheme == gix::url::Scheme::File => match gix_path::from_bstring(parsed.path) {
            Ok(p) => Ok(Some(p.to_string_lossy().into_owned())),
            Err(e) => Err(e.to_string()),
        },
        Ok(_) => Ok(None),
    }
}

/// The local filesystem path `url` names, if any (see [`url_local_path`]);
/// a location gix can't parse is [`Error::Git`] with the parser's message.
pub fn local_path_of(url: &str) -> (r: Result<Option<String>, Error>)
    ensures
        match url_local_path(url@) {
            Ok(p) => r matches Ok(q) && opt_chars(q) == p,
            Err(m) => r matches Err(Error::Git(e)) && e@ == m,
        },
{
    match parse_local_path(url) {
        Ok(p) => Ok(p),
        Err(e) => Err(Error::Git(e)),
    }
}

/// Chooses how `source` is brought in: a local directory is copied; a URL
/// with a requested `git_ref` is cloned at that ref; a URL without one is
/// copied when it names a local path and cloned otherwise.
pub fn clone_or_copy_route(source: &Source, git_ref: Option<&str>) -> (r: Result<Route, Error>)
    ensures
        match source {
            Source::Dir(p) => r matches Ok(Route::Copy { path }) && path@ == p@,
            Source::Url(u) => match git_ref {
                Some(g) => r matches Ok(Route::Clone { url, git_ref: Some(h) }) && url@ == u@ && h@ == g@,
                None => match url_local_path(u@) {
                    Ok(Some(p)) => r matches Ok(Route::Copy { path }) && path@ == p,
                    Ok(None) => r matches Ok(Route::Clone { url, git_ref: None }) && url@ == u@,
                    Err(m) => r matches Err(Error::Git(e)) && e@ == m,
                },
            },
        },
{
    match source {
        Source::Dir(p) => Ok(Route::Copy { path: p.clone() }),
        Source::Url(u) => match git_ref {
            Some(g) => Ok(Route::Clone { url: u.clone(), git_ref: Some(String::from_str(g)) }),
            None => match local_path_of(u.as_str()) {
                Ok(Some(p)) => Ok(Route::Copy { path: p }),
                Ok(None) => Ok(Route::Clone { url: u.clone(), git_ref: None }),
                Err(e) => Err(e),
            },
        },
    }
}

/// The mechanism a route stands for.
pub open spec fn route_mechanism(route: Route) -> AdoptionMechanism {
    match route {
        Route::Copy { .. } => AdoptionMechanism::Copied,
        Route::Clone { .. } => AdoptionMechanism::Cloned,
    }
}

/// The mechanism `route` adopts a store by.
pub fn mechanism_of(route: &Route) -> (r: AdoptionMechanism)
    ensures
        r == route_mechanism(*route),
{
    match route {
        Route::Copy { .. } => AdoptionMechanism::Copied,
        Route::Clone { .. } => AdoptionMechanism::Cloned,
    }
}

/// The manifest kind recorded for a store adopted by `mechanism`. A copy
/// records its origin: the (already redirected) `--from-dir` directory if
/// one was given, else the local path that `from_repo_url` names; a URL that
/// was copied but names no local path is refused. A clone records its URL
/// and the requested ref. Both keep `subdir`.
pub fn recorded_kind(
    mechanism: AdoptionMechanism,
    resolved_dir: Option<&str>,
    from_repo_url: Option<&str>,
    git_ref: Option<&str>,
    subdir: Option<&str>,
) -> (r: Result<SourceKind, Error>)
    requires
        resolved_dir is Some || from_repo_url is Some,
        mechanism == AdoptionMechanism::Cloned ==> from_repo_url is Some,
    ensures
        match mechanism {
            AdoptionMechanism::Copied => match resolved_dir {
                Some(d) => r matches Ok(SourceKind::Copied { origin, subdir: s })
                    && origin@ == d@ && opt_chars(s) == opt_view(subdir),
                None => match url_local_path(from_repo_url.unwrap()@) {
                    Ok(Some(p)) => r matches Ok(SourceKind::Copied { origin, subdir: s })
                        && origin@ == p && opt_chars(s) == opt_view(subdir),
                    Ok(None) => r matches Err(Error::Git(e))
                        && e@ == "'"@ + from_repo_url.unwrap()@ + "' was copied but isn't a local path"@,
                    Err(m) => r matches Err(Error::Git(e)) && e@ == m,
                },
            },
            AdoptionMechanism::Cloned => r matches Ok(SourceKind::Cloned { url, git_ref: g, subdir: s })
                && url@ == from_repo_url.unwrap()@ && opt_chars(g) == opt_view(git_ref)
                && opt_chars(s) == opt_view(subdir),
        },
{
    let kept_subdir = match subdir {
        Some(s) => Some(String::from_str(s)),
        None => None,
    };
    match mechanism {
        AdoptionMechanism::Copied => {
            let origin = match resolved_dir {
                Some(d) => String::from_str(d),
                None => {
                    let url = from_repo_url.unwrap();
                    match local_path_of(url) {
                        Ok(Some(p)) => p,
                        Ok(None) => {
                            let mut m = concat("'", url);
                            m.append("' was copied but isn't a local path");
                            return Err(Error::Git(m));
                        },
                        Err(e) => return Err(e),
                    }
                },
            };
            Ok(SourceKind::Copied { origin, subdir: kept_subdir })
        },
        AdoptionMechanism::Cloned => {
            let url = String::from_str(from_repo_url.unwrap());
            let kept_ref = match git_ref {
                Some(g) => Some(String::from_str(g)),
                None => None,
            };
            Ok(SourceKind::Cloned { url, git_ref: kept_ref, subdir: kept_subdir })
        },
    }
}

/// What an update did to a source that could be updated.
#[derive(Debug, Clone, PartialEq, Eq)]
pub enum UpdateStatus {
    /// The source was already at its origin's commit.
    UpToDate,
    /// The source moved forward from commit `from` to commit `to`.
    FastForwarded { from: String, to: String },
}

/// Judges source `name`, now at commit `current`, against its origin's
/// commit `target`: the same commit is up to date; a `current` that is an
/// ancestor of `target` fast-forwards to it; anything else has diverged and
/// is [`Error::NotFastForward`].
pub fn fast_forward_status(name: &str, current: &str, target: &str, current_is_ancestor: bool) -> (r: Result<UpdateStatus, Error>)
    ensures
        current@ == target@ ==> r == Ok::<UpdateStatus, Error>(UpdateStatus::UpToDate),
        current@ != target@ && current_is_ancestor ==> (r matches Ok(UpdateStatus::FastForwarded { from, to })
            && from@ == current@ && to@ == target@),
        current@ != target@ && !current_is_ancestor ==> (r matches Err(Error::NotFastForward { name: n }) && n@ == name@),
{
    if crate::text::same_text(current, target) {
        Ok(UpdateStatus::UpToDate)
    } else if current_is_ancestor {
        Ok(UpdateStatus::FastForwarded { from: String::from_str(current), to: String::from_str(target) })
    } else {
        Err(Error::NotFastForward { name: String::from_str(name) })
    }
}

} // verus!
