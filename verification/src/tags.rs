//! Named pointers to a specific revision of a single template.
//!
//! These are *not* git tags (`refs/tags/*`, which are repo-wide). Each tag
//! lives at `refs/lengua/tags/<template>/<tag>` so it's scoped to one
//! template, letting the same tag name (e.g. `"final"`) exist independently
//! on several templates.
use vstd::prelude::*;
use vstd::string::*;
use crate::error::Error;
use crate::text::{char_count, concat};

verus! {

/// Ref namespace lengua's own tags live under, distinct from `refs/tags/*`.
pub const TAG_REF_PREFIX: &'static str = "refs/lengua/tags";

/// The characters of [`TAG_REF_PREFIX`].
pub open spec fn tag_prefix() -> Seq<char> {
    "refs/lengua/tags"@
}

/// A tag pointing at the commit that introduced a template's tagged content.
#[derive(Debug, Clone, PartialEq, Eq)]
pub struct TagEntry {
    pub tag: String,
    pub commit: String,
}

/// The full ref name of `tag` on `template`.
pub open spec fn tag_ref(template: Seq<char>, tag: Seq<char>) -> Seq<char> {
    tag_prefix() + "/"@ + template + "/"@ + tag
}

/// The full ref name `refs/lengua/tags/<template>/<tag>`.
pub fn tag_ref_name(template: &str, tag: &str) -> (r: String)
    ensures
        r@ == tag_ref(template@, tag@),
{
    let mut r = concat("refs/lengua/tags", "/");
    r.append(template);
    r.append("/");
    r.append(tag);
    r
}

/// The ref-name prefix under which every tag of `template` lives:
/// `refs/lengua/tags/<template>/`.
pub open spec fn tag_scope(template: Seq<char>) -> Seq<char> {
    tag_prefix() + "/"@ + template + "/"@
}

/// The ref-name prefix under which every tag of `template` lives.
pub fn tag_scope_prefix(template: &str) -> (r: String)
    ensures
        r@ == tag_scope(template@),
{
    let mut r = concat("refs/lengua/tags", "/");
    r.append(template);
    r.append("/");
    r
}

/// `c` is an ASCII hexadecimal digit.
pub open spec fn is_hex_digit(c: char) -> bool {
    ('0' <= c <= '9') || ('a' <= c <= 'f') || ('A' <= c <= 'F')
}

/// `s` spells `HEAD` ignoring ASCII case.
pub open spec fn is_head_any_case(s: Seq<char>) -> bool {
    &&& s.len() == 4
    &&& (s[0] == 'h' || s[0] == 'H')
    &&& (s[1] == 'e' || s[1] == 'E')
    &&& (s[2] == 'a' || s[2] == 'A')
    &&& (s[3] == 'd' || s[3] == 'D')
}

/// `s` is four or more hex digits, i.e. it could be read as a commit id.
pub open spec fn looks_like_commit_id(s: Seq<char>) -> bool {
    s.len() >= 4 && forall|i: int| 0 <= i < s.len() ==> is_hex_digit(#[trigger] s[i])
}

/// Why `tag` cannot be used as a tag name, if it cannot.
pub open spec fn tag_name_problem(tag: Seq<char>) -> Option<Seq<char>> {
    if tag.len() == 0 {
        Some("must not be empty"@)
    } else if is_head_any_case(tag) {
        Some("'HEAD' is reserved"@)
    } else if looks_like_commit_id(tag) {
        Some("looks like a commit id, which would be ambiguous as a revision"@)
    } else {
        None
    }
}

fn is_hex(c: char) -> (r: bool)
    ensures
        r == is_hex_digit(c),
{
    ('0' <= c && c <= '9') || ('a' <= c && c <= 'f') || ('A' <= c && c <= 'F')
}

fn all_hex(s: &str) -> (r: bool)
    ensures
        r == (forall|i: int| 0 <= i < s@.len() ==> is_hex_digit(#[trigger] s@[i])),
{
    let n = s.unicode_len();
    let mut i: usize = 0;
    while i < n
        invariant
            n == s@.len(),
            i <= n,
            forall|j: int| 0 <= j < i ==> is_hex_digit(#[trigger] s@[j]),
        decreases n - i,
    {
        if !is_hex(s.get_char(i)) {
            return false;
        }
        i = i + 1;
    }
    true
}

/// Rejects tag names that would be ambiguous with the revspecs a revision
/// lookup already understands (`HEAD`, a commit sha), and the empty name.
pub fn validate_tag_name(tag: &str) -> (r: Result<(), Error>)
    ensures
        match tag_name_problem(tag@) {
            None => r is Ok,
            Some(reason) => r matches Err(Error::InvalidTagName { tag: t, reason: why }) && t@
                == tag@ && why@ == reason,
        },
{
    let n = char_count(tag);
    if n == 0 {
        return Err(
            Error::InvalidTagName {
                tag: String::from_str(tag),
                reason: String::from_str("must not be empty"),
            },
        );
    }
    if n == 4 {
        let c0 = tag.get_char(0);
        let c1 = tag.get_char(1);
        let c2 = tag.get_char(2);
        let c3 = tag.get_char(3);
        if (c0 == 'h' || c0 == 'H') && (c1 == 'e' || c1 == 'E') && (c2 == 'a' || c2 == 'A') && (
        c3 == 'd' || c3 == 'D') {
            return Err(
                Error::InvalidTagName {
                    tag: String::from_str(tag),
                    reason: String::from_str("'HEAD' is reserved"),
                },
            );
        }
    }
    if n >= 4 && all_hex(tag) {
        return Err(
            Error::InvalidTagName {
                tag: String::from_str(tag),
                reason: String::from_str(
                    "looks like a commit id, which would be ambiguous as a revision",
                ),
            },
        );
    }
    Ok(())
}

} // verus!
