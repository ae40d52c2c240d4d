//! Parses the value of `--from-repo`: either a full git URL, or the
//! `[host/]owner/repo[/subdir][@ref]` shorthand (the host defaults to
//! `github.com`; an explicit host is how GitHub Enterprise is supported).
use vstd::prelude::*;
use vstd::string::*;
use crate::text::{
    opt_chars,
    has_prefix, contains_seq, rsplit_once, pieces, join_with, views, starts_with, contains_str,
    rfind_char, char_count, substring, split_pieces, join_from, has_char, concat,
};

verus! {

/// Where to adopt a source from: a clone URL, plus the optional
/// subdirectory and git ref the shorthand can carry.
pub struct FromRepo {
    pub url: String,
    pub subdir: Option<String>,
    pub git_ref: Option<String>,
}

impl FromRepo {
    /// The value as plain character sequences: (url, subdir, ref).
    pub open spec fn view_parts(self) -> (Seq<char>, Option<Seq<char>>, Option<Seq<char>>) {
        (self.url@, opt_chars(self.subdir), opt_chars(self.git_ref))
    }
}

/// Whether `spec` is taken as a URL as it stands.
pub open spec fn is_url_like(spec: Seq<char>) -> bool {
    ||| has_prefix(spec, "http://"@)
    ||| has_prefix(spec, "https://"@)
    ||| has_prefix(spec, "ssh://"@)
    ||| has_prefix(spec, "file://"@)
    ||| has_prefix(spec, "git@"@)
    ||| contains_seq(spec, "://"@)
}

/// The message for a value that is neither a URL nor a usable shorthand.
pub open spec fn shorthand_error(spec: Seq<char>) -> Seq<char> {
    "expected `[host/]owner/repo[/subdir][@ref]` or a URL, got `"@ + spec + "`"@
}

/// What `parse` yields for `spec`: (url, subdir, ref) or an error message.
pub open spec fn parse_result(spec: Seq<char>) -> Result<
    (Seq<char>, Option<Seq<char>>, Option<Seq<char>>),
    Seq<char>,
> {
    if is_url_like(spec) {
        Ok((spec, None, None))
    } else {
        let path_part = match rsplit_once(spec, '@') {
            Some(parts) => parts.0,
            None => spec,
        };
        let git_ref = match rsplit_once(spec, '@') {
            Some(parts) => Some(parts.1),
            None => None,
        };
        let segs = pieces(path_part, '/');
        if segs.len() == 0 {
            Err(shorthand_error(spec))
        } else {
            let has_host = segs.len() > 2 && segs[0].contains('.');
            let host = if has_host {
                segs[0]
            } else {
                "github.com"@
            };
            let rest = if has_host {
                segs.drop_first()
            } else {
                segs
            };
            if rest.len() < 2 {
                Err(shorthand_error(spec))
            } else {
                let subdir = if rest.len() > 2 {
                    Some(join_with(rest.skip(2), "/"@))
                } else {
                    None
                };
                Ok(("https://"@ + host + "/"@ + rest[0] + "/"@ + rest[1] + ".git"@, subdir, git_ref))
            }
        }
    }
}

/// Whether `spec` is a URL rather than the shorthand.
pub fn looks_like_url(spec: &str) -> (r: bool)
    ensures
        r == is_url_like(spec@),
{
    starts_with(spec, "http://") || starts_with(spec, "https://") || starts_with(spec, "ssh://")
        || starts_with(spec, "file://") || starts_with(spec, "git@") || contains_str(spec, "://")
}

fn shorthand_error_message(spec: &str) -> (r: String)
    ensures
        r@ == shorthand_error(spec@),
{
    let head = concat("expected `[host/]owner/repo[/subdir][@ref]` or a URL, got `", spec);
    concat(head.as_str(), "`")
}

/// Parses the value of `--from-repo`.
pub fn parse(spec: &str) -> (r: Result<FromRepo, String>)
    ensures
        match r {
            Ok(f) => parse_result(spec@) == Ok::<_, Seq<char>>(f.view_parts()),
            Err(e) => parse_result(spec@) == Err::<(Seq<char>, Option<Seq<char>>, Option<Seq<char>>), _>(e@),
        },
{
    if looks_like_url(spec) {
        return Ok(FromRepo { url: String::from_str(spec), subdir: None, git_ref: None });
    }
    let n = char_count(spec);
    let (path_part, git_ref) = match rfind_char(spec, '@') {
        Some(at) => (substring(spec, 0, at), Some(substring(spec, at + 1, n))),
        None => (String::from_str(spec), None),
    };
    let segs = split_pieces(path_part.as_str(), '/');
    let ghost vs = views(segs@);
    if segs.len() == 0 {
        return Err(shorthand_error_message(spec));
    }
    let has_host = segs.len() > 2 && has_char(segs[0].as_str(), '.');
    let start: usize = if has_host { 1 } else { 0 };
    let host = if has_host {
        segs[0].clone()
    } else {
        String::from_str("github.com")
    };
    let ghost rest = if has_host { vs.drop_first() } else { vs };
    assert(rest =~= vs.skip(start as int));
    if segs.len() - start < 2 {
        return Err(shorthand_error_message(spec));
    }
    let subdir = if segs.len() - start > 2 {
        let j = join_from(&segs, start + 2, "/");
        assert(vs.skip(start + 2) =~= rest.skip(2));
        Some(j)
    } else {
        None
    };
    let mut url = concat("https://", host.as_str());
    url.append("/");
    url.append(segs[start].as_str());
    url.append("/");
    url.append(segs[start + 1].as_str());
    url.append(".git");
    assert(rest[0] == segs@[start as int]@);
    assert(rest[1] == segs@[start + 1]@);
    Ok(FromRepo { url, subdir, git_ref })
}

/// The last `@` of `p + "@" + r`, when `r` holds none, splits it back
/// into `p` and `r`.
proof fn lemma_split_at_last_at(p: Seq<char>, r: Seq<char>)
    requires
        forall|j: int| 0 <= j < r.len() ==> r[j] != '@',
    ensures
        rsplit_once(p + seq!['@'] + r, '@') == Some((p, r)),
{
    let s = p + seq!['@'] + r;
    assert(s[p.len() as int] == '@');
    assert forall|j: int| p.len() < j < s.len() implies s[j] != '@' by {
        assert(s[j] == r[j - p.len() - 1]);
    }
    crate::text::lemma_last_unique(s, '@', p.len() as int);
    assert(s.take(p.len() as int) =~= p);
    assert(s.skip(p.len() as int + 1) =~= r);
}

/// Law: in the shorthand, the ref is exactly the text after the last `@`,
/// whatever characters (such as `/`) it holds, and it has no say in the
/// URL or the subdirectory: two values that differ only in that text
/// either both parse, to the same URL and subdirectory, or both fail.
pub proof fn law_ref_is_the_text_after_the_last_at(p: Seq<char>, r1: Seq<char>, r2: Seq<char>)
    requires
        forall|j: int| 0 <= j < r1.len() ==> r1[j] != '@',
        forall|j: int| 0 <= j < r2.len() ==> r2[j] != '@',
        !is_url_like(p + seq!['@'] + r1),
        !is_url_like(p + seq!['@'] + r2),
    ensures
        parse_result(p + seq!['@'] + r1) matches Ok(v) ==> v.2 == Some(r1),
        (parse_result(p + seq!['@'] + r1) is Ok) == (parse_result(p + seq!['@'] + r2) is Ok),
        parse_result(p + seq!['@'] + r1) matches Ok(v1) ==> (parse_result(p + seq!['@'] + r2) matches Ok(v2)
            && v1.0 == v2.0 && v1.1 == v2.1),
{
    lemma_split_at_last_at(p, r1);
    lemma_split_at_last_at(p, r2);
}

} // verus!
