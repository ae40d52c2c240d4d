//! Line diffs between two revisions of a template.
use vstd::prelude::*;
use vstd::string::*;
use crate::text::{char_count, substring};

verus! {

/// Whether a diff line is kept, added or removed.
#[derive(Debug, Clone, Copy, PartialEq, Eq)]
pub enum DiffTag {
    Equal,
    Insert,
    Delete,
}

/// A single line of a unified-style diff between two revisions of a template.
#[derive(Debug, Clone, PartialEq)]
pub struct DiffLine {
    pub tag: DiffTag,
    pub line: String,
}

/// What similar's `TextDiff::from_lines(old, new).iter_all_changes()`
/// yields: each change's tag and its text (as `to_string_lossy` gives it,
/// line terminator included).
pub uninterp spec fn line_changes(old: Seq<char>, new: Seq<char>) -> Seq<(DiffTag, Seq<char>)>;

/// The changes similar finds between the lines of `old` and of `new` (see
/// [`line_changes`]), each change's `ChangeTag` told apart into a `DiffTag`.
#[verifier::external_body]
fn similar_line_changes(old: &str, new: &str) -> (r: Vec<(DiffTag, String)>)
    ensures
        r@.map_values(|c: (DiffTag, String)| (c.0, c.1@)) == line_changes(old@, new@),
{
    similar::TextDiff::from_lines(old, new)
        .iter_all_changes()
        .map(|change| {
            let tag = match change.tag() {
                similar::ChangeTag::Equal => DiffTag::Equal,
                similar::ChangeTag::Insert => DiffTag::Insert,
                similar::ChangeTag::Delete => DiffTag::Delete,
            };
            (tag, change.to_string_lossy().into_owned())
        })
        .collect()
}

/// `s` without any `\n` at its end (`trim_end_matches('\n')`).
pub open spec fn trim_newlines(s: Seq<char>) -> Seq<char>
    decreases s.len(),
{
    if s.len() > 0 && s.last() == '\n' {
        trim_newlines(s.drop_last())
    } else {
        s
    }
}

fn trim_trailing_newlines(s: &str) -> (r: String)
    ensures
        r@ == trim_newlines(s@),
{
    let mut end = char_count(s);
    assert(s@.take(end as int) =~= s@);
    while end > 0 && s.get_char(end - 1) == '\n'
        invariant
            end <= s@.len(),
            trim_newlines(s@) == trim_newlines(s@.take(end as int)),
        decreases end,
    {
        assert(s@.take(end as int).drop_last() =~= s@.take(end - 1));
        end = end - 1;
    }
    substring(s, 0, end)
}

/// The diff lines for the changes `changes`: each change's tag with its
/// text, line terminators trimmed.
pub open spec fn diff_lines_of(changes: Seq<(DiffTag, Seq<char>)>) -> Seq<(DiffTag, Seq<char>)> {
    changes.map_values(|c: (DiffTag, Seq<char>)| (c.0, trim_newlines(c.1)))
}

/// `n` newline characters.
pub open spec fn newlines(n: nat) -> Seq<char> {
    Seq::new(n, |_k: int| '\n')
}

proof fn lemma_trim_newlines(s: Seq<char>)
    ensures
        trim_newlines(s).len() <= s.len(),
        s =~= trim_newlines(s) + newlines((s.len() - trim_newlines(s).len()) as nat),
        trim_newlines(s).len() == 0 || trim_newlines(s).last() != '\n',
    decreases s.len(),
{
    if s.len() > 0 && s.last() == '\n' {
        let d = s.drop_last();
        lemma_trim_newlines(d);
        let t = trim_newlines(d);
        assert(trim_newlines(s) == t);
        let m = (d.len() - t.len()) as nat;
        assert(d =~= t + newlines(m));
        assert(s =~= d.push('\n'));
        assert(newlines(m).push('\n') =~= newlines(m + 1));
        assert(s =~= t + newlines(m + 1));
    }
}

/// Law: a diff keeps every change, in order and with its tag, and only
/// trims its text: each line is its change's text less the line endings
/// at its end (the text is the line followed by some number of `\n`), and
/// no line ends in `\n`. Nothing else of the text, leading spaces
/// included, is dropped.
pub proof fn law_diff_lines_only_lose_line_endings(changes: Seq<(DiffTag, Seq<char>)>, i: int)
    requires
        0 <= i < changes.len(),
    ensures
        diff_lines_of(changes).len() == changes.len(),
        diff_lines_of(changes)[i].0 == changes[i].0,
        exists|n: nat| changes[i].1 == diff_lines_of(changes)[i].1 + #[trigger] newlines(n),
        diff_lines_of(changes)[i].1.len() == 0 || diff_lines_of(changes)[i].1.last() != '\n',
{
    let t = changes[i].1;
    lemma_trim_newlines(t);
    assert(diff_lines_of(changes)[i] == (changes[i].0, trim_newlines(t)));
    let n = (t.len() - trim_newlines(t).len()) as nat;
    assert(t == trim_newlines(t) + newlines(n));
}

/// The line-by-line diff from `old` to `new`.
pub fn diff_text(old: &str, new: &str) -> (r: Vec<DiffLine>)
    ensures
        r@.map_values(|d: DiffLine| (d.tag, d.line@)) == diff_lines_of(line_changes(old@, new@)),
{
    let changes = similar_line_changes(old, new);
    let ghost target = diff_lines_of(line_changes(old@, new@));
    let mut out: Vec<DiffLine> = Vec::new();
    let mut i: usize = 0;
    while i < changes.len()
        invariant
            i <= changes.len(),
            out@.len() == i,
            changes@.map_values(|c: (DiffTag, String)| (c.0, c.1@)) == line_changes(old@, new@),
            target == diff_lines_of(line_changes(old@, new@)),
            out@.map_values(|d: DiffLine| (d.tag, d.line@)) == target.take(i as int),
        decreases changes.len() - i,
    {
        let line = trim_trailing_newlines(changes[i].1.as_str());
        let ghost before = out@;
        let tag = changes[i].0;
        let ghost lv = line@;
        assert(tag == changes@[i as int].0);
        out.push(DiffLine { tag, line });
        assert(changes@.map_values(|c: (DiffTag, String)| (c.0, c.1@))[i as int] == (changes@[i as int].0, changes@[i as int].1@));
        assert(line_changes(old@, new@)[i as int] == (changes@[i as int].0, changes@[i as int].1@));
        assert(target[i as int] == (changes@[i as int].0, trim_newlines(changes@[i as int].1@)));
        assert(out@[i as int].tag == tag && out@[i as int].line@ == lv);
        assert(out@.map_values(|d: DiffLine| (d.tag, d.line@)) =~= before.map_values(|d: DiffLine| (d.tag, d.line@)).push((tag, lv)));
        assert(out@.map_values(|d: DiffLine| (d.tag, d.line@)) =~= target.take(i + 1));
        i = i + 1;
    }
    assert(target.take(i as int) =~= target);
    out
}

} // verus!
