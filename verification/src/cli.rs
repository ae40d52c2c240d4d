//! Argument helpers shared by the command-line front end.
use vstd::prelude::*;
use vstd::string::*;
use crate::text::{split_once, find_char, char_count, substring, concat};
use crate::meta::{TemplateMeta, field_value};
use crate::template::last_value;
use crate::yaml::YamlValue;

verus! {

/// The parsed command line: global flags and the subcommand to run.
#[derive(Debug)]
pub struct Cli {
    /// Emit structured JSON instead of human-readable output.
    pub json: bool,
    /// Path to the template library.
    pub store: String,
    pub command: Command,
}

/// The subcommands.
#[derive(Debug)]
pub enum Command {
    /// Initialize a new template library.
    Init,
    /// Add or update a template, committing the change.
    Add {
        /// Relative path/id under the templates directory, e.g. `letters/thank-you.md`.
        name: String,
        /// Read the template body from this file instead of stdin.
        file: Option<String>,
        /// Frontmatter title.
        title: Option<String>,
        /// Frontmatter fields as `key=value`. Values are stored as strings.
        fields: Vec<String>,
        /// Commit message.
        message: String,
    },
    /// Render a template with variables substituted.
    Get {
        name: String,
        /// Template variables as `key=value`.
        vars: Vec<String>,
        /// Print the raw (unrendered) body instead of rendering it.
        raw: bool,
    },
    /// List all templates.
    List,
    /// Search templates by frontmatter field (AND of all `--field` filters).
    Search { fields: Vec<String> },
    /// Show the commit history for a template.
    Log { name: String },
    /// Show a diff of a template's content between two revisions.
    Diff { name: String, from: String, to: String },
}

/// What one `key=value` argument splits into: the text before the first `=`
/// and the text after it, or nothing when there is no `=`.
pub open spec fn kv_pair(arg: Seq<char>) -> Option<(Seq<char>, Seq<char>)> {
    split_once(arg, '=')
}

/// The message reported for an argument that has no `=`.
pub open spec fn kv_error(arg: Seq<char>) -> Seq<char> {
    "expected `key=value`, got `"@ + arg + "`"@
}

/// Parses a repeated `key=value` CLI argument.
///
/// Every argument is split at its first `=`; the first argument (in order)
/// that has no `=` makes the whole call fail with a message naming it.
pub fn parse_kv_pairs(pairs: &[String]) -> (r: Result<Vec<(String, String)>, String>)
    ensures
        match r {
            Ok(v) => {
                &&& v.len() == pairs.len()
                &&& forall|i: int|
                    0 <= i < pairs.len() ==> kv_pair(#[trigger] pairs@[i]@) == Some(
                        (v@[i].0@, v@[i].1@),
                    )
            },
            Err(e) => exists|j: int|
                {
                    &&& 0 <= j < pairs.len()
                    &&& kv_pair(#[trigger] pairs@[j]@) is None
                    &&& forall|k: int| 0 <= k < j ==> kv_pair(#[trigger] pairs@[k]@) is Some
                    &&& e@ == kv_error(pairs@[j]@)
                },
        },
{
    let mut out: Vec<(String, String)> = Vec::new();
    let mut i: usize = 0;
    while i < pairs.len()
        invariant
            i <= pairs.len(),
            out.len() == i,
            forall|k: int|
                0 <= k < i ==> kv_pair(#[trigger] pairs@[k]@) == Some((out@[k].0@, out@[k].1@)),
        decreases pairs.len() - i,
    {
        let pair: &str = pairs[i].as_str();
        match find_char(pair, '=') {
            Some(at) => {
                let n = char_count(pair);
                let k = substring(pair, 0, at);
                let v = substring(pair, at + 1, n);
                assert(k@ == pair@.take(at as int));
                assert(v@ == pair@.skip(at + 1));
                out.push((k, v));
            },
            None => {
                let head = concat("expected `key=value`, got `", pair);
                let msg = concat(head.as_str(), "`");
                assert(kv_pair(pairs@[i as int]@) is None);
                return Err(msg);
            },
        }
        i = i + 1;
    }
    Ok(out)
}


/// The metadata `add` records for a template: the frontmatter the input
/// already carries, with `title` replacing its title when given and each
/// `(key, value)` of `fields` setting that field to the text `value`, a
/// later pair for the same key winning.
pub fn merge_cli_metadata(meta: TemplateMeta, title: Option<String>, fields: Vec<(String, String)>) -> (r: TemplateMeta)
    requires
        meta.wf(),
    ensures
        r.wf(),
        r.title == (match title {
            Some(t) => Some(t),
            None => meta.title,
        }),
        forall|k: Seq<char>|
            #![trigger field_value(r, k)]
            field_value(r, k) == match last_value(fields@, k) {
                Some(v) => Some(YamlValue::Str(v)),
                None => field_value(meta, k),
            },
{
    let ghost given = meta;
    let ghost all = fields@;
    let mut meta = meta;
    if title.is_some() {
        meta.title = title;
    }
    let ghost titled = meta;
    let mut rest = fields;
    let ghost mut done: int = 0;
    assert(all.take(0) =~= Seq::<(String, String)>::empty());
    while rest.len() > 0
        invariant
            0 <= done <= all.len(),
            rest@ == all.skip(done),
            meta.wf(),
            meta.title == titled.title,
            forall|k: Seq<char>|
                #![trigger field_value(meta, k)]
                field_value(meta, k) == match last_value(all.take(done), k) {
                    Some(v) => Some(YamlValue::Str(v)),
                    None => field_value(given, k),
                },
        decreases rest.len(),
    {
        let (k, v) = rest.remove(0);
        let ghost kv = k@;
        let ghost vv = v;
        let ghost before = meta;
        assert(all.take(done + 1) =~= all.take(done).push((k, v)));
        assert(all.take(done + 1).drop_last() =~= all.take(done));
        meta.insert_field(k, YamlValue::Str(v));
        assert forall|key: Seq<char>|
            #![trigger field_value(meta, key)]
            field_value(meta, key) == match last_value(all.take(done + 1), key) {
                Some(val) => Some(YamlValue::Str(val)),
                None => field_value(given, key),
            } by {
            assert(field_value(meta, key) == if key == kv { Some(YamlValue::Str(vv)) } else { field_value(before, key) });
        }
        proof {
            done = done + 1;
        }
    }
    assert(all.take(done) =~= all);
    meta
}

} // verus!
