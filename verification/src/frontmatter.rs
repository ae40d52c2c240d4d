//! YAML frontmatter (`---\n...\n---`) on top of a template: parsing it off
//! the text into [`TemplateMeta`] plus the body, and writing it back.
use vstd::prelude::*;
use vstd::string::*;
use crate::error::Error;
use crate::meta::{TemplateMeta, field_value};
use crate::order::{keys_distinct, lookup, lemma_lookup_push};
use crate::text::{has_prefix, same_text, concat};
use crate::yaml::YamlValue;
use gray_matter::Pod;
use serde_yaml::Value as Yaml;
use serde_yaml::Error as YamlError;
use serde::ser::{SerializeMap, Serializer};

verus! {

#[verifier::external_type_specification]
#[verifier::external_body]
pub struct ExPod(Pod);

#[verifier::external_type_specification]
#[verifier::external_body]
pub struct ExYaml(Yaml);

#[verifier::external_type_specification]
#[verifier::external_body]
pub struct ExYamlError(YamlError);

/// What gray_matter's YAML `Matter::parse` makes of a text: the front
/// matter value (none when there is no front matter block, or it is empty
/// or null; each mapping's entries in key order) and the body that follows
/// it, or the error message when the front matter is not valid YAML.
pub uninterp spec fn front_matter(input: Seq<char>) -> Result<(Option<YamlValue>, Seq<char>), Seq<char>>;

/// What serde_yaml's serializer writes for a map of unknown length fed the
/// entries `entries` (key, value) one by one, in order and a repeated key
/// included, or its error message.
pub uninterp spec fn yaml_mapping(entries: Seq<(Seq<char>, YamlValue)>) -> Result<Seq<char>, Seq<char>>;

/// gray_matter's `Pod` moved into the library's value type, variant by
/// variant: a float becomes serde_yaml's rendering of that number, and a
/// mapping's `HashMap` is moved into a `BTreeMap`, so that its entries come
/// in key order rather than in the order of a per-process hash seed.
#[verifier::external_body]
fn value_from_pod(p: Pod) -> YamlValue {
    match p {
        Pod::Null => YamlValue::Null,
        Pod::String(s) => YamlValue::Str(s),
        Pod::Integer(i) => YamlValue::Int(i),
        Pod::Float(f) => YamlValue::Float(serde_yaml::Number::from(f).to_string()),
        Pod::Boolean(b) => YamlValue::Bool(b),
        Pod::Array(items) => YamlValue::List(items.into_iter().map(value_from_pod).collect()),
        Pod::Hash(map) => YamlValue::Mapping(
            map.into_iter().collect::<std::collections::BTreeMap<String, Pod>>().into_iter().map(|(k, v)| (k, value_from_pod(v))).collect(),
        ),
    }
}

/// `gray_matter::Matter::<YAML>::parse::<Pod>`: splits `input` into its
/// front matter value and body (see [`front_matter`]). Beyond the name, the
/// contract states two facts the crate's source shows: a text that does not
/// begin with `---` has no front matter block and always parses; and a
/// mapping comes from a `HashMap<String, Pod>`, so its keys are distinct.
#[verifier::external_body]
fn split_front_matter(input: &str) -> (r: Result<(Option<YamlValue>, String), String>)
    ensures
        match r {
            Ok((data, body)) => front_matter(input@) == Ok::<_, Seq<char>>((data, body@)),
            Err(e) => front_matter(input@) == Err::<(Option<YamlValue>, Seq<char>), _>(e@),
        },
        !has_prefix(input@, "---"@) ==> r matches Ok((None, _)),
        r matches Ok((Some(YamlValue::Mapping(entries)), _)) ==> keys_distinct(entries@),
{
    let matter = gray_matter::Matter::<gray_matter::engine::YAML>::new();
    match matter.parse::<Pod>(input) {
        Ok(parsed) => Ok((parsed.data.map(value_from_pod), parsed.content)),
        Err(e) => Err(e.to_string()),
    }
}

/// The library's value moved into a `serde_yaml::Value`, variant by
/// variant; a float's text is read back with `serde_yaml::Number::from_str`.
#[verifier::external_body]
fn yaml_from_value(v: &YamlValue) -> Result<Yaml, YamlError> {
    Ok(match v {
        YamlValue::Null => Yaml::Null,
        YamlValue::Bool(b) => Yaml::Bool(*b),
        YamlValue::Int(i) => Yaml::Number((*i).into()),
        YamlValue::Float(t) => Yaml::Number(t.parse()?),
        YamlValue::Str(s) => Yaml::String(s.clone()),
        YamlValue::List(items) => Yaml::Sequence(items.iter().map(yaml_from_value).collect::<Result<_, _>>()?),
        YamlValue::Mapping(entries) => Yaml::Mapping(entries.iter().map(|(k, v)| Ok((k.clone().into(), yaml_from_value(v)?))).collect::<Result<_, YamlError>>()?),
    })
}

/// serde_yaml's `Serializer`: `serialize_map(None)`, one `serialize_entry`
/// for each entry of `head` and then of `tail` (each value moved into a
/// `serde_yaml::Value`), `end`, and the text written (see [`yaml_mapping`]).
#[verifier::external_body]
fn render_mapping(head: &Vec<(String, YamlValue)>, tail: &Vec<(String, YamlValue)>) -> (r: Result<String, String>)
    ensures
        match r {
            Ok(text) => yaml_mapping(field_chars(head@) + field_chars(tail@)) == Ok::<_, Seq<char>>(text@),
            Err(e) => yaml_mapping(field_chars(head@) + field_chars(tail@)) == Err::<Seq<char>, _>(e@),
        },
{
    let pairs = head.iter().chain(tail).map(|(k, v)| Ok((k, yaml_from_value(v)?)))
        .collect::<Result<Vec<_>, YamlError>>().map_err(|e| e.to_string())?;
    let mut ser = serde_yaml::Serializer::new(Vec::new());
    let mut map = (&mut ser).serialize_map(None).map_err(|e| e.to_string())?;
    for (k, v) in &pairs {
        map.serialize_entry(k, v).map_err(|e| e.to_string())?;
    }
    map.end().map_err(|e| e.to_string())?;
    String::from_utf8(ser.into_inner().map_err(|e| e.to_string())?).map_err(|e| e.to_string())
}

pub open spec fn field_chars(f: Seq<(String, YamlValue)>) -> Seq<(Seq<char>, YamlValue)> {
    f.map_values(|p: (String, YamlValue)| (p.0@, p.1))
}

/// A template split into its metadata and its body.
pub struct Parsed {
    pub meta: TemplateMeta,
    pub body: String,
}

/// gray_matter's message when front matter that is not a mapping is read
/// as metadata.
pub open spec fn not_a_mapping() -> Seq<char> {
    "Type error, expected: hash map"@
}

/// gray_matter's message when a `title` that is neither text nor null is
/// read as the title.
pub open spec fn title_not_text() -> Seq<char> {
    "Type error, expected: string"@
}

/// The title a front matter mapping gives: its `title` entry when that is
/// text, none when absent or null, and an error for any other value.
pub open spec fn title_of(entries: Seq<(String, YamlValue)>) -> Result<Option<String>, ()> {
    match lookup(entries, "title"@) {
        None => Ok(None),
        Some(YamlValue::Null) => Ok(None),
        Some(YamlValue::Str(s)) => Ok(Some(s)),
        Some(_) => Err(()),
    }
}

/// `p` holds the metadata a front matter mapping with `entries` describes,
/// and `body` as its body.
pub open spec fn parsed_from(p: Parsed, title: Option<String>, entries: Seq<(String, YamlValue)>, body: Seq<char>) -> bool {
    &&& p.meta.wf()
    &&& p.meta.title == title
    &&& p.body@ == body
    &&& field_value(p.meta, "title"@) is None
    &&& forall|k: Seq<char>| k != "title"@ ==> #[trigger] field_value(p.meta, k) == lookup(entries, k)
}

/// `r` is what parsing `input` gives: the front matter error; default
/// metadata when there is no (or an empty) front matter block; for a
/// mapping, its `title` (which must be text or null) and every other entry
/// as a field; and an error for any other front matter value.
pub open spec fn parse_spec(input: Seq<char>, r: Result<Parsed, Error>) -> bool {
    match front_matter(input) {
        Err(msg) => r matches Err(Error::Frontmatter(m)) && m@ == msg,
        Ok((data, body)) => match data {
            None => r matches Ok(p) && p.meta.wf() && p.meta.title is None && p.meta.fields@.len() == 0 && p.body@ == body,
            Some(YamlValue::Null) => r matches Ok(p) && p.meta.wf() && p.meta.title is None && p.meta.fields@.len() == 0 && p.body@ == body,
            Some(YamlValue::Mapping(entries)) => match title_of(entries@) {
                Ok(title) => r matches Ok(p) && parsed_from(p, title, entries@, body),
                Err(_) => r matches Err(Error::Frontmatter(m)) && m@ == title_not_text(),
            },
            Some(_) => r matches Err(Error::Frontmatter(m)) && m@ == not_a_mapping(),
        },
    }
}

/// Parses YAML frontmatter (`---\n...\n---`) off the top of `input`,
/// returning the metadata and the remaining body. Files with no frontmatter
/// parse fine and yield default (empty) metadata.
pub fn parse(input: &str) -> (r: Result<Parsed, Error>)
    ensures
        parse_spec(input@, r),
        !has_prefix(input@, "---"@) ==> (r matches Ok(p) && p.meta.title is None && p.meta.fields@.len() == 0),
{
    let (data, body) = match split_front_matter(input) {
        Ok(parts) => parts,
        Err(e) => return Err(Error::Frontmatter(e)),
    };
    match data {
        None => Ok(Parsed { meta: TemplateMeta::new(), body }),
        Some(YamlValue::Null) => Ok(Parsed { meta: TemplateMeta::new(), body }),
        Some(YamlValue::Mapping(entries)) => {
            let ghost all = entries@;
            assert(has_prefix(input@, "---"@));
            let mut rest = entries;
            let mut meta = TemplateMeta::new();
            let mut i: usize = 0;
            let n = rest.len();
            proof {
                reveal_strlit("title");
            }
            assert(all.take(0) =~= Seq::<(String, YamlValue)>::empty());
            while rest.len() > 0
                invariant
                    has_prefix(input@, "---"@),
                    front_matter(input@) matches Ok((Some(YamlValue::Mapping(es)), _)) && es@ == all,
                    keys_distinct(all),
                    n == all.len(),
                    i + rest.len() == n,
                    rest@ == all.skip(i as int),
                    meta.wf(),
                    field_value(meta, "title"@) is None,
                    forall|k: Seq<char>| k != "title"@ ==> #[trigger] field_value(meta, k) == lookup(all.take(i as int), k),
                    match title_of(all.take(i as int)) {
                        Ok(t) => meta.title == t,
                        Err(_) => false,
                    },
                decreases rest.len(),
            {
                let (key, value) = rest.remove(0);
                let ghost pair = all[i as int];
                assert(pair == (key, value));
                assert(all.take(i + 1) =~= all.take(i as int).push(pair));
                assert(keys_distinct(all.take(i + 1))) by {
                    assert forall|a: int, b: int|
                        #![trigger all.take(i + 1)[a], all.take(i + 1)[b]]
                        0 <= a < i + 1 && 0 <= b < i + 1 && a != b implies all.take(i + 1)[a].0@ != all.take(i + 1)[b].0@ by {
                        assert(all.take(i + 1)[a] == all[a] && all.take(i + 1)[b] == all[b]);
                        assert(all[a].0@ != all[b].0@);
                    }
                }
                proof {
                    assert forall|k: Seq<char>| #[trigger] lookup(all.take(i + 1), k) == if k == key@ { Some(value) } else { lookup(all.take(i as int), k) } by {
                        lemma_lookup_push(all.take(i as int), pair, k);
                    }
                }
                if same_text(key.as_str(), "title") {
                    let ghost v0 = value;
                    let ghost before_title = meta;
                    assert(lookup(all.take(i + 1), "title"@) == Some(v0));
                    match value {
                        YamlValue::Str(s) => {
                            meta.title = Some(s);
                        },
                        YamlValue::Null => {
                            meta.title = None;
                        },
                        _ => {
                            proof {
                                lemma_lookup_sticks(all, i as int + 1, "title"@);
                                assert(lookup(all, "title"@) == Some(v0));
                                assert(title_of(all) is Err);
                            }
                            return Err(Error::Frontmatter(String::from_str("Type error, expected: string")));
                        },
                    }
                    assert forall|k: Seq<char>| k != "title"@ implies #[trigger] field_value(meta, k) == lookup(all.take(i + 1), k) by {
                        assert(lookup(all.take(i + 1), k) == lookup(all.take(i as int), k));
                        assert(meta.fields == before_title.fields);
                        assert(field_value(before_title, k) == lookup(all.take(i as int), k));
                    }
                } else {
                    let ghost before = meta;
                    meta.insert_field(key, value);
                    assert(field_value(meta, "title"@) is None) by {
                        assert(field_value(meta, "title"@) == field_value(before, "title"@));
                    }
                    assert forall|k: Seq<char>| k != "title"@ implies #[trigger] field_value(meta, k) == lookup(all.take(i + 1), k) by {
                        assert(field_value(meta, k) == if k == key@ { Some(value) } else { field_value(before, k) });
                    }
                }
                i = i + 1;
            }
            assert(all.take(i as int) =~= all);
            Ok(Parsed { meta, body })
        },
        Some(_) => Err(Error::Frontmatter(String::from_str("Type error, expected: hash map"))),
    }
}

/// Once a key's value is known in a prefix of a list with distinct keys, the
/// whole list gives it the same value.
proof fn lemma_lookup_sticks(all: Seq<(String, YamlValue)>, m: int, k: Seq<char>)
    requires
        keys_distinct(all),
        0 <= m <= all.len(),
        lookup(all.take(m), k) is Some,
    ensures
        lookup(all, k) == lookup(all.take(m), k),
    decreases all.len() - m,
{
    if m < all.len() {
        assert(all.take(m + 1) =~= all.take(m).push(all[m]));
        assert(keys_distinct(all.take(m + 1))) by {
            assert forall|a: int, b: int|
                #![trigger all.take(m + 1)[a], all.take(m + 1)[b]]
                0 <= a < m + 1 && 0 <= b < m + 1 && a != b implies all.take(m + 1)[a].0@ != all.take(m + 1)[b].0@ by {
                assert(all.take(m + 1)[a] == all[a] && all.take(m + 1)[b] == all[b]);
            }
        }
        lemma_lookup_push(all.take(m), all[m], k);
        if k == all[m].0@ {
            crate::order::lemma_find_position_some(all.take(m), k);
            let j = crate::order::find_position(all.take(m), k).unwrap();
            assert(all[j].0@ == all[m].0@);
        }
        lemma_lookup_sticks(all, m + 1, k);
    } else {
        assert(all.take(m) =~= all);
    }
}

/// The text `write` produces for `meta` and `body`: the YAML document
/// between `---` lines, a blank line, then the body.
pub open spec fn framed(yaml: Seq<char>, body: Seq<char>) -> Seq<char> {
    "---\n"@ + yaml + "---\n\n"@ + body
}

/// The entries of the YAML document `write` puts above the body: the title
/// (when set) under the key `title`, then the fields in order; a field
/// named `title` is written as an entry of its own after it.
pub open spec fn document_entries(meta: TemplateMeta) -> Seq<(Seq<char>, YamlValue)> {
    match meta.title {
        Some(t) => seq![("title"@, YamlValue::Str(t))] + field_chars(meta.fields@),
        None => field_chars(meta.fields@),
    }
}

/// Serializes `meta` back into a YAML frontmatter block prepended to `body`.
pub fn write(meta: &TemplateMeta, body: &str) -> (r: Result<String, Error>)
    ensures
        match yaml_mapping(document_entries(*meta)) {
            Ok(yaml) => r matches Ok(text) && text@ == framed(yaml, body@),
            Err(msg) => r matches Err(Error::FrontmatterWrite(m)) && m@ == msg,
        },
{
    let mut head: Vec<(String, YamlValue)> = Vec::new();
    if let Some(t) = &meta.title {
        head.push((String::from_str("title"), YamlValue::Str(t.clone())));
    }
    proof {
        reveal_strlit("title");
        assert(field_chars(head@) + field_chars(meta.fields@) =~= document_entries(*meta));
    }
    match render_mapping(&head, &meta.fields) {
        Ok(yaml) => {
            let mut text = concat("---\n", yaml.as_str());
            text.append("---\n\n");
            text.append(body);
            Ok(text)
        },
        Err(e) => Err(Error::FrontmatterWrite(e)),
    }
}

} // verus!
