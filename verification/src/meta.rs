//! Frontmatter metadata attached to a template: a well-known `title` plus an
//! open-ended bag of fields (tense, tone, jurisdiction, ...) so the library
//! doesn't need to know the metadata schema in advance. Unrelated to
//! [`crate::tags`]: those are revision pointers, not frontmatter.
use vstd::prelude::*;
use vstd::string::*;
use crate::order::{keys_sorted, lookup, upsert_sorted, position_of};
use crate::text::{views, same_text};
use crate::yaml::{YamlValue, value_strings, value_to_strings};

verus! {

/// A template's metadata. `fields` is kept sorted by key, each key once
/// (see [`TemplateMeta::wf`]): an ordered map from field name to value.
#[derive(Debug, PartialEq)]
pub struct TemplateMeta {
    pub title: Option<String>,
    pub fields: Vec<(String, YamlValue)>,
}

/// The value of field `key` of `meta`, if it has one.
pub open spec fn field_value(meta: TemplateMeta, key: Seq<char>) -> Option<YamlValue> {
    lookup(meta.fields@, key)
}

/// The strings `key` matches against in a query: the title for `"title"`,
/// else the strings of the field's value (see [`value_strings`]), and
/// nothing for an absent field.
pub open spec fn meta_field_strings(meta: TemplateMeta, key: Seq<char>) -> Seq<Seq<char>> {
    if key == "title"@ {
        match meta.title {
            Some(t) => seq![t@],
            None => Seq::empty(),
        }
    } else {
        match field_value(meta, key) {
            Some(v) => value_strings(v),
            None => Seq::empty(),
        }
    }
}

impl TemplateMeta {
    /// The fields are sorted by key, each key once.
    pub open spec fn wf(&self) -> bool {
        keys_sorted(self.fields@)
    }

    /// Metadata with no title and no fields.
    pub fn new() -> (r: Self)
        ensures
            r.wf(),
            r.title is None,
            r.fields@.len() == 0,
    {
        TemplateMeta { title: None, fields: Vec::new() }
    }

    /// Returns the string representation(s) of `key`, for matching against a
    /// query filter. Scalars yield a single string; sequences are flattened.
    pub fn field_strings(&self, key: &str) -> (r: Vec<String>)
        requires
            self.wf(),
        ensures
            views(r@) == meta_field_strings(*self, key@),
    {
        proof {
            reveal_strlit("title");
        }
        if same_text(key, "title") {
            let mut r = Vec::new();
            match &self.title {
                Some(t) => {
                    r.push(t.clone());
                    assert(views(r@) =~= seq![t@]);
                },
                None => {
                    assert(views(r@) =~= Seq::<Seq<char>>::empty());
                },
            }
            return r;
        }
        assert(key@ != "title"@);
        match position_of(&self.fields, key) {
            Some(i) => {
                proof {
                    crate::order::lemma_find_position_some(self.fields@, key@);
                }
                assert(field_value(*self, key@) == Some(self.fields@[i as int].1));
                value_to_strings(&self.fields[i].1)
            },
            None => {
                let r = Vec::new();
                assert(views(r@) =~= Seq::<Seq<char>>::empty());
                r
            },
        }
    }

    /// Sets field `key` to `value`, replacing any value it had.
    pub fn insert_field(&mut self, key: String, value: YamlValue)
        requires
            old(self).wf(),
        ensures
            final(self).wf(),
            final(self).title == old(self).title,
            forall|k: Seq<char>|
                #![trigger field_value(*final(self), k)]
                field_value(*final(self), k) == if k == key@ {
                    Some(value)
                } else {
                    field_value(*old(self), k)
                },
    {
        upsert_sorted(&mut self.fields, key, value);
    }
}

} // verus!
