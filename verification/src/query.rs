//! A simple AND-of-equality filter over frontmatter fields, e.g.
//! `Query::new().with("tense", "present").with("formality", "high")`.
//! Deliberately not a query language: the metadata is small and in-memory,
//! so a predicate list is all that's needed.
use vstd::prelude::*;
use vstd::string::*;
use crate::meta::{TemplateMeta, meta_field_strings, field_value};
use crate::yaml::{YamlValue, items_strings, value_strings};
use crate::text::{views, contains_text};

verus! {

#[derive(Debug, Clone, Default)]
pub struct Query {
    filters: Vec<(String, String)>,
}

/// `meta` passes the filter `key = value`: one of the strings of `key` is `value`.
pub open spec fn passes(meta: TemplateMeta, key: Seq<char>, value: Seq<char>) -> bool {
    meta_field_strings(meta, key).contains(value)
}

impl Query {
    /// The filters, in the order they were added.
    pub closed spec fn filters(&self) -> Seq<(Seq<char>, Seq<char>)> {
        self.filters@.map_values(|p: (String, String)| (p.0@, p.1@))
    }

    /// `meta` passes every filter of this query.
    pub open spec fn accepts(&self, meta: TemplateMeta) -> bool {
        forall|i: int|
            0 <= i < self.filters().len() ==> passes(
                meta,
                #[trigger] self.filters()[i].0,
                self.filters()[i].1,
            )
    }

    /// A query with no filters.
    pub fn new() -> (r: Self)
        ensures
            r.filters().len() == 0,
    {
        let r = Query { filters: Vec::new() };
        assert(r.filters() =~= Seq::<(Seq<char>, Seq<char>)>::empty());
        r
    }

    /// This query with one more filter, `key = value`.
    pub fn with(self, key: &str, value: &str) -> (r: Self)
        ensures
            r.filters() == self.filters().push((key@, value@)),
    {
        let mut filters = self.filters;
        let ghost before = filters@;
        filters.push((String::from_str(key), String::from_str(value)));
        let r = Query { filters };
        assert(r.filters() =~= before.map_values(|p: (String, String)| (p.0@, p.1@)).push(
            (key@, value@),
        ));
        r
    }

    /// Whether the query has no filters.
    pub fn is_empty(&self) -> (r: bool)
        ensures
            r == (self.filters().len() == 0),
    {
        self.filters.len() == 0
    }

    /// Whether `meta` passes every filter.
    pub fn matches(&self, meta: &TemplateMeta) -> (r: bool)
        requires
            meta.wf(),
        ensures
            r == self.accepts(*meta),
    {
        let mut i: usize = 0;
        while i < self.filters.len()
            invariant
                meta.wf(),
                i <= self.filters@.len(),
                forall|j: int|
                    0 <= j < i ==> passes(
                        *meta,
                        #[trigger] self.filters()[j].0,
                        self.filters()[j].1,
                    ),
            decreases self.filters.len() - i,
        {
            let key = self.filters[i].0.as_str();
            let value = self.filters[i].1.as_str();
            let strings = meta.field_strings(key);
            let found = contains_text(&strings, value);
            assert(self.filters()[i as int] == (key@, value@));
            if !found {
                assert(!passes(*meta, self.filters()[i as int].0, self.filters()[i as int].1));
                return false;
            }
            assert(views(strings@).contains(value@));
            i = i + 1;
        }
        true
    }
}

/// An empty query matches every template's metadata.
pub proof fn law_empty_query_matches_everything(q: Query, meta: TemplateMeta)
    requires
        q.filters().len() == 0,
    ensures
        q.accepts(meta),
{
}

/// Filters combine by AND: a query with one more filter `key = value`
/// accepts exactly the metadata that the shorter query accepts and that
/// passes the new filter.
pub proof fn law_filters_combine_by_and(q: Query, r: Query, key: Seq<char>, value: Seq<char>, meta: TemplateMeta)
    requires
        r.filters() == q.filters().push((key, value)),
    ensures
        r.accepts(meta) == (q.accepts(meta) && passes(meta, key, value)),
{
    let n = q.filters().len();
    assert(r.filters()[n as int] == (key, value));
    if r.accepts(meta) {
        assert(passes(meta, r.filters()[n as int].0, r.filters()[n as int].1));
        assert forall|i: int| 0 <= i < n implies passes(meta, #[trigger] q.filters()[i].0, q.filters()[i].1) by {
            assert(r.filters()[i] == q.filters()[i]);
            assert(passes(meta, r.filters()[i].0, r.filters()[i].1));
        }
    }
    if q.accepts(meta) && passes(meta, key, value) {
        assert forall|i: int| 0 <= i < r.filters().len() implies passes(meta, #[trigger] r.filters()[i].0, r.filters()[i].1) by {
            if i < n {
                assert(r.filters()[i] == q.filters()[i]);
                assert(passes(meta, q.filters()[i].0, q.filters()[i].1));
            }
        }
    }
}

/// Every text item of `items` is among the strings of the list.
proof fn lemma_list_item_strings(items: Seq<YamlValue>, j: int, value: Seq<char>)
    requires
        0 <= j < items.len(),
        items[j] matches YamlValue::Str(t) && t@ == value,
    ensures
        items_strings(items).contains(value),
    decreases items.len(),
{
    let front = items.drop_last();
    if j == items.len() - 1 {
        assert(value_strings(items.last()) =~= seq![value]);
        let all = items_strings(items);
        assert(all == items_strings(front) + seq![value]);
        assert(all[all.len() - 1] == value);
    } else {
        assert(front[j] == items[j]);
        lemma_list_item_strings(front, j, value);
        let k = choose|k: int| 0 <= k < items_strings(front).len() && items_strings(front)[k] == value;
        let all = items_strings(items);
        assert(all == items_strings(front) + value_strings(items.last()));
        assert(all[k] == value);
    }
}

/// Law: a filter `key = value` matches a template whose field `key` is a
/// list holding the text `value` at any position, not only the last; a
/// query made of that filter alone accepts it.
pub proof fn law_a_filter_matches_any_list_item(meta: TemplateMeta, key: Seq<char>, items: Vec<YamlValue>, j: int, value: Seq<char>)
    requires
        key != "title"@,
        field_value(meta, key) == Some(YamlValue::List(items)),
        0 <= j < items@.len(),
        items@[j] matches YamlValue::Str(t) && t@ == value,
    ensures
        passes(meta, key, value),
        forall|q: Query| q.filters() =~= seq![(key, value)] ==> #[trigger] q.accepts(meta),
{
    lemma_list_item_strings(items@, j, value);
    assert(meta_field_strings(meta, key) == items_strings(items@));
    assert forall|q: Query| q.filters() =~= seq![(key, value)] implies #[trigger] q.accepts(meta) by {
        assert(q.filters()[0] == (key, value));
    }
}

/// Law: a filter `key = value` matches a template whose field `key` is the
/// text `value` itself.
pub proof fn law_a_filter_matches_a_text_field(meta: TemplateMeta, key: Seq<char>, t: String)
    requires
        key != "title"@,
        field_value(meta, key) == Some(YamlValue::Str(t)),
    ensures
        passes(meta, key, t@),
{
    assert(meta_field_strings(meta, key) == seq![t@]);
    assert(meta_field_strings(meta, key)[0] == t@);
}

} // verus!
