//! Rendering a template body with minijinja.
use vstd::prelude::*;
use vstd::string::*;
use crate::error::Error;
use crate::order::{keys_sorted, lookup, upsert_sorted};

verus! {

/// What minijinja's default `Environment::render_str` makes of `body` with
/// the variables of `context` (name, value), or its error message.
pub uninterp spec fn rendered(body: Seq<char>, context: Seq<(Seq<char>, Seq<char>)>) -> Result<Seq<char>, Seq<char>>;

/// The variables of a context, as character sequences.
pub open spec fn context_chars(c: Seq<(String, String)>) -> Seq<(Seq<char>, Seq<char>)> {
    c.map_values(|p: (String, String)| (p.0@, p.1@))
}

/// `minijinja::Environment::new().render_str(body, context)`, the context
/// being the map of `context`'s (name, value) pairs (see [`rendered`]).
#[verifier::external_body]
fn render_with_minijinja(body: &str, context: &Vec<(String, String)>) -> (r: Result<String, String>)
    requires
        keys_sorted(context@),
    ensures
        match r {
            Ok(text) => rendered(body@, context_chars(context@)) == Ok::<_, Seq<char>>(text@),
            Err(e) => rendered(body@, context_chars(context@)) == Err::<Seq<char>, _>(e@),
        },
{
    let map: std::collections::BTreeMap<String, String> = context.iter().cloned().collect();
    minijinja::Environment::new().render_str(body, minijinja::Value::from(map)).map_err(|e| e.to_string())
}

/// Builds a render context from `name=value` pairs: one variable per name,
/// a later pair overriding an earlier one with the same name.
pub fn context_from_pairs(pairs: Vec<(String, String)>) -> (r: Vec<(String, String)>)
    ensures
        keys_sorted(r@),
        forall|k: Seq<char>|
            #![trigger lookup(r@, k)]
            lookup(r@, k) == last_value(pairs@, k),
{
    let ghost all = pairs@;
    let mut rest = pairs;
    let mut out: Vec<(String, String)> = Vec::new();
    let ghost mut done: int = 0;
    assert(all.take(0) =~= Seq::<(String, String)>::empty());
    while rest.len() > 0
        invariant
            0 <= done <= all.len(),
            rest@ == all.skip(done),
            keys_sorted(out@),
            forall|k: Seq<char>| #![trigger lookup(out@, k)] lookup(out@, k) == last_value(all.take(done), k),
        decreases rest.len(),
    {
        let (k, v) = rest.remove(0);
        let ghost kv = k@;
        let ghost val = v;
        assert(all.take(done + 1) =~= all.take(done).push((k, v)));
        upsert_sorted(&mut out, k, v);
        assert forall|key: Seq<char>| #![trigger lookup(out@, key)] lookup(out@, key) == last_value(all.take(done + 1), key) by {
            assert(all.take(done + 1).drop_last() =~= all.take(done));
        }
        proof {
            done = done + 1;
        }
    }
    assert(all.take(done) =~= all);
    out
}

/// The value of the last pair named `k` in `pairs`, if any.
pub open spec fn last_value(pairs: Seq<(String, String)>, k: Seq<char>) -> Option<String>
    decreases pairs.len(),
{
    if pairs.len() == 0 {
        None
    } else if pairs.last().0@ == k {
        Some(pairs.last().1)
    } else {
        last_value(pairs.drop_last(), k)
    }
}

/// Renders `body` as a minijinja template against `context` (see
/// [`context_from_pairs`] for building one).
pub fn render(body: &str, context: &Vec<(String, String)>) -> (r: Result<String, Error>)
    requires
        keys_sorted(context@),
    ensures
        match rendered(body@, context_chars(context@)) {
            Ok(text) => r matches Ok(t) && t@ == text,
            Err(msg) => r matches Err(Error::Render(m)) && m@ == msg,
        },
{
    match render_with_minijinja(body, context) {
        Ok(text) => Ok(text),
        Err(e) => Err(Error::Render(e)),
    }
}

} // verus!
