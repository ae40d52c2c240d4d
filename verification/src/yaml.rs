//! The frontmatter data model: the YAML values a template's metadata holds.
use vstd::prelude::*;
use vstd::string::*;
use crate::text::{views, concat};

verus! {

/// One frontmatter value, as the YAML front matter parser hands it over.
/// A float is kept as the text it is rendered as.
#[derive(Debug, PartialEq)]
pub enum YamlValue {
    Null,
    Bool(bool),
    Int(i64),
    Float(String),
    Str(String),
    List(Vec<YamlValue>),
    Mapping(Vec<(String, YamlValue)>),
}

/// The strings a value matches against in a query: a scalar gives its own
/// text, a sequence the strings of its items in order (flattened), and
/// anything else nothing.
pub open spec fn value_strings(v: YamlValue) -> Seq<Seq<char>>
    decreases v, 0nat,
{
    match v {
        YamlValue::Str(s) => seq![s@],
        YamlValue::Bool(b) => seq![bool_text(b)],
        YamlValue::Int(i) => seq![int_text(i as int)],
        YamlValue::Float(t) => seq![t@],
        YamlValue::List(items) => items_strings(items@),
        _ => Seq::empty(),
    }
}

/// The strings of each of `items`, concatenated in order.
pub open spec fn items_strings(items: Seq<YamlValue>) -> Seq<Seq<char>>
    decreases items, 1nat,
{
    if items.len() == 0 {
        Seq::empty()
    } else {
        items_strings(items.drop_last()) + value_strings(items.last())
    }
}

pub open spec fn bool_text(b: bool) -> Seq<char> {
    if b { "true"@ } else { "false"@ }
}

pub open spec fn digit_char(d: int) -> char {
    if d == 0 { '0' } else if d == 1 { '1' } else if d == 2 { '2' } else if d == 3 { '3' }
    else if d == 4 { '4' } else if d == 5 { '5' } else if d == 6 { '6' } else if d == 7 { '7' }
    else if d == 8 { '8' } else { '9' }
}

/// Decimal digits of a natural number.
pub open spec fn nat_text(n: nat) -> Seq<char>
    decreases n,
{
    if n < 10 {
        seq![digit_char(n as int)]
    } else {
        nat_text((n / 10) as nat).push(digit_char((n % 10) as int))
    }
}

/// Decimal text of an integer, with a leading `-` when negative.
pub open spec fn int_text(i: int) -> Seq<char> {
    if i < 0 { seq!['-'] + nat_text((-i) as nat) } else { nat_text(i as nat) }
}


fn digit_str(d: u64) -> (r: &'static str)
    requires
        d < 10,
    ensures
        r@ == seq![digit_char(d as int)],
{
    proof {
        reveal_strlit("0");
        reveal_strlit("1");
        reveal_strlit("2");
        reveal_strlit("3");
        reveal_strlit("4");
        reveal_strlit("5");
        reveal_strlit("6");
        reveal_strlit("7");
        reveal_strlit("8");
        reveal_strlit("9");
    }
    if d == 0 {
        "0"
    } else if d == 1 {
        "1"
    } else if d == 2 {
        "2"
    } else if d == 3 {
        "3"
    } else if d == 4 {
        "4"
    } else if d == 5 {
        "5"
    } else if d == 6 {
        "6"
    } else if d == 7 {
        "7"
    } else if d == 8 {
        "8"
    } else {
        "9"
    }
}

/// Decimal text of `x`.
pub fn nat_to_text(x: u64) -> (r: String)
    ensures
        r@ == nat_text(x as nat),
{
    if x == 0 {
        proof {
            reveal_strlit("0");
        }
        return String::from_str("0");
    }
    let mut n: u64 = x;
    let mut r = String::new();
    assert(nat_text(x as nat) =~= nat_text(n as nat) + r@);
    loop
        invariant
            n > 0,
            nat_text(x as nat) == nat_text(n as nat) + r@,
        decreases n,
    {
        let d = n % 10;
        let digit = digit_str(d);
        let ghost old_r = r@;
        r = concat(digit, r.as_str());
        if n < 10 {
            assert(nat_text(n as nat) == seq![digit_char(d as int)]);
            assert(nat_text(x as nat) =~= r@);
            return r;
        }
        assert(nat_text(n as nat) == nat_text((n / 10) as nat).push(digit_char(d as int)));
        assert(nat_text(n as nat) + old_r =~= nat_text((n / 10) as nat) + r@);
        n = n / 10;
    }
}

/// Decimal text of `i`, with a leading `-` when negative.
pub fn int_to_text(i: i64) -> (r: String)
    ensures
        r@ == int_text(i as int),
{
    if i < 0 {
        let m: u64 = if i == i64::MIN {
            9223372036854775808u64
        } else {
            (-i) as u64
        };
        let digits = nat_to_text(m);
        proof {
            reveal_strlit("-");
        }
        concat("-", digits.as_str())
    } else {
        nat_to_text(i as u64)
    }
}

/// The strings a value contributes to a query match (see [`value_strings`]).
pub fn value_to_strings(v: &YamlValue) -> (r: Vec<String>)
    ensures
        views(r@) == value_strings(*v),
    decreases v,
{
    match v {
        YamlValue::Str(s) => {
            let mut r = Vec::new();
            r.push(s.clone());
            assert(views(r@) =~= seq![s@]);
            r
        },
        YamlValue::Bool(b) => {
            let mut r = Vec::new();
            proof {
                reveal_strlit("true");
                reveal_strlit("false");
            }
            r.push(if *b { String::from_str("true") } else { String::from_str("false") });
            assert(views(r@) =~= seq![bool_text(*b)]);
            r
        },
        YamlValue::Int(i) => {
            let mut r = Vec::new();
            r.push(int_to_text(*i));
            assert(views(r@) =~= seq![int_text(*i as int)]);
            r
        },
        YamlValue::Float(t) => {
            let mut r = Vec::new();
            r.push(t.clone());
            assert(views(r@) =~= seq![t@]);
            r
        },
        YamlValue::List(items) => {
            let mut r: Vec<String> = Vec::new();
            let mut k: usize = 0;
            assert(items@.take(0) =~= Seq::<YamlValue>::empty());
            while k < items.len()
                invariant
                    *v == YamlValue::List(*items),
                    k <= items.len(),
                    views(r@) == items_strings(items@.take(k as int)),
                decreases items.len() - k,
            {
                proof {
                    assert(decreases_to!(*v => v->List_0));
                    assert(decreases_to!(*items => items@));
                    assert(decreases_to!(items@ => items@[k as int]));
                    assert(decreases_to!(*v => items@[k as int]));
                }
                let part = value_to_strings(&items[k]);
                let ghost before = views(r@);
                let mut j: usize = 0;
                while j < part.len()
                    invariant
                        j <= part.len(),
                        views(r@) == before + views(part@).take(j as int),
                    decreases part.len() - j,
                {
                    let ghost old_r = r@;
                    r.push(part[j].clone());
                    assert(views(r@) =~= views(old_r).push(part@[j as int]@));
                    assert(views(part@).take(j + 1) =~= views(part@).take(j as int).push(part@[j as int]@));
                    assert(views(r@) =~= before + views(part@).take(j + 1));
                    j = j + 1;
                }
                assert(views(part@).take(j as int) =~= views(part@));
                assert(items@.take(k + 1).drop_last() =~= items@.take(k as int));
                assert(items@.take(k + 1).last() == items@[k as int]);
                k = k + 1;
            }
            assert(items@.take(k as int) =~= items@);
            r
        },
        _ => {
            let r = Vec::new();
            assert(views(r@) =~= Seq::<Seq<char>>::empty());
            r
        },
    }
}

} // verus!
