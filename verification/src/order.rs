//! The order `String`'s `Ord` uses (code-point lexicographic, the same as
//! byte order of the UTF-8 encoding), and vectors of pairs kept sorted by
//! their string key: the representation of the ordered maps and sets the
//! library keeps.
use vstd::prelude::*;
use vstd::string::*;

verus! {

/// `a` sorts strictly before `b`.
pub open spec fn seq_lt(a: Seq<char>, b: Seq<char>) -> bool
    decreases a.len(),
{
    if a.len() == 0 {
        b.len() > 0
    } else if b.len() == 0 {
        false
    } else if a[0] != b[0] {
        (a[0] as int) < (b[0] as int)
    } else {
        seq_lt(a.drop_first(), b.drop_first())
    }
}

pub proof fn lemma_lt_irreflexive(a: Seq<char>)
    ensures
        !seq_lt(a, a),
    decreases a.len(),
{
    if a.len() > 0 {
        lemma_lt_irreflexive(a.drop_first());
    }
}

pub proof fn lemma_lt_asymmetric(a: Seq<char>, b: Seq<char>)
    ensures
        !(seq_lt(a, b) && seq_lt(b, a)),
    decreases a.len(),
{
    if a.len() > 0 && b.len() > 0 && a[0] == b[0] {
        lemma_lt_asymmetric(a.drop_first(), b.drop_first());
    }
}

pub proof fn lemma_lt_total(a: Seq<char>, b: Seq<char>)
    ensures
        a != b ==> seq_lt(a, b) || seq_lt(b, a),
    decreases a.len(),
{
    if a.len() > 0 && b.len() > 0 && a[0] == b[0] {
        lemma_lt_total(a.drop_first(), b.drop_first());
        if a.drop_first() == b.drop_first() {
            assert(a =~= seq![a[0]] + a.drop_first());
            assert(b =~= seq![b[0]] + b.drop_first());
        }
    } else if a.len() == 0 && b.len() == 0 {
        assert(a =~= b);
    }
}

pub proof fn lemma_lt_transitive(a: Seq<char>, b: Seq<char>, c: Seq<char>)
    requires
        seq_lt(a, b),
        seq_lt(b, c),
    ensures
        seq_lt(a, c),
    decreases a.len(),
{
    if a.len() > 0 && b.len() > 0 && c.len() > 0 && a[0] == b[0] && b[0] == c[0] {
        lemma_lt_transitive(a.drop_first(), b.drop_first(), c.drop_first());
    }
}

/// Whether `a` sorts strictly before `b`.
pub fn str_lt(a: &str, b: &str) -> (r: bool)
    ensures
        r == seq_lt(a@, b@),
{
    let n = a.unicode_len();
    let m = b.unicode_len();
    let mut k: usize = 0;
    assert(a@.skip(0) =~= a@);
    assert(b@.skip(0) =~= b@);
    while k < n && k < m
        invariant
            n == a@.len(),
            m == b@.len(),
            k <= n,
            k <= m,
            seq_lt(a@, b@) == seq_lt(a@.skip(k as int), b@.skip(k as int)),
        decreases n - k,
    {
        let x = a.get_char(k);
        let y = b.get_char(k);
        if x != y {
            return (x as u32) < (y as u32);
        }
        assert(a@.skip(k as int).drop_first() =~= a@.skip(k + 1));
        assert(b@.skip(k as int).drop_first() =~= b@.skip(k + 1));
        k = k + 1;
    }
    k < m
}

/// The keys of `v` strictly increase.
pub open spec fn keys_sorted<X>(v: Seq<(String, X)>) -> bool {
    forall|i: int, j: int|
        #![trigger v[i], v[j]]
        0 <= i < j < v.len() ==> seq_lt(v[i].0@, v[j].0@)
}

/// The keys of `v`, as character sequences.
pub open spec fn key_seq<X>(v: Seq<(String, X)>) -> Seq<Seq<char>> {
    v.map_values(|p: (String, X)| p.0@)
}

/// `k` is the key at some position of `v`.
pub open spec fn has_key<X>(v: Seq<(String, X)>, k: Seq<char>) -> bool {
    exists|i: int| key_at(v, k, i)
}

/// Position `i` of `v` holds key `k`.
pub open spec fn key_at<X>(v: Seq<(String, X)>, k: Seq<char>, i: int) -> bool {
    0 <= i < v.len() && v[i].0@ == k
}

/// Where `key` is, or would be inserted, in a sorted `v`.
pub fn find_slot<X>(v: &Vec<(String, X)>, key: &str) -> (r: Result<usize, usize>)
    requires
        keys_sorted(v@),
    ensures
        match r {
            Ok(i) => i < v.len() && v@[i as int].0@ == key@,
            Err(i) => {
                &&& i <= v.len()
                &&& forall|j: int| 0 <= j < i ==> seq_lt((#[trigger] v@[j]).0@, key@)
                &&& forall|j: int| i <= j < v.len() ==> seq_lt(key@, (#[trigger] v@[j]).0@)
            },
        },
{
    let mut i: usize = 0;
    while i < v.len()
        invariant
            keys_sorted(v@),
            i <= v.len(),
            forall|j: int| 0 <= j < i ==> seq_lt((#[trigger] v@[j]).0@, key@),
        decreases v.len() - i,
    {
        let k = v[i].0.as_str();
        if crate::text::same_text(k, key) {
            return Ok(i);
        }
        if !str_lt(k, key) {
            proof {
                lemma_lt_total(v@[i as int].0@, key@);
                assert forall|j: int| i <= j < v.len() implies seq_lt(key@, (#[trigger] v@[j]).0@) by {
                    if j > i {
                        assert(seq_lt(v@[i as int].0@, v@[j].0@));
                        lemma_lt_transitive(key@, v@[i as int].0@, v@[j].0@);
                    }
                }
            }
            return Err(i);
        }
        i = i + 1;
    }
    Err(i)
}

/// In a sorted `v`, every key sits at exactly one position.
pub proof fn lemma_sorted_key_unique<X>(v: Seq<(String, X)>, i: int, j: int)
    requires
        keys_sorted(v),
        0 <= i < v.len(),
        0 <= j < v.len(),
        v[i].0@ == v[j].0@,
    ensures
        i == j,
{
    if i < j {
        lemma_lt_irreflexive(v[i].0@);
    }
    if j < i {
        lemma_lt_irreflexive(v[i].0@);
    }
}

/// Puts `(key, value)` into the sorted `v`: replaces the pair with that key
/// if there is one, else inserts it at its place in the order.
pub fn upsert_sorted<X>(v: &mut Vec<(String, X)>, key: String, value: X)
    requires
        keys_sorted(old(v)@),
    ensures
        keys_sorted(final(v)@),
        forall|k: Seq<char>|
            #![trigger lookup(final(v)@, k)]
            lookup(final(v)@, k) == if k == key@ {
                Some(value)
            } else {
                lookup(old(v)@, k)
            },
        match find_position(old(v)@, key@) {
            Some(i) => final(v)@ == old(v)@.update(i, (key, value)),
            None => exists|p: int|
                0 <= p <= old(v)@.len() && final(v)@ == old(v)@.insert(p, (key, value)),
        },
{
    match find_slot(v, key.as_str()) {
        Ok(i) => {
            proof {
                lemma_find_position(old(v)@, key@, i as int);
            }
            let ghost before = v@;
            let ghost kv = key@;
            let ghost val = value;
            v.set(i, (key, value));
            assert forall|a: int, b: int|
                #![trigger v@[a], v@[b]]
                0 <= a < b < v@.len() implies seq_lt(v@[a].0@, v@[b].0@) by {
                assert(seq_lt(before[a].0@, before[b].0@));
            }
            assert forall|k: Seq<char>|
                #![trigger lookup(v@, k)]
                lookup(v@, k) == if k == kv { Some(val) } else { lookup(before, k) } by {
                if k == kv {
                    lemma_find_position(v@, k, i as int);
                } else {
                    match find_position(before, k) {
                        Some(j) => {
                            lemma_find_position_some(before, k);
                            assert(j != i);
                            lemma_find_position(v@, k, j);
                        },
                        None => {
                            lemma_find_position_none_rev(before, k);
                            assert forall|j: int| 0 <= j < v@.len() implies (#[trigger] v@[j]).0@ != k by {
                                if j != i {
                                    assert(v@[j] == before[j]);
                                }
                            }
                            lemma_find_position_none(v@, k);
                        },
                    }
                }
            }
        },
        Err(i) => {
            proof {
                assert forall|j: int| 0 <= j < old(v)@.len() implies (#[trigger] old(v)@[j]).0@ != key@ by {
                    lemma_lt_irreflexive(key@);
                }
                lemma_find_position_none(old(v)@, key@);
            }
            let ghost before = v@;
            let ghost kv = key@;
            let ghost val = value;
            v.insert(i, (key, value));
            assert forall|a: int, b: int|
                #![trigger v@[a], v@[b]]
                0 <= a < b < v@.len() implies seq_lt(v@[a].0@, v@[b].0@) by {
                if b < i {
                    assert(seq_lt(before[a].0@, before[b].0@));
                } else if b == i {
                    assert(v@[a] == before[a]);
                } else if a == i {
                    assert(v@[b] == before[b - 1]);
                } else if a < i {
                    assert(v@[b] == before[b - 1]);
                    assert(seq_lt(before[a].0@, before[b - 1].0@));
                } else {
                    assert(seq_lt(before[a - 1].0@, before[b - 1].0@));
                }
            }
            assert forall|k: Seq<char>|
                #![trigger lookup(v@, k)]
                lookup(v@, k) == if k == kv { Some(val) } else { lookup(before, k) } by {
                if k == kv {
                    lemma_find_position(v@, k, i as int);
                } else {
                    match find_position(before, k) {
                        Some(j) => {
                            lemma_find_position_some(before, k);
                            if j < i {
                                assert(v@[j] == before[j]);
                                lemma_find_position(v@, k, j);
                            } else {
                                assert(v@[j + 1] == before[j]);
                                lemma_find_position(v@, k, j + 1);
                            }
                        },
                        None => {
                            lemma_find_position_none_rev(before, k);
                            assert forall|j: int| 0 <= j < v@.len() implies (#[trigger] v@[j]).0@ != k by {
                                if j < i {
                                    assert(v@[j] == before[j]);
                                } else if j > i {
                                    assert(v@[j] == before[j - 1]);
                                }
                            }
                            lemma_find_position_none(v@, k);
                        },
                    }
                }
            }
        },
    }
}

/// The position of key `k` in `v`, if it is there.
pub open spec fn find_position<X>(v: Seq<(String, X)>, k: Seq<char>) -> Option<int> {
    if has_key(v, k) {
        Some(choose|i: int| key_at(v, k, i))
    } else {
        None
    }
}

pub proof fn lemma_find_position<X>(v: Seq<(String, X)>, k: Seq<char>, i: int)
    requires
        keys_sorted(v),
        0 <= i < v.len(),
        v[i].0@ == k,
    ensures
        find_position(v, k) == Some(i),
{
    lemma_sorted_distinct(v);
    lemma_find_position_distinct(v, k, i);
}

/// No key occurs twice in `v`.
pub open spec fn keys_distinct<X>(v: Seq<(String, X)>) -> bool {
    forall|i: int, j: int|
        #![trigger v[i], v[j]]
        0 <= i < v.len() && 0 <= j < v.len() && i != j ==> v[i].0@ != v[j].0@
}

pub proof fn lemma_sorted_distinct<X>(v: Seq<(String, X)>)
    requires
        keys_sorted(v),
    ensures
        keys_distinct(v),
{
    assert forall|i: int, j: int|
        #![trigger v[i], v[j]]
        0 <= i < v.len() && 0 <= j < v.len() && i != j implies v[i].0@ != v[j].0@ by {
        if v[i].0@ == v[j].0@ {
            lemma_sorted_key_unique(v, i, j);
        }
    }
}

pub proof fn lemma_find_position_distinct<X>(v: Seq<(String, X)>, k: Seq<char>, i: int)
    requires
        keys_distinct(v),
        0 <= i < v.len(),
        v[i].0@ == k,
    ensures
        find_position(v, k) == Some(i),
{
    assert(key_at(v, k, i));
    let w = choose|j: int| key_at(v, k, j);
    assert(key_at(v, k, w));
    if w != i {
        assert(v[w].0@ != v[i].0@);
    }
}

pub proof fn lemma_find_position_none<X>(v: Seq<(String, X)>, k: Seq<char>)
    requires
        forall|j: int| 0 <= j < v.len() ==> (#[trigger] v[j]).0@ != k,
    ensures
        find_position(v, k) is None,
{
    assert(!has_key(v, k)) by {
        if has_key(v, k) {
            let w = choose|j: int| key_at(v, k, j);
            assert(v[w].0@ != k);
        }
    }
}


/// The value stored under key `k` in `v`, if any.
pub open spec fn lookup<X>(v: Seq<(String, X)>, k: Seq<char>) -> Option<X> {
    match find_position(v, k) {
        Some(i) => Some(v[i].1),
        None => None,
    }
}

pub proof fn lemma_find_position_some<X>(v: Seq<(String, X)>, k: Seq<char>)
    ensures
        find_position(v, k) matches Some(i) ==> key_at(v, k, i),
{
}

pub proof fn lemma_find_position_none_rev<X>(v: Seq<(String, X)>, k: Seq<char>)
    ensures
        find_position(v, k) is None ==> forall|j: int| 0 <= j < v.len() ==> (#[trigger] v[j]).0@ != k,
{
    if find_position(v, k) is None {
        assert forall|j: int| 0 <= j < v.len() implies (#[trigger] v[j]).0@ != k by {
            if v[j].0@ == k {
                assert(key_at(v, k, j));
            }
        }
    }
}

/// Position of key `k` in `v`, scanning from the front.
pub fn position_of<X>(v: &Vec<(String, X)>, k: &str) -> (r: Option<usize>)
    requires
        keys_sorted(v@),
    ensures
        r matches Some(i) ==> i < v@.len() && find_position(v@, k@) == Some(i as int),
        r is None ==> find_position(v@, k@) is None,
{
    let mut i: usize = 0;
    while i < v.len()
        invariant
            keys_sorted(v@),
            i <= v.len(),
            forall|j: int| 0 <= j < i ==> (#[trigger] v@[j]).0@ != k@,
        decreases v.len() - i,
    {
        if crate::text::same_text(v[i].0.as_str(), k) {
            proof {
                lemma_find_position(v@, k@, i as int);
            }
            return Some(i);
        }
        i = i + 1;
    }
    proof {
        lemma_find_position_none(v@, k@);
    }
    None
}


/// With distinct keys, looking up in `v` extended by one pair finds that
/// pair for its key and what `v` held for every other key.
pub proof fn lemma_lookup_push<X>(v: Seq<(String, X)>, p: (String, X), k: Seq<char>)
    requires
        keys_distinct(v.push(p)),
    ensures
        lookup(v.push(p), k) == if k == p.0@ {
            Some(p.1)
        } else {
            lookup(v, k)
        },
{
    let w = v.push(p);
    assert(keys_distinct(v)) by {
        assert forall|i: int, j: int|
            #![trigger v[i], v[j]]
            0 <= i < v.len() && 0 <= j < v.len() && i != j implies v[i].0@ != v[j].0@ by {
            assert(w[i] == v[i] && w[j] == v[j]);
        }
    }
    if k == p.0@ {
        lemma_find_position_distinct(w, k, v.len() as int);
    } else {
        match find_position(v, k) {
            Some(j) => {
                lemma_find_position_some(v, k);
                assert(w[j] == v[j]);
                lemma_find_position_distinct(w, k, j);
            },
            None => {
                lemma_find_position_none_rev(v, k);
                assert forall|j: int| 0 <= j < w.len() implies (#[trigger] w[j]).0@ != k by {
                    if j < v.len() {
                        assert(w[j] == v[j]);
                    }
                }
                lemma_find_position_none(w, k);
            },
        }
    }
}

} // verus!
