//! String helpers over `Seq<char>` views, shared by the parsing modules.
use vstd::prelude::*;
use vstd::string::*;

verus! {

/// The characters of an optional owned string.
pub open spec fn opt_chars(o: Option<String>) -> Option<Seq<char>> {
    match o {
        Some(s) => Some(s@),
        None => None,
    }
}

/// The characters of an optional borrowed string.
pub open spec fn opt_view(o: Option<&str>) -> Option<Seq<char>> {
    match o {
        Some(s) => Some(s@),
        None => None,
    }
}

/// `i` is the first position of `c` in `s`.
pub open spec fn is_first(s: Seq<char>, c: char, i: int) -> bool {
    &&& 0 <= i < s.len()
    &&& s[i] == c
    &&& forall|j: int| 0 <= j < i ==> s[j] != c
}

/// `i` is the last position of `c` in `s`.
pub open spec fn is_last(s: Seq<char>, c: char, i: int) -> bool {
    &&& 0 <= i < s.len()
    &&& s[i] == c
    &&& forall|j: int| i < j < s.len() ==> s[j] != c
}

/// The first position of `c` in `s`, if any.
pub open spec fn first_index(s: Seq<char>, c: char) -> Option<int> {
    if exists|i: int| is_first(s, c, i) {
        Some(choose|i: int| is_first(s, c, i))
    } else {
        None
    }
}

/// The last position of `c` in `s`, if any.
pub open spec fn last_index(s: Seq<char>, c: char) -> Option<int> {
    if exists|i: int| is_last(s, c, i) {
        Some(choose|i: int| is_last(s, c, i))
    } else {
        None
    }
}

/// `s` split around the first `c`, as `str::split_once` does.
pub open spec fn split_once(s: Seq<char>, c: char) -> Option<(Seq<char>, Seq<char>)> {
    match first_index(s, c) {
        Some(i) => Some((s.take(i), s.skip(i + 1))),
        None => None,
    }
}

/// `s` split around the last `c`, as `str::rsplit_once` does.
pub open spec fn rsplit_once(s: Seq<char>, c: char) -> Option<(Seq<char>, Seq<char>)> {
    match last_index(s, c) {
        Some(i) => Some((s.take(i), s.skip(i + 1))),
        None => None,
    }
}

pub open spec fn has_prefix(s: Seq<char>, p: Seq<char>) -> bool {
    p.len() <= s.len() && s.take(p.len() as int) == p
}

pub open spec fn has_suffix(s: Seq<char>, p: Seq<char>) -> bool {
    p.len() <= s.len() && s.skip(s.len() - p.len()) == p
}

pub open spec fn occurs_at(s: Seq<char>, p: Seq<char>, i: int) -> bool {
    0 <= i && i + p.len() <= s.len() && s.subrange(i, i + p.len()) == p
}

pub open spec fn contains_seq(s: Seq<char>, p: Seq<char>) -> bool {
    exists|i: int| occurs_at(s, p, i)
}

pub proof fn lemma_first_unique(s: Seq<char>, c: char, i: int)
    requires
        is_first(s, c, i),
    ensures
        first_index(s, c) == Some(i),
{
    let w = choose|k: int| is_first(s, c, k);
    assert(is_first(s, c, w));
    if w < i {
        assert(s[w] != c);
    }
    if i < w {
        assert(s[i] != c);
    }
}

pub proof fn lemma_last_unique(s: Seq<char>, c: char, i: int)
    requires
        is_last(s, c, i),
    ensures
        last_index(s, c) == Some(i),
{
    let w = choose|k: int| is_last(s, c, k);
    assert(is_last(s, c, w));
    if w < i {
        assert(s[i] != c);
    }
    if i < w {
        assert(s[w] != c);
    }
}

/// Number of characters of `s`.
pub fn char_count(s: &str) -> (n: usize)
    ensures
        n == s@.len(),
{
    s.unicode_len()
}

/// Position of the first `c` in `s`.
pub fn find_char(s: &str, c: char) -> (r: Option<usize>)
    ensures
        r == (match first_index(s@, c) {
            Some(i) => Some(i as usize),
            None => None::<usize>,
        }),
        r matches Some(i) ==> is_first(s@, c, i as int),
        r is None ==> forall|j: int| 0 <= j < s@.len() ==> s@[j] != c,
{
    let n = s.unicode_len();
    let mut i: usize = 0;
    while i < n
        invariant
            n == s@.len(),
            i <= n,
            forall|j: int| 0 <= j < i ==> s@[j] != c,
        decreases n - i,
    {
        if s.get_char(i) == c {
            proof {
                lemma_first_unique(s@, c, i as int);
            }
            return Some(i);
        }
        i = i + 1;
    }
    None
}

/// Position of the last `c` in `s`.
pub fn rfind_char(s: &str, c: char) -> (r: Option<usize>)
    ensures
        r == (match last_index(s@, c) {
            Some(i) => Some(i as usize),
            None => None::<usize>,
        }),
        r matches Some(i) ==> is_last(s@, c, i as int),
{
    let n = s.unicode_len();
    let mut i: usize = n;
    while i > 0
        invariant
            n == s@.len(),
            i <= n,
            forall|j: int| i <= j < n ==> s@[j] != c,
        decreases i,
    {
        if s.get_char(i - 1) == c {
            proof {
                lemma_last_unique(s@, c, i - 1);
            }
            return Some(i - 1);
        }
        i = i - 1;
    }
    None
}

/// Whether `c` occurs in `s`.
pub fn has_char(s: &str, c: char) -> (r: bool)
    ensures
        r == s@.contains(c),
{
    match find_char(s, c) {
        Some(i) => {
            assert(s@[i as int] == c);
            true
        },
        None => false,
    }
}

/// Whether the characters of `s` from position `at` on begin with `p`.
pub fn matches_at(s: &str, p: &str, at: usize) -> (r: bool)
    requires
        at <= s@.len(),
    ensures
        r == occurs_at(s@, p@, at as int),
{
    let n = s.unicode_len();
    let m = p.unicode_len();
    if m > n - at {
        return false;
    }
    let mut k: usize = 0;
    while k < m
        invariant
            n == s@.len(),
            m == p@.len(),
            at + m <= n,
            k <= m,
            forall|j: int| 0 <= j < k ==> s@[at + j] == p@[j],
        decreases m - k,
    {
        if s.get_char(at + k) != p.get_char(k) {
            assert(s@.subrange(at as int, at + m)[k as int] != p@[k as int]);
            return false;
        }
        k = k + 1;
    }
    assert(s@.subrange(at as int, at + m) =~= p@);
    true
}

/// Whether `s` begins with `p`.
pub fn starts_with(s: &str, p: &str) -> (r: bool)
    ensures
        r == has_prefix(s@, p@),
{
    let r = matches_at(s, p, 0);
    assert(s@.subrange(0, p@.len() as int) == s@.take(p@.len() as int));
    r
}

/// Whether `s` ends with `p`.
pub fn ends_with(s: &str, p: &str) -> (r: bool)
    ensures
        r == has_suffix(s@, p@),
{
    let n = s.unicode_len();
    let m = p.unicode_len();
    if m > n {
        return false;
    }
    let r = matches_at(s, p, n - m);
    assert(s@.subrange((n - m) as int, n as int) == s@.skip(n - m));
    r
}

/// Whether `p` occurs anywhere in `s`.
pub fn contains_str(s: &str, p: &str) -> (r: bool)
    ensures
        r == contains_seq(s@, p@),
{
    let n = s.unicode_len();
    let mut i: usize = 0;
    while i < n
        invariant
            n == s@.len(),
            i <= n,
            forall|j: int| 0 <= j < i ==> !occurs_at(s@, p@, j),
        decreases n - i,
    {
        if matches_at(s, p, i) {
            return true;
        }
        i = i + 1;
    }
    if matches_at(s, p, n) {
        return true;
    }
    assert forall|j: int| !occurs_at(s@, p@, j) by {
        if 0 <= j && j + p@.len() <= s@.len() {
            assert(j < i || j == n);
        }
    }
    false
}

/// Whether the two strings hold the same characters.
pub fn same_text(a: &str, b: &str) -> (r: bool)
    ensures
        r == (a@ == b@),
{
    let n = a.unicode_len();
    let m = b.unicode_len();
    if n != m {
        return false;
    }
    let r = matches_at(a, b, 0);
    assert(a@.subrange(0, n as int) =~= a@);
    r
}

/// The characters of `s` from `from` up to `to`, as a new `String`.
pub fn substring(s: &str, from: usize, to: usize) -> (r: String)
    requires
        from <= to <= s@.len(),
    ensures
        r@ == s@.subrange(from as int, to as int),
{
    String::from_str(s.substring_char(from, to))
}

/// `a` followed by `b`.
pub fn concat(a: &str, b: &str) -> (r: String)
    ensures
        r@ == a@ + b@,
{
    let mut r = String::from_str(a);
    r.append(b);
    r
}


/// The non-empty pieces of `s` between occurrences of `sep`, in order: what
/// `s.split(sep).filter(|p| !p.is_empty())` yields.
pub open spec fn pieces(s: Seq<char>, sep: char) -> Seq<Seq<char>>
    decreases s.len(),
{
    match first_index(s, sep) {
        Some(i) => {
            if 0 <= i < s.len() {
                (if i > 0 {
                    seq![s.take(i)]
                } else {
                    Seq::empty()
                }) + pieces(s.skip(i + 1), sep)
            } else {
                Seq::empty()
            }
        },
        None => if s.len() > 0 {
            seq![s]
        } else {
            Seq::empty()
        },
    }
}

/// The pieces of `list` joined with `sep` between consecutive ones.
pub open spec fn join_with(list: Seq<Seq<char>>, sep: Seq<char>) -> Seq<char>
    decreases list.len(),
{
    if list.len() == 0 {
        Seq::empty()
    } else if list.len() == 1 {
        list[0]
    } else {
        join_with(list.drop_last(), sep) + sep + list.last()
    }
}

/// The character views of a sequence of strings.
pub open spec fn views(v: Seq<String>) -> Seq<Seq<char>> {
    v.map_values(|x: String| x@)
}

proof fn lemma_first_index_some(s: Seq<char>, c: char)
    ensures
        first_index(s, c) matches Some(i) ==> is_first(s, c, i),
{
}

/// Splits `s` at every `sep`, keeping the non-empty pieces.
pub fn split_pieces(s: &str, sep: char) -> (r: Vec<String>)
    ensures
        views(r@) == pieces(s@, sep),
{
    let n = s.unicode_len();
    let mut out: Vec<String> = Vec::new();
    let mut start: usize = 0;
    assert(s@.skip(0) =~= s@);
    assert(views(out@) + pieces(s@, sep) =~= pieces(s@, sep));
    while start < n
        invariant
            n == s@.len(),
            start <= n,
            views(out@) + pieces(s@.skip(start as int), sep) == pieces(s@, sep),
        decreases n - start,
    {
        let rest = s.substring_char(start, n);
        assert(rest@ == s@.skip(start as int));
        match find_char(rest, sep) {
            Some(i) => {
                let piece = substring(rest, 0, i);
                proof {
                    lemma_first_index_some(rest@, sep);
                    assert(rest@.skip(i + 1) =~= s@.skip(start + i + 1));
                }
                let ghost before = views(out@);
                if i > 0 {
                    out.push(piece);
                    assert(views(out@) =~= before + seq![rest@.take(i as int)]);
                } else {
                    assert(views(out@) =~= before + Seq::<Seq<char>>::empty());
                }
                start = start + i + 1;
            },
            None => {
                let ghost before = views(out@);
                let piece = substring(rest, 0, n - start);
                assert(piece@ =~= rest@);
                out.push(piece);
                assert(views(out@) =~= before + seq![rest@]);
                assert(s@.skip(n as int) =~= Seq::<char>::empty());
                assert(pieces(s@.skip(n as int), sep) =~= Seq::<Seq<char>>::empty());
                start = n;
            },
        }
    }
    assert(s@.skip(n as int) =~= Seq::<char>::empty());
    assert(pieces(s@.skip(n as int), sep) =~= Seq::<Seq<char>>::empty());
    assert(views(out@) =~= pieces(s@, sep));
    out
}

/// Joins `list[from..]` with `sep` between consecutive pieces.
pub fn join_from(list: &Vec<String>, from: usize, sep: &str) -> (r: String)
    requires
        from <= list.len(),
    ensures
        r@ == join_with(views(list@).skip(from as int), sep@),
{
    let ghost tail = views(list@).skip(from as int);
    let mut r = String::new();
    let mut i: usize = from;
    assert(tail.take(0) =~= Seq::<Seq<char>>::empty());
    while i < list.len()
        invariant
            from <= i <= list.len(),
            tail == views(list@).skip(from as int),
            r@ == join_with(tail.take(i - from), sep@),
        decreases list.len() - i,
    {
        let ghost prev = tail.take(i - from);
        assert(tail.take(i + 1 - from).drop_last() =~= prev);
        assert(tail.take(i + 1 - from).last() == list@[i as int]@);
        if i > from {
            r.append(sep);
        } else {
            assert(tail.take(i + 1 - from) =~= seq![list@[i as int]@]);
        }
        r.append(list[i].as_str());
        i = i + 1;
    }
    assert(tail.take(i - from) =~= tail);
    r
}


/// Whether one of `v` holds the characters of `s`.
pub fn contains_text(v: &Vec<String>, s: &str) -> (r: bool)
    ensures
        r == views(v@).contains(s@),
{
    let mut k: usize = 0;
    while k < v.len()
        invariant
            k <= v.len(),
            forall|m: int| 0 <= m < k ==> (#[trigger] v@[m])@ != s@,
        decreases v.len() - k,
    {
        if same_text(v[k].as_str(), s) {
            assert(views(v@)[k as int] == s@);
            return true;
        }
        k = k + 1;
    }
    assert forall|m: int| 0 <= m < views(v@).len() implies views(v@)[m] != s@ by {
        assert(views(v@)[m] == v@[m]@);
    }
    false
}

} // verus!
