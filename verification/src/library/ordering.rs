//! Ordering images by name: names compare as `Option<String>` does (no name
//! first, then strings in lexicographic order), and lists are kept in that
//! order by stable insertion.
use vstd::prelude::*;

verus! {

broadcast use vstd::string::group_string_axioms;

/// Lexicographic order on character sequences, comparing code points (the
/// same order as comparing the UTF-8 bytes).
pub open spec fn chars_lt(a: Seq<char>, b: Seq<char>) -> bool
    decreases a.len(),
{
    if a.len() == 0 {
        b.len() > 0
    } else if b.len() == 0 {
        false
    } else if a[0] != b[0] {
        (a[0] as int) < (b[0] as int)
    } else {
        chars_lt(a.drop_first(), b.drop_first())
    }
}

/// The order of `Option<String>`: `None` first.
pub open spec fn name_lt(a: Option<Seq<char>>, b: Option<Seq<char>>) -> bool {
    match (a, b) {
        (None, Some(_)) => true,
        (Some(x), Some(y)) => chars_lt(x, y),
        _ => false,
    }
}

proof fn lemma_chars_eq_first(a: Seq<char>, b: Seq<char>)
    requires
        a.len() > 0,
        b.len() > 0,
        a[0] == b[0],
        a.drop_first() == b.drop_first(),
    ensures
        a == b,
{
    assert(a.drop_first().len() == a.len() - 1);
    assert(b.drop_first().len() == b.len() - 1);
    assert(a.len() == b.len());
    assert forall|i: int| 0 <= i < a.len() implies a[i] == b[i] by {
        if i > 0 {
            assert(a[i] == a.drop_first()[i - 1]);
            assert(b[i] == b.drop_first()[i - 1]);
        }
    }
    assert(a =~= b);
}

pub proof fn lemma_chars_lt_order(a: Seq<char>, b: Seq<char>, c: Seq<char>)
    ensures
        !chars_lt(a, a),
        chars_lt(a, b) ==> !chars_lt(b, a),
        chars_lt(a, b) || chars_lt(b, a) || a == b,
        chars_lt(a, b) && chars_lt(b, c) ==> chars_lt(a, c),
    decreases a.len(),
{
    if a.len() > 0 && b.len() > 0 && c.len() > 0 {
        lemma_chars_lt_order(a.drop_first(), b.drop_first(), c.drop_first());
        if a[0] == b[0] && a.drop_first() == b.drop_first() {
            lemma_chars_eq_first(a, b);
        }
    } else if a.len() > 0 && b.len() > 0 {
        lemma_chars_lt_order(a.drop_first(), b.drop_first(), a.drop_first());
        if a[0] == b[0] && a.drop_first() == b.drop_first() {
            lemma_chars_eq_first(a, b);
        }
    } else if a.len() > 0 {
        lemma_chars_lt_order(a.drop_first(), a.drop_first(), a.drop_first());
    }
    if a.len() == 0 && b.len() == 0 {
        assert(a =~= b);
    }
    if a.len() > 0 && b.len() > 0 && a[0] != b[0] {
        assert((a[0] as int) != (b[0] as int));
    }
}

/// `name_lt` is a strict total order.
pub proof fn lemma_name_lt_order(a: Option<Seq<char>>, b: Option<Seq<char>>, c: Option<Seq<char>>)
    ensures
        !name_lt(a, a),
        name_lt(a, b) ==> !name_lt(b, a),
        name_lt(a, b) || name_lt(b, a) || a == b,
        name_lt(a, b) && name_lt(b, c) ==> name_lt(a, c),
{
    match (a, b, c) {
        (Some(x), Some(y), Some(z)) => lemma_chars_lt_order(x, y, z),
        (Some(x), Some(y), None) => lemma_chars_lt_order(x, y, x),
        (Some(x), None, Some(z)) => lemma_chars_lt_order(x, z, x),
        (None, Some(y), Some(z)) => lemma_chars_lt_order(y, z, y),
        (Some(x), None, None) => lemma_chars_lt_order(x, x, x),
        (None, Some(y), None) => lemma_chars_lt_order(y, y, y),
        (None, None, Some(z)) => lemma_chars_lt_order(z, z, z),
        (None, None, None) => {},
    }
}

/// The characters of `s`.
pub fn chars_of(s: &str) -> (r: Vec<char>)
    ensures
        r@ == s@,
{
    let mut r: Vec<char> = Vec::new();
    for c in it: s.chars()
        invariant
            r@ == it.seq().take(it.index()),
    {
        r.push(c);
    }
    r
}


/// `a < b` for strings.
pub fn string_less(a: &String, b: &String) -> (r: bool)
    ensures
        r == chars_lt(a@, b@),
{
    let x = chars_of(a.as_str());
    let y = chars_of(b.as_str());
    let mut i: usize = 0;
    assert(a@.skip(0) =~= a@);
    assert(b@.skip(0) =~= b@);
    while i < x.len() && i < y.len()
        invariant
            x@ == a@,
            y@ == b@,
            i <= x@.len(),
            i <= y@.len(),
            forall|j: int| 0 <= j < i ==> x@[j] == y@[j],
            chars_lt(a@, b@) == chars_lt(a@.skip(i as int), b@.skip(i as int)),
        decreases x@.len() - i,
    {
        if x[i] != y[i] {
            proof {
                assert(a@.skip(i as int)[0] == x@[i as int]);
                assert(b@.skip(i as int)[0] == y@[i as int]);
            }
            return x[i] < y[i];
        }
        proof {
            assert(a@.skip(i as int).drop_first() =~= a@.skip(i + 1));
            assert(b@.skip(i as int).drop_first() =~= b@.skip(i + 1));
        }
        i = i + 1;
    }
    proof {
        assert(a@.skip(i as int).len() == a@.len() - i);
        assert(b@.skip(i as int).len() == b@.len() - i);
    }
    i == x.len() && i < y.len()
}

/// `a < b` for optional names.
pub fn name_less(a: &Option<String>, b: &Option<String>) -> (r: bool)
    ensures
        r == name_lt(opt_chars(*a), opt_chars(*b)),
{
    match (a, b) {
        (None, Some(_)) => true,
        (Some(x), Some(y)) => string_less(x, y),
        _ => false,
    }
}

pub open spec fn opt_chars(a: Option<String>) -> Option<Seq<char>> {
    match a {
        Some(s) => Some(s@),
        None => None,
    }
}

/// Where a value with name `n` goes in `s`: before the first element whose
/// name is greater, so after every element whose name is not.
pub open spec fn insert_pos<T>(s: Seq<T>, key: spec_fn(T) -> Option<Seq<char>>, n: Option<Seq<char>>) -> int
    decreases s.len(),
{
    if s.len() == 0 {
        0
    } else if name_lt(n, key(s[0])) {
        0
    } else {
        1 + insert_pos(s.drop_first(), key, n)
    }
}

/// `x` inserted into `s` in name order, after the elements of equal name.
pub open spec fn insert_sorted<T>(s: Seq<T>, key: spec_fn(T) -> Option<Seq<char>>, x: T) -> Seq<T> {
    s.insert(insert_pos(s, key, key(x)), x)
}

/// The stable sort of `s` by name: each element in turn inserted in order.
pub open spec fn sort_by_name<T>(s: Seq<T>, key: spec_fn(T) -> Option<Seq<char>>) -> Seq<T>
    decreases s.len(),
{
    if s.len() == 0 {
        s
    } else {
        insert_sorted(sort_by_name(s.drop_last(), key), key, s.last())
    }
}

/// No element has a greater name than an element after it.
pub open spec fn sorted_by_name<T>(s: Seq<T>, key: spec_fn(T) -> Option<Seq<char>>) -> bool {
    forall|i: int, j: int| 0 <= i < j < s.len() ==> !name_lt(#[trigger] key(s[j]), #[trigger] key(s[i]))
}

/// The insertion position is after every element whose name is not greater,
/// and at the first element whose name is.
pub proof fn lemma_insert_pos<T>(s: Seq<T>, key: spec_fn(T) -> Option<Seq<char>>, n: Option<Seq<char>>)
    ensures
        0 <= insert_pos(s, key, n) <= s.len(),
        forall|i: int| 0 <= i < insert_pos(s, key, n) ==> !name_lt(n, #[trigger] key(s[i])),
        insert_pos(s, key, n) < s.len() ==> name_lt(n, key(s[insert_pos(s, key, n)])),
    decreases s.len(),
{
    if s.len() > 0 && !name_lt(n, key(s[0])) {
        lemma_insert_pos(s.drop_first(), key, n);
        assert forall|i: int| 0 <= i < insert_pos(s, key, n) implies !name_lt(n, #[trigger] key(s[i])) by {
            if i > 0 {
                assert(s[i] == s.drop_first()[i - 1]);
            }
        }
        if insert_pos(s, key, n) < s.len() {
            assert(s[insert_pos(s, key, n)] == s.drop_first()[insert_pos(s, key, n) - 1]);
        }
    }
}

/// A position with the two properties of `lemma_insert_pos` is the insertion position.
pub proof fn lemma_insert_pos_unique<T>(s: Seq<T>, key: spec_fn(T) -> Option<Seq<char>>, n: Option<Seq<char>>, p: int)
    requires
        0 <= p <= s.len(),
        forall|i: int| 0 <= i < p ==> !name_lt(n, #[trigger] key(s[i])),
        p < s.len() ==> name_lt(n, key(s[p])),
    ensures
        insert_pos(s, key, n) == p,
    decreases s.len(),
{
    if s.len() > 0 && p > 0 {
        assert(!name_lt(n, key(s[0])));
        assert forall|i: int| 0 <= i < p - 1 implies !name_lt(n, #[trigger] key(s.drop_first()[i])) by {
            assert(s.drop_first()[i] == s[i + 1]);
        }
        if p - 1 < s.len() - 1 {
            assert(s.drop_first()[p - 1] == s[p]);
        }
        lemma_insert_pos_unique(s.drop_first(), key, n, p - 1);
    }
}

/// Inserting in order keeps a sorted sequence sorted.
pub proof fn lemma_insert_sorted_sorted<T>(s: Seq<T>, key: spec_fn(T) -> Option<Seq<char>>, x: T)
    requires
        sorted_by_name(s, key),
    ensures
        sorted_by_name(insert_sorted(s, key, x), key),
        insert_sorted(s, key, x).len() == s.len() + 1,
        insert_sorted(s, key, x).to_multiset() == s.to_multiset().insert(x),
{
    lemma_insert_pos(s, key, key(x));
    let p = insert_pos(s, key, key(x));
    let t = insert_sorted(s, key, x);
    assert forall|i: int, j: int| 0 <= i < j < t.len() implies !name_lt(#[trigger] key(t[j]), #[trigger] key(t[i])) by {
        let si = if i < p { i } else { i - 1 };
        let sj = if j < p { j } else { j - 1 };
        if i == p {
            // t[i] == x, t[j] == s[sj] with sj >= p
            assert(t[j] == s[sj]);
            if p < s.len() {
                if sj > p {
                    assert(!name_lt(key(s[sj]), key(s[p])));
                }
                lemma_name_lt_order(key(x), key(s[p]), key(s[sj]));
                lemma_name_lt_order(key(s[sj]), key(x), key(s[p]));
                lemma_name_lt_order(key(s[sj]), key(s[p]), key(x));
            }
        } else if j == p {
            assert(t[i] == s[si]);
            lemma_name_lt_order(key(x), key(s[si]), key(x));
        } else {
            assert(t[i] == s[si]);
            assert(t[j] == s[sj]);
        }
    }
    vstd::seq_lib::to_multiset_insert(s, p, x);
}

/// Sorting by name gives a sorted permutation.
pub proof fn lemma_sort_by_name<T>(s: Seq<T>, key: spec_fn(T) -> Option<Seq<char>>)
    ensures
        sorted_by_name(sort_by_name(s, key), key),
        sort_by_name(s, key).len() == s.len(),
        sort_by_name(s, key).to_multiset() == s.to_multiset(),
    decreases s.len(),
{
    if s.len() > 0 {
        lemma_sort_by_name(s.drop_last(), key);
        lemma_insert_sorted_sorted(sort_by_name(s.drop_last(), key), key, s.last());
        vstd::seq_lib::to_multiset_build(s.drop_last(), s.last());
        assert(s.drop_last().push(s.last()) =~= s);
    }
}

} // verus!
