//! Stable sorting of entries by a key compared lexicographically.
use vstd::prelude::*;

verus! {

broadcast use vstd::seq_lib::group_seq_properties;

/// Lexicographic order on sequences of numbers (`Ord` of `Vec<u32>` and,
/// through code points, of `String`).
pub open spec fn lex_lt(a: Seq<u32>, b: Seq<u32>) -> bool
    decreases a.len(),
{
    if b.len() == 0 {
        false
    } else if a.len() == 0 {
        true
    } else if a[0] < b[0] {
        true
    } else if a[0] > b[0] {
        false
    } else {
        lex_lt(a.drop_first(), b.drop_first())
    }
}

/// `a` goes strictly before `b` in the requested direction.
pub open spec fn goes_before(a: Seq<u32>, b: Seq<u32>, descending: bool) -> bool {
    if descending {
        lex_lt(b, a)
    } else {
        lex_lt(a, b)
    }
}

/// No later entry goes strictly before an earlier one.
pub open spec fn sorted_by_key<T>(s: Seq<(Vec<u32>, T)>, descending: bool) -> bool {
    forall|i: int, j: int|
        0 <= i < j < s.len() ==> !goes_before(#[trigger] s[j].0@, #[trigger] s[i].0@, descending)
}

/// The entries whose key is `k`, in order.
pub open spec fn with_key<T>(s: Seq<(Vec<u32>, T)>, k: Seq<u32>) -> Seq<(Vec<u32>, T)> {
    s.filter(key_is::<T>(k))
}

/// The test "the entry's key is `k`".
pub open spec fn key_is<T>(k: Seq<u32>) -> spec_fn((Vec<u32>, T)) -> bool {
    |e: (Vec<u32>, T)| e.0@ == k
}

/// The test "the value's key is `k`".
pub open spec fn value_key_is<T>(key: spec_fn(T) -> Seq<u32>, k: Seq<u32>) -> spec_fn(T) -> bool {
    |v: T| key(v) == k
}

/// A stable sort of `s`: sorted, and the entries of each key in their
/// order of the input.
pub open spec fn is_stable_sort<T>(r: Seq<(Vec<u32>, T)>, s: Seq<(Vec<u32>, T)>, descending: bool) -> bool {
    sorted_by_key(r, descending) && forall|k: Seq<u32>| #[trigger] with_key(r, k) == with_key(s, k)
}

pub proof fn lemma_lex_irreflexive(a: Seq<u32>)
    ensures
        !lex_lt(a, a),
    decreases a.len(),
{
    if a.len() > 0 {
        lemma_lex_irreflexive(a.drop_first());
    }
}

pub proof fn lemma_lex_transitive(a: Seq<u32>, b: Seq<u32>, c: Seq<u32>)
    requires
        lex_lt(a, b),
        lex_lt(b, c),
    ensures
        lex_lt(a, c),
    decreases a.len(),
{
    if a.len() > 0 && b.len() > 0 && c.len() > 0 && a[0] == b[0] && b[0] == c[0] {
        lemma_lex_transitive(a.drop_first(), b.drop_first(), c.drop_first());
    }
}

pub proof fn lemma_lex_total(a: Seq<u32>, b: Seq<u32>)
    ensures
        a == b || lex_lt(a, b) || lex_lt(b, a),
    decreases a.len(),
{
    if a.len() > 0 && b.len() > 0 && a[0] == b[0] {
        lemma_lex_total(a.drop_first(), b.drop_first());
        if a.drop_first() == b.drop_first() {
            assert(a =~= seq![a[0]] + a.drop_first());
            assert(b =~= seq![b[0]] + b.drop_first());
        }
    } else if a.len() == 0 && b.len() == 0 {
        assert(a =~= b);
    }
}

proof fn lemma_before_irreflexive(a: Seq<u32>, descending: bool)
    ensures
        !goes_before(a, a, descending),
{
    lemma_lex_irreflexive(a);
}

proof fn lemma_before_transitive(a: Seq<u32>, b: Seq<u32>, c: Seq<u32>, descending: bool)
    requires
        goes_before(a, b, descending),
        goes_before(b, c, descending),
    ensures
        goes_before(a, c, descending),
{
    if descending {
        lemma_lex_transitive(c, b, a);
    } else {
        lemma_lex_transitive(a, b, c);
    }
}

/// `a < b` on keys read from a vector.
pub fn key_before(a: &Vec<u32>, b: &Vec<u32>, descending: bool) -> (r: bool)
    ensures
        r == goes_before(a@, b@, descending),
{
    if descending {
        lex_lt_exec(b, a)
    } else {
        lex_lt_exec(a, b)
    }
}

pub fn lex_lt_exec(a: &Vec<u32>, b: &Vec<u32>) -> (r: bool)
    ensures
        r == lex_lt(a@, b@),
{
    let mut i: usize = 0;
    assert(a@.subrange(0, a.len() as int) =~= a@);
    assert(b@.subrange(0, b.len() as int) =~= b@);
    while i < a.len() && i < b.len() && a[i] == b[i]
        invariant
            i <= a.len(),
            i <= b.len(),
            lex_lt(a@, b@) == lex_lt(a@.subrange(i as int, a.len() as int), b@.subrange(
                i as int,
                b.len() as int,
            )),
        decreases a.len() - i,
    {
        assert(a@.subrange(i as int, a.len() as int).drop_first() =~= a@.subrange(
            i + 1,
            a.len() as int,
        ));
        assert(b@.subrange(i as int, b.len() as int).drop_first() =~= b@.subrange(
            i + 1,
            b.len() as int,
        ));
        i = i + 1;
    }
    proof {
        assert(a@.subrange(0, a.len() as int) =~= a@);
        assert(b@.subrange(0, b.len() as int) =~= b@);
    }
    if i == b.len() {
        false
    } else if i == a.len() {
        true
    } else {
        a[i] < b[i]
    }
}

proof fn lemma_insert_keeps_keys<T>(r: Seq<(Vec<u32>, T)>, p: int, x: (Vec<u32>, T), descending: bool)
    requires
        sorted_by_key(r, descending),
        0 <= p <= r.len(),
        forall|j: int| 0 <= j < p ==> !goes_before(x.0@, #[trigger] r[j].0@, descending),
        p < r.len() ==> goes_before(x.0@, r[p].0@, descending),
    ensures
        sorted_by_key(r.insert(p, x), descending),
        forall|k: Seq<u32>| #[trigger] with_key(r.insert(p, x), k) == with_key(r.push(x), k),
{
    let n = r.insert(p, x);
    r.insert_ensures(p, x);
    assert forall|i: int, j: int| 0 <= i < j < n.len() implies !goes_before(
        #[trigger] n[j].0@,
        #[trigger] n[i].0@,
        descending,
    ) by {
        if j < p {
            assert(n[i] == r[i] && n[j] == r[j]);
        } else if j == p {
            assert(n[i] == r[i]);
        } else if i < p {
            assert(n[i] == r[i] && n[j] == r[j - 1]);
        } else if i == p {
            assert(n[j] == r[j - 1]);
            if goes_before(r[j - 1].0@, x.0@, descending) {
                lemma_before_transitive(r[j - 1].0@, x.0@, r[p].0@, descending);
                if j - 1 == p {
                    lemma_before_irreflexive(r[p].0@, descending);
                } else {
                    assert(!goes_before(r[j - 1].0@, r[p].0@, descending));
                }
            }
        } else {
            assert(n[i] == r[i - 1] && n[j] == r[j - 1]);
        }
    }
    assert forall|k: Seq<u32>| #[trigger] with_key(n, k) == with_key(r.push(x), k) by {
        let pred = key_is::<T>(k);
        let a = r.subrange(0, p);
        let b = r.subrange(p, r.len() as int);
        assert(r =~= a + b);
        assert(n =~= (a + seq![x]) + b);
        assert(r.push(x) =~= a + (b + seq![x]));
        Seq::filter_distributes_over_add(a + seq![x], b, pred);
        Seq::filter_distributes_over_add(a, seq![x], pred);
        Seq::filter_distributes_over_add(a, b + seq![x], pred);
        Seq::filter_distributes_over_add(b, seq![x], pred);
        if k == x.0@ {
            assert forall|m: int| 0 <= m < b.len() implies !pred(#[trigger] b[m]) by {
                assert(b[m] == r[p + m]);
                if m > 0 {
                    assert(!goes_before(r[p + m].0@, r[p].0@, descending));
                }
                lemma_before_irreflexive(x.0@, descending);
            }
            b.lemma_all_neg_filter_empty(pred);
            assert(b.filter(pred) =~= Seq::<(Vec<u32>, T)>::empty());
        } else {
            assert(seq![x].filter(pred) =~= Seq::<(Vec<u32>, T)>::empty()) by {
                Seq::<(Vec<u32>, T)>::empty().lemma_filter_push(x, pred);
                assert(Seq::<(Vec<u32>, T)>::empty().push(x) =~= seq![x]);
                assert(Seq::<(Vec<u32>, T)>::empty().filter(pred) =~= Seq::<(Vec<u32>, T)>::empty()) by {
                    reveal(Seq::filter);
                }
            }
        }
        if k == x.0@ {
            assert(seq![x].filter(pred) =~= seq![x]) by {
                Seq::<(Vec<u32>, T)>::empty().lemma_filter_push(x, pred);
                assert(Seq::<(Vec<u32>, T)>::empty().push(x) =~= seq![x]);
                assert(Seq::<(Vec<u32>, T)>::empty().filter(pred) =~= Seq::<(Vec<u32>, T)>::empty()) by {
                    reveal(Seq::filter);
                }
            }
        }
    }
}

/// Sorts entries by key, stably (`sort_by` on the key, ascending, or with the
/// comparison reversed for `descending`).
pub fn stable_sort<T>(items: Vec<(Vec<u32>, T)>, descending: bool) -> (r: Vec<(Vec<u32>, T)>)
    ensures
        is_stable_sort(r@, items@, descending),
{
    let ghost s = items@;
    let mut rest = items;
    let mut r: Vec<(Vec<u32>, T)> = Vec::new();
    let mut n: usize = 0;
    assert(rest@ =~= s.subrange(0, s.len() as int));
    assert(s.len() == rest.len());
    assert(r@ =~= s.subrange(0, 0)) ;
    while rest.len() > 0
        invariant
            n + rest.len() == s.len(),
            s.len() <= usize::MAX,
            rest@ == s.subrange(n as int, s.len() as int),
            sorted_by_key(r@, descending),
            forall|k: Seq<u32>| #[trigger] with_key(r@, k) == with_key(s.subrange(0, n as int), k),
        decreases rest.len(),
    {
        let x = rest.remove(0);
        assert(x == s[n as int]);
        let mut p: usize = 0;
        while p < r.len() && !key_before(&x.0, &r[p].0, descending)
            invariant
                p <= r.len(),
                forall|j: int| 0 <= j < p ==> !goes_before(x.0@, #[trigger] r@[j].0@, descending),
            decreases r.len() - p,
        {
            p = p + 1;
        }
        proof {
            lemma_insert_keeps_keys(r@, p as int, x, descending);
            assert(s.subrange(0, n + 1) =~= s.subrange(0, n as int).push(x));
            assert forall|k: Seq<u32>| #[trigger] with_key(r@.push(x), k) == with_key(
                s.subrange(0, n + 1),
                k,
            ) by {
                assert(with_key(r@, k) == with_key(s.subrange(0, n as int), k));
                r@.lemma_filter_push(x, key_is::<T>(k));
                s.subrange(0, n as int).lemma_filter_push(x, key_is::<T>(k));
            }
        }
        r.insert(p, x);
        n = n + 1;
        assert(rest@ =~= s.subrange(n as int, s.len() as int));
    }
    assert(s.subrange(0, n as int) =~= s);
    r
}

/// `r` is `s` sorted stably by `key`: in order, and the values of each key
/// in their order of the input.
pub open spec fn sorted_values<T>(
    r: Seq<T>,
    s: Seq<T>,
    key: spec_fn(T) -> Seq<u32>,
    descending: bool,
) -> bool {
    &&& forall|i: int, j: int|
        0 <= i < j < r.len() ==> !goes_before(key(#[trigger] r[j]), key(#[trigger] r[i]), descending)
    &&& forall|k: Seq<u32>| #[trigger] values_with_key(r, key, k) == values_with_key(s, key, k)
}

/// The values whose key is `k`, in order.
pub open spec fn values_with_key<T>(s: Seq<T>, key: spec_fn(T) -> Seq<u32>, k: Seq<u32>) -> Seq<T> {
    s.filter(value_key_is(key, k))
}

pub open spec fn values_of<T>(ps: Seq<(Vec<u32>, T)>) -> Seq<T> {
    ps.map_values(|e: (Vec<u32>, T)| e.1)
}

proof fn lemma_with_key_values<T>(ps: Seq<(Vec<u32>, T)>, key: spec_fn(T) -> Seq<u32>, k: Seq<u32>)
    requires
        forall|i: int| 0 <= i < ps.len() ==> (#[trigger] ps[i]).0@ == key(ps[i].1),
    ensures
        values_of(with_key(ps, k)) == values_with_key(values_of(ps), key, k),
    decreases ps.len(),
{
    let p1 = key_is::<T>(k);
    let p2 = value_key_is(key, k);
    if ps.len() == 0 {
        assert(ps.filter(p1) =~= Seq::<(Vec<u32>, T)>::empty()) by {
            reveal(Seq::filter);
        }
        assert(values_of(ps).filter(p2) =~= Seq::<T>::empty()) by {
            reveal(Seq::filter);
        }
        assert(values_of(ps.filter(p1)) =~= Seq::<T>::empty());
    } else {
        let q = ps.drop_last();
        let x = ps.last();
        assert(ps[ps.len() - 1].0@ == key(ps[ps.len() - 1].1));
        assert forall|i: int| 0 <= i < q.len() implies (#[trigger] q[i]).0@ == key(q[i].1) by {
            assert(q[i] == ps[i]);
        }
        lemma_with_key_values(q, key, k);
        assert(ps =~= q.push(x));
        assert(values_of(ps) =~= values_of(q).push(x.1));
        q.lemma_filter_push(x, p1);
        values_of(q).lemma_filter_push(x.1, p2);
        assert(with_key(ps, k) == q.push(x).filter(p1));
        assert(values_with_key(values_of(ps), key, k) == values_of(q).push(x.1).filter(p2));
        assert(values_of(q.filter(p1)) == values_of(q).filter(p2));
        if p1(x) {
            assert(values_of(q.filter(p1).push(x)) =~= values_of(q.filter(p1)).push(x.1));
        }
    }
}

/// The values of keyed entries, sorted stably by their keys.
pub fn sort_values<T>(
    pairs: Vec<(Vec<u32>, T)>,
    descending: bool,
    Ghost(key): Ghost<spec_fn(T) -> Seq<u32>>,
) -> (r: Vec<T>)
    requires
        forall|i: int| 0 <= i < pairs@.len() ==> (#[trigger] pairs@[i]).0@ == key(pairs@[i].1),
    ensures
        sorted_values(r@, values_of(pairs@), key, descending),
{
    let ghost s = pairs@;
    let sorted = stable_sort(pairs, descending);
    let ghost so = sorted@;
    proof {
        assert forall|i: int| 0 <= i < so.len() implies (#[trigger] so[i]).0@ == key(so[i].1) by {
            let k = so[i].0@;
            let pred = key_is::<T>(k);
            assert(so.contains(so[i]));
            assert(so.filter(pred).contains(so[i])) by {
                so.lemma_filter_contains(pred, i);
            }
            assert(with_key(so, k) == with_key(s, k));
            assert(s.filter(pred).contains(so[i]));
            s.lemma_filter_contains_rev(pred, so[i]);
            let m = choose|m: int| 0 <= m < s.len() && s[m] == so[i];
            assert(s[m].0@ == key(s[m].1));
        }
        assert forall|k: Seq<u32>| #[trigger] values_with_key(values_of(so), key, k) == values_with_key(values_of(
            s,
        ), key, k) by {
            lemma_with_key_values(so, key, k);
            lemma_with_key_values(s, key, k);
            assert(with_key(so, k) == with_key(s, k));
        }
    }
    let mut rest = sorted;
    let mut out: Vec<T> = Vec::new();
    let mut n: usize = 0;
    assert(rest@ =~= so.subrange(0, so.len() as int));
    assert(so.len() == rest.len());
    while rest.len() > 0
        invariant
            n + rest.len() == so.len(),
            so.len() <= usize::MAX,
            rest@ == so.subrange(n as int, so.len() as int),
            out@ == values_of(so.subrange(0, n as int)),
        decreases rest.len(),
    {
        let x = rest.remove(0);
        out.push(x.1);
        n = n + 1;
        assert(rest@ =~= so.subrange(n as int, so.len() as int));
        assert(out@ =~= values_of(so.subrange(0, n as int)));
    }
    assert(so.subrange(0, n as int) =~= so);
    proof {
        assert forall|i: int, j: int| 0 <= i < j < out@.len() implies !goes_before(
            key(#[trigger] out@[j]),
            key(#[trigger] out@[i]),
            descending,
        ) by {
            assert(so[i].0@ == key(so[i].1));
            assert(so[j].0@ == key(so[j].1));
        }
    }
    out
}

/// The code points of a text, the key by which `String`s are ordered.
pub open spec fn code_points(s: Seq<char>) -> Seq<u32> {
    s.map_values(|c: char| c as u32)
}

pub fn code_points_exec(v: &Vec<char>) -> (r: Vec<u32>)
    ensures
        r@ == code_points(v@),
{
    let mut r: Vec<u32> = Vec::new();
    let mut i: usize = 0;
    while i < v.len()
        invariant
            i <= v.len(),
            r@ == code_points(v@.subrange(0, i as int)),
        decreases v.len() - i,
    {
        r.push(v[i] as u32);
        i = i + 1;
        assert(r@ =~= code_points(v@.subrange(0, i as int)));
    }
    assert(v@.subrange(0, v.len() as int) =~= v@);
    r
}

proof fn lemma_filter_views(s: Seq<Vec<char>>, key_t: spec_fn(Vec<char>) -> Seq<u32>, key_u: spec_fn(Seq<char>) -> Seq<u32>, k: Seq<u32>)
    requires
        forall|v: Vec<char>| #[trigger] key_t(v) == key_u(v@),
    ensures
        crate::text::views(values_with_key(s, key_t, k)) == values_with_key(crate::text::views(s), key_u, k),
    decreases s.len(),
{
    let pt = value_key_is(key_t, k);
    let pu = value_key_is(key_u, k);
    if s.len() == 0 {
        assert(s.filter(pt) =~= Seq::<Vec<char>>::empty()) by {
            reveal(Seq::filter);
        }
        assert(crate::text::views(s).filter(pu) =~= Seq::<Seq<char>>::empty()) by {
            reveal(Seq::filter);
        }
        assert(crate::text::views(s.filter(pt)) =~= Seq::<Seq<char>>::empty());
    } else {
        let q = s.drop_last();
        let x = s.last();
        lemma_filter_views(q, key_t, key_u, k);
        assert(s =~= q.push(x));
        assert(crate::text::views(s) =~= crate::text::views(q).push(x@));
        q.lemma_filter_push(x, pt);
        crate::text::views(q).lemma_filter_push(x@, pu);
        assert(key_t(x) == key_u(x@));
        if pt(x) {
            assert(crate::text::views(q.filter(pt).push(x)) =~= crate::text::views(q.filter(pt)).push(x@));
        }
    }
}

/// A stable sort of character vectors is a stable sort of their texts.
pub proof fn lemma_sorted_values_views(
    r: Seq<Vec<char>>,
    s: Seq<Vec<char>>,
    key_t: spec_fn(Vec<char>) -> Seq<u32>,
    key_u: spec_fn(Seq<char>) -> Seq<u32>,
    descending: bool,
)
    requires
        sorted_values(r, s, key_t, descending),
        forall|v: Vec<char>| #[trigger] key_t(v) == key_u(v@),
    ensures
        sorted_values(crate::text::views(r), crate::text::views(s), key_u, descending),
{
    let rv = crate::text::views(r);
    assert forall|i: int, j: int| 0 <= i < j < rv.len() implies !goes_before(
        key_u(#[trigger] rv[j]),
        key_u(#[trigger] rv[i]),
        descending,
    ) by {
        assert(key_t(r[i]) == key_u(r[i]@));
        assert(key_t(r[j]) == key_u(r[j]@));
    }
    assert forall|k: Seq<u32>| #[trigger] values_with_key(rv, key_u, k) == values_with_key(
        crate::text::views(s),
        key_u,
        k,
    ) by {
        lemma_filter_views(r, key_t, key_u, k);
        lemma_filter_views(s, key_t, key_u, k);
        assert(values_with_key(r, key_t, k) == values_with_key(s, key_t, k));
    }
}

} // verus!
