//! Lexicographic order on strings and sorted, duplicate-free string lists.

use vstd::prelude::*;
use crate::text::chars_of;

verus! {

/// Lexicographic "less than" on character sequences, comparing code points;
/// this is the order of `String`'s `Ord` (UTF-8 bytes order as code points do).
pub open spec fn lex_lt(a: Seq<char>, b: Seq<char>) -> bool
    decreases a.len(),
{
    if a.len() == 0 {
        b.len() > 0
    } else if b.len() == 0 {
        false
    } else if a[0] != b[0] {
        a[0] < b[0]
    } else {
        lex_lt(a.drop_first(), b.drop_first())
    }
}

/// The views of a list of strings.
pub open spec fn views(v: Seq<String>) -> Seq<Seq<char>> {
    v.map_values(|s: String| s@)
}

/// Each element is lexicographically smaller than every later one
/// (so the list is sorted and holds no duplicates).
pub open spec fn strictly_sorted(s: Seq<Seq<char>>) -> bool {
    forall|i: int, j: int| 0 <= i < j < s.len() ==> lex_lt(#[trigger] s[i], #[trigger] s[j])
}

/// `a` and `b` hold the same strings.
pub open spec fn same_elements(a: Seq<Seq<char>>, b: Seq<Seq<char>>) -> bool {
    forall|x: Seq<char>| #![trigger a.contains(x)] #![trigger b.contains(x)] a.contains(x) <==> b.contains(x)
}

/// The distinct strings of `s` in increasing order (unique by
/// `lemma_strictly_sorted_unique`).
pub open spec fn sorted_set(s: Seq<Seq<char>>) -> Seq<Seq<char>> {
    choose|t: Seq<Seq<char>>| strictly_sorted(t) && same_elements(t, s)
}

/// A strictly sorted list is determined by its elements.
pub proof fn lemma_strictly_sorted_unique(a: Seq<Seq<char>>, b: Seq<Seq<char>>)
    requires
        strictly_sorted(a),
        strictly_sorted(b),
        same_elements(a, b),
    ensures
        a == b,
    decreases a.len(),
{
    if a.len() == 0 {
        if b.len() > 0 {
            assert(b.contains(b[0]));
        }
        assert(a =~= b);
    } else if b.len() == 0 {
        assert(a.contains(a[0]));
    } else {
        assert(a.contains(a[0]));
        assert(b.contains(b[0]));
        let j = choose|j: int| 0 <= j < b.len() && b[j] == a[0];
        let i = choose|i: int| 0 <= i < a.len() && a[i] == b[0];
        if a[0] != b[0] {
            assert(j > 0 && i > 0);
            assert(lex_lt(b[0], b[j]));
            assert(lex_lt(a[0], a[i]));
            lemma_lex_transitive(a[0], b[0], a[0]);
            lemma_lex_irreflexive(a[0]);
        }
        let a1 = a.drop_first();
        let b1 = b.drop_first();
        assert forall|x: Seq<char>| a1.contains(x) <==> b1.contains(x) by {
            if a1.contains(x) {
                let k = choose|k: int| 0 <= k < a1.len() && a1[k] == x;
                assert(lex_lt(a[0], a[k + 1]));
                lemma_lex_irreflexive(x);
                assert(a.contains(x));
                let m = choose|m: int| 0 <= m < b.len() && b[m] == x;
                assert(m != 0);
                assert(b1[m - 1] == x);
            }
            if b1.contains(x) {
                let k = choose|k: int| 0 <= k < b1.len() && b1[k] == x;
                assert(lex_lt(b[0], b[k + 1]));
                lemma_lex_irreflexive(x);
                assert(b.contains(x));
                let m = choose|m: int| 0 <= m < a.len() && a[m] == x;
                assert(m != 0);
                assert(a1[m - 1] == x);
            }
        }
        assert forall|p: int, q: int| 0 <= p < q < a1.len() implies lex_lt(#[trigger] a1[p], #[trigger] a1[q]) by {
            assert(a1[p] == a[p + 1] && a1[q] == a[q + 1]);
        }
        assert forall|p: int, q: int| 0 <= p < q < b1.len() implies lex_lt(#[trigger] b1[p], #[trigger] b1[q]) by {
            assert(b1[p] == b[p + 1] && b1[q] == b[q + 1]);
        }
        lemma_strictly_sorted_unique(a1, b1);
        assert(a =~= seq![a[0]] + a1);
        assert(b =~= seq![b[0]] + b1);
    }
}

/// `t` is the sorted set of `s` when it is strictly sorted with the same elements.
pub proof fn lemma_sorted_set(t: Seq<Seq<char>>, s: Seq<Seq<char>>)
    requires
        strictly_sorted(t),
        same_elements(t, s),
    ensures
        sorted_set(s) == t,
{
    let u = sorted_set(s);
    assert(strictly_sorted(u) && same_elements(u, s));
    assert(same_elements(u, t));
    lemma_strictly_sorted_unique(u, t);
}

pub proof fn lemma_lex_irreflexive(a: Seq<char>)
    ensures
        !lex_lt(a, a),
    decreases a.len(),
{
    if a.len() > 0 {
        lemma_lex_irreflexive(a.drop_first());
    }
}

pub proof fn lemma_lex_transitive(a: Seq<char>, b: Seq<char>, c: Seq<char>)
    requires
        lex_lt(a, b),
        lex_lt(b, c),
    ensures
        lex_lt(a, c),
    decreases a.len(),
{
    if a.len() > 0 && b.len() > 0 && c.len() > 0 {
        if a[0] == b[0] && b[0] == c[0] {
            lemma_lex_transitive(a.drop_first(), b.drop_first(), c.drop_first());
        }
    }
}

pub proof fn lemma_lex_total(a: Seq<char>, b: Seq<char>)
    ensures
        a == b || lex_lt(a, b) || lex_lt(b, a),
    decreases a.len(),
{
    if a.len() > 0 && b.len() > 0 {
        if a[0] == b[0] {
            lemma_lex_total(a.drop_first(), b.drop_first());
            if a.drop_first() == b.drop_first() {
                assert(a =~= seq![a[0]] + a.drop_first());
                assert(b =~= seq![b[0]] + b.drop_first());
            }
        } else {
        }
    } else if a.len() == 0 && b.len() == 0 {
        assert(a =~= b);
    }
}

/// Whether `a` comes before `b` in lexicographic order.
pub fn lex_less(a: &str, b: &str) -> (r: bool)
    ensures
        r == lex_lt(a@, b@),
{
    let ac = chars_of(a);
    let bc = chars_of(b);
    let mut k: usize = 0;
    assert(a@.skip(0) =~= a@);
    assert(b@.skip(0) =~= b@);
    while k < ac.len() && k < bc.len() && ac[k] == bc[k]
        invariant
            ac@ == a@,
            bc@ == b@,
            k <= ac@.len(),
            k <= bc@.len(),
            lex_lt(a@, b@) == lex_lt(a@.skip(k as int), b@.skip(k as int)),
        decreases ac@.len() - k,
    {
        assert(a@.skip(k as int).drop_first() =~= a@.skip(k + 1));
        assert(b@.skip(k as int).drop_first() =~= b@.skip(k + 1));
        k = k + 1;
    }
    if k == ac.len() {
        k < bc.len()
    } else if k == bc.len() {
        false
    } else {
        assert(a@.skip(k as int)[0] == a@[k as int]);
        assert(b@.skip(k as int)[0] == b@[k as int]);
        ac[k] < bc[k]
    }
}

/// Inserts `x` into the strictly sorted list `v`, unless an equal string is already there.
pub fn insert_sorted_unique(v: &mut Vec<String>, x: String)
    requires
        strictly_sorted(views(old(v)@)),
    ensures
        strictly_sorted(views(final(v)@)),
        forall|s: Seq<char>| views(final(v)@).contains(s) <==> (views(old(v)@).contains(s) || s == x@),
{
    let n = v.len();
    let mut p: usize = 0;
    while p < n && lex_less(v[p].as_str(), x.as_str())
        invariant
            n == v@.len(),
            p <= n,
            forall|j: int| 0 <= j < p ==> lex_lt(#[trigger] v@[j]@, x@),
        decreases n - p,
    {
        p = p + 1;
    }
    let ghost old_views = views(v@);
    if p < n && v[p] == x {
        assert forall|s: Seq<char>| views(v@).contains(s) <==> (views(v@).contains(s) || s == x@) by {
            if s == x@ {
                assert(views(v@)[p as int] == s);
            }
        }
        return;
    }
    proof {
        if p < n {
            lemma_lex_total(v@[p as int]@, x@);
            assert(lex_lt(x@, v@[p as int]@));
            assert forall|j: int| p <= j < n implies lex_lt(x@, #[trigger] v@[j]@) by {
                if j > p {
                    assert(lex_lt(views(v@)[p as int], views(v@)[j]));
                    lemma_lex_transitive(x@, v@[p as int]@, v@[j]@);
                }
            }
        }
    }
    v.insert(p, x);
    proof {
        let nv = views(v@);
        assert(nv =~= old_views.insert(p as int, x@));
        assert forall|i: int, j: int| 0 <= i < j < nv.len() implies lex_lt(#[trigger] nv[i], #[trigger] nv[j]) by {
            if j < p {
                assert(lex_lt(old_views[i], old_views[j]));
            } else if i > p {
                assert(lex_lt(old_views[i - 1], old_views[j - 1]));
            } else if i == p {
                assert(lex_lt(x@, old(v)@[j - 1]@));
            } else if j == p {
            } else {
                assert(lex_lt(old_views[i], x@));
                assert(lex_lt(x@, old(v)@[j - 1]@));
                lemma_lex_transitive(old_views[i], x@, old_views[j - 1]);
            }
        }
        assert forall|s: Seq<char>| nv.contains(s) <==> (old_views.contains(s) || s == x@) by {
            if nv.contains(s) {
                let k = choose|k: int| 0 <= k < nv.len() && nv[k] == s;
                if k < p {
                    assert(old_views[k] == s);
                } else if k > p {
                    assert(old_views[k - 1] == s);
                }
            }
            if old_views.contains(s) {
                let k = choose|k: int| 0 <= k < old_views.len() && old_views[k] == s;
                if k < p {
                    assert(nv[k] == s);
                } else {
                    assert(nv[k + 1] == s);
                }
            }
            if s == x@ {
                assert(nv[p as int] == s);
            }
        }
    }
}

/// The distinct strings of `items`, in increasing lexicographic order
/// (what sorting and then removing adjacent duplicates gives).
pub fn sorted_unique(items: &Vec<String>) -> (r: Vec<String>)
    ensures
        views(r@) == sorted_set(views(items@)),
        strictly_sorted(views(r@)),
        forall|s: Seq<char>| views(r@).contains(s) <==> views(items@).contains(s),
{
    let mut r: Vec<String> = Vec::new();
    let n = items.len();
    let mut i: usize = 0;
    while i < n
        invariant
            n == items@.len(),
            i <= n,
            strictly_sorted(views(r@)),
            forall|s: Seq<char>| views(r@).contains(s) <==> views(items@.take(i as int)).contains(s),
        decreases n - i,
    {
        let x = items[i].clone();
        let ghost old_r = views(r@);
        insert_sorted_unique(&mut r, x);
        proof {
            assert(forall|s: Seq<char>| old_r.contains(s) <==> views(items@.take(i as int)).contains(s));
            let t = views(items@.take(i + 1));
            assert(t =~= views(items@.take(i as int)).push(items@[i as int]@));
            assert forall|s: Seq<char>| views(r@).contains(s) <==> t.contains(s) by {
                assert(views(r@).contains(s) == (old_r.contains(s) || s == items@[i as int]@));
                if s == items@[i as int]@ {
                    assert(t[i as int] == s);
                }
                if views(items@.take(i as int)).contains(s) {
                    let k = choose|k: int| 0 <= k < i && views(items@.take(i as int))[k] == s;
                    assert(t[k] == s);
                }
                if t.contains(s) {
                    let k = choose|k: int| 0 <= k < t.len() && t[k] == s;
                    if k < i {
                        assert(views(items@.take(i as int))[k] == s);
                    }
                }
            }
        }
        i = i + 1;
    }
    assert(items@.take(n as int) =~= items@);
    proof { lemma_sorted_set(views(r@), views(items@)); }
    r
}


/// `x` is in `a + b` exactly when it is in `a` or in `b`.
pub proof fn lemma_seq_concat_contains(a: Seq<Seq<char>>, b: Seq<Seq<char>>, x: Seq<char>)
    ensures
        (a + b).contains(x) <==> (a.contains(x) || b.contains(x)),
{
    if (a + b).contains(x) {
        let i = choose|i: int| 0 <= i < (a + b).len() && (a + b)[i] == x;
        if i >= a.len() {
            assert(b[i - a.len()] == x);
        }
    }
    if a.contains(x) {
        let i = choose|i: int| 0 <= i < a.len() && a[i] == x;
        assert((a + b)[i] == x);
    }
    if b.contains(x) {
        let i = choose|i: int| 0 <= i < b.len() && b[i] == x;
        assert((a + b)[a.len() + i] == x);
    }
}

} // verus!
