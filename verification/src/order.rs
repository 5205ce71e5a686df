//! Orderings of text and a stable insertion sort over indices.
//!
//! Strings compare as `str` does in Rust: lexicographically by bytes, which for UTF-8 is the
//! order of code points.
use vstd::prelude::*;
use crate::text::chars_of;

verus! {

/// `a` orders strictly before `b`, character by character.
pub open spec fn lex_lt(a: Seq<char>, b: Seq<char>) -> bool
    decreases a.len(),
{
    if a.len() == 0 {
        b.len() > 0
    } else if b.len() == 0 {
        false
    } else if a[0] != b[0] {
        (a[0] as int) < (b[0] as int)
    } else {
        lex_lt(a.drop_first(), b.drop_first())
    }
}

/// The order of pairs of strings, first component first.
pub open spec fn pair_lt(a1: Seq<char>, a2: Seq<char>, b1: Seq<char>, b2: Seq<char>) -> bool {
    lex_lt(a1, b1) || (a1 == b1 && lex_lt(a2, b2))
}

proof fn lemma_lex_lt_skip(a: Seq<char>, b: Seq<char>, i: int)
    requires
        0 <= i <= a.len(),
        i <= b.len(),
        a.take(i) == b.take(i),
    ensures
        lex_lt(a, b) == lex_lt(a.skip(i), b.skip(i)),
    decreases i,
{
    if i > 0 {
        assert(a[0] == a.take(i)[0]);
        assert(b[0] == b.take(i)[0]);
        assert(a.drop_first().take(i - 1) =~= a.take(i).drop_first());
        assert(b.drop_first().take(i - 1) =~= b.take(i).drop_first());
        lemma_lex_lt_skip(a.drop_first(), b.drop_first(), i - 1);
        assert(a.drop_first().skip(i - 1) =~= a.skip(i));
        assert(b.drop_first().skip(i - 1) =~= b.skip(i));
    } else {
        assert(a.skip(0) =~= a);
        assert(b.skip(0) =~= b);
    }
}

/// `lex_lt` is a strict total order: irreflexive, asymmetric, transitive, and any two
/// different strings are ordered one way or the other.
pub proof fn lemma_lex_lt_order(a: Seq<char>, b: Seq<char>, c: Seq<char>)
    ensures
        !lex_lt(a, a),
        lex_lt(a, b) ==> !lex_lt(b, a),
        lex_lt(a, b) && lex_lt(b, c) ==> lex_lt(a, c),
        a != b ==> lex_lt(a, b) || lex_lt(b, a),
    decreases a.len(),
{
    if a.len() > 0 && b.len() > 0 {
        let c1 = if c.len() > 0 {
            c.drop_first()
        } else {
            c
        };
        lemma_lex_lt_order(a.drop_first(), b.drop_first(), c1);
    } else if a.len() > 0 {
        lemma_lex_lt_order(a.drop_first(), a.drop_first(), a.drop_first());
    }
    if a.len() > 0 && b.len() > 0 && a[0] == b[0] && a.drop_first() == b.drop_first() {
        assert(a =~= seq![a[0]] + a.drop_first());
        assert(b =~= seq![b[0]] + b.drop_first());
    }
    if a.len() == 0 && b.len() == 0 {
        assert(a =~= b);
    }
}

/// `pair_lt` is a strict total order on pairs of strings.
pub proof fn lemma_pair_lt_order(
    a1: Seq<char>,
    a2: Seq<char>,
    b1: Seq<char>,
    b2: Seq<char>,
    c1: Seq<char>,
    c2: Seq<char>,
)
    ensures
        !pair_lt(a1, a2, a1, a2),
        pair_lt(a1, a2, b1, b2) ==> !pair_lt(b1, b2, a1, a2),
        pair_lt(a1, a2, b1, b2) && pair_lt(b1, b2, c1, c2) ==> pair_lt(a1, a2, c1, c2),
        (a1, a2) != (b1, b2) ==> pair_lt(a1, a2, b1, b2) || pair_lt(b1, b2, a1, a2),
{
    lemma_lex_lt_order(a1, b1, c1);
    lemma_lex_lt_order(a2, b2, c2);
    lemma_lex_lt_order(b1, a1, a1);
    lemma_lex_lt_order(b2, a2, a2);
}

/// Under `pair_lt`, "not after" is transitive.
pub proof fn lemma_pair_not_lt_trans(
    a1: Seq<char>,
    a2: Seq<char>,
    b1: Seq<char>,
    b2: Seq<char>,
    c1: Seq<char>,
    c2: Seq<char>,
)
    requires
        !pair_lt(b1, b2, a1, a2),
        !pair_lt(c1, c2, b1, b2),
    ensures
        !pair_lt(c1, c2, a1, a2),
{
    lemma_pair_lt_order(a1, a2, b1, b2, c1, c2);
    lemma_pair_lt_order(c1, c2, a1, a2, b1, b2);
    lemma_pair_lt_order(b1, b2, c1, c2, a1, a2);
}

/// Whether `a` orders strictly before `b`.
pub fn str_lt(a: &str, b: &str) -> (r: bool)
    ensures
        r == lex_lt(a@, b@),
{
    let x = chars_of(a);
    let y = chars_of(b);
    let mut i: usize = 0;
    while i < x.len() && i < y.len() && x[i] == y[i]
        invariant
            x@ == a@,
            y@ == b@,
            i <= x.len(),
            i <= y.len(),
            x@.take(i as int) == y@.take(i as int),
        decreases x.len() - i,
    {
        assert(x@.take(i + 1) =~= x@.take(i as int).push(x@[i as int]));
        assert(y@.take(i + 1) =~= y@.take(i as int).push(y@[i as int]));
        i = i + 1;
    }
    proof {
        lemma_lex_lt_skip(x@, y@, i as int);
    }
    if i == x.len() {
        assert(x@.skip(i as int).len() == 0);
        i < y.len()
    } else if i == y.len() {
        false
    } else {
        assert(x@.skip(i as int)[0] == x@[i as int]);
        assert(y@.skip(i as int)[0] == y@[i as int]);
        x[i] < y[i]
    }
}

/// Inserts `x` into `t` after every element that `x` does not go before: the step of a stable
/// insertion sort.
pub open spec fn insert_by(t: Seq<usize>, x: usize, before: spec_fn(usize, usize) -> bool) -> Seq<
    usize,
>
    decreases t.len(),
{
    if t.len() == 0 {
        seq![x]
    } else if before(x, t.last()) {
        insert_by(t.drop_last(), x, before).push(t.last())
    } else {
        t.push(x)
    }
}

/// The stable sort of `s` by the strict order `before`, as insertion sort builds it.
pub open spec fn sort_by(s: Seq<usize>, before: spec_fn(usize, usize) -> bool) -> Seq<usize>
    decreases s.len(),
{
    if s.len() == 0 {
        Seq::empty()
    } else {
        insert_by(sort_by(s.drop_last(), before), s.last(), before)
    }
}

pub proof fn lemma_insert_by_len(t: Seq<usize>, x: usize, before: spec_fn(usize, usize) -> bool)
    ensures
        insert_by(t, x, before).len() == t.len() + 1,
        insert_by(t, x, before).to_multiset() == t.to_multiset().insert(x),
    decreases t.len(),
{
    broadcast use vstd::seq_lib::group_seq_properties;
    broadcast use vstd::multiset::group_multiset_axioms;
    if t.len() > 0 {
        lemma_insert_by_len(t.drop_last(), x, before);
        if before(x, t.last()) {
            assert(t =~= t.drop_last().push(t.last()));
        }
    }
}

/// The sort of `s` holds the same indices as `s`.
pub proof fn lemma_sort_by_permutes(s: Seq<usize>, before: spec_fn(usize, usize) -> bool)
    ensures
        sort_by(s, before).len() == s.len(),
        sort_by(s, before).to_multiset() == s.to_multiset(),
    decreases s.len(),
{
    broadcast use vstd::seq_lib::group_seq_properties;
    if s.len() > 0 {
        lemma_sort_by_permutes(s.drop_last(), before);
        lemma_insert_by_len(sort_by(s.drop_last(), before), s.last(), before);
        assert(s =~= s.drop_last().push(s.last()));
    }
}

/// The sort of `s` holds exactly the elements of `s`.
pub proof fn lemma_sort_by_contains(s: Seq<usize>, before: spec_fn(usize, usize) -> bool, x: usize)
    ensures
        sort_by(s, before).contains(x) == s.contains(x),
{
    broadcast use vstd::seq_lib::group_seq_properties;
    lemma_sort_by_permutes(s, before);
    sort_by(s, before).to_multiset_ensures();
    s.to_multiset_ensures();
    assert(sort_by(s, before).to_multiset().count(x) == s.to_multiset().count(x));
}

/// No element of `s` goes before an element that comes earlier in `s`.
pub open spec fn sorted_by(s: Seq<usize>, before: spec_fn(usize, usize) -> bool) -> bool {
    forall|i: int, j: int| 0 <= i < j < s.len() ==> !before(#[trigger] s[j], #[trigger] s[i])
}

/// `before` is a strict weak order on the values that `dom` accepts: asymmetric, and "does
/// not go before" is transitive.
pub open spec fn strict_weak_on(before: spec_fn(usize, usize) -> bool, dom: spec_fn(usize) -> bool) -> bool {
    &&& forall|a: usize, b: usize| dom(a) && dom(b) && #[trigger] before(a, b) ==> !before(b, a)
    &&& forall|a: usize, b: usize, c: usize|
        #![trigger before(a, b), before(b, c)]
        dom(a) && dom(b) && dom(c) && !before(a, b) && !before(b, c) ==> !before(a, c)
}

/// The indices below `n`.
pub open spec fn below(n: nat) -> spec_fn(usize) -> bool {
    |i: usize| i < n
}

proof fn lemma_insert_by_sorted(
    t: Seq<usize>,
    x: usize,
    before: spec_fn(usize, usize) -> bool,
    dom: spec_fn(usize) -> bool,
)
    requires
        sorted_by(t, before),
        strict_weak_on(before, dom),
        dom(x),
        forall|k: int| 0 <= k < t.len() ==> dom(#[trigger] t[k]),
    ensures
        sorted_by(insert_by(t, x, before), before),
        insert_by(t, x, before).len() == t.len() + 1,
        forall|k: int|
            0 <= k < insert_by(t, x, before).len() ==> #[trigger] insert_by(t, x, before)[k] == x
                || t.contains(insert_by(t, x, before)[k]),
    decreases t.len(),
{
    if t.len() == 0 {
        assert(insert_by(t, x, before) =~= seq![x]);
    } else if before(x, t.last()) {
        let t0 = t.drop_last();
        lemma_insert_by_sorted(t0, x, before, dom);
        let r0 = insert_by(t0, x, before);
        let r = r0.push(t.last());
        assert(r == insert_by(t, x, before));
        assert(dom(t[t.len() - 1]));
        assert forall|i: int, j: int| 0 <= i < j < r.len() implies !before(#[trigger] r[j], #[trigger] r[i]) by {
            if j == r.len() - 1 {
                assert(r[i] == r0[i]);
                if r0[i] != x {
                    assert(t0.contains(r0[i]));
                    let k = choose|k: int| 0 <= k < t0.len() && t0[k] == r0[i];
                    assert(t[k] == t0[k]);
                    assert(!before(t[t.len() - 1], t[k]));
                }
            } else {
                assert(r[i] == r0[i] && r[j] == r0[j]);
            }
        }
        assert forall|k: int| 0 <= k < r.len() implies #[trigger] r[k] == x || t.contains(r[k]) by {
            if k < r0.len() {
                assert(r[k] == r0[k]);
                if r0[k] != x {
                    assert(t0.contains(r0[k]));
                    let j = choose|j: int| 0 <= j < t0.len() && t0[j] == r0[k];
                    assert(t[j] == t0[j]);
                }
            } else {
                assert(t[t.len() - 1] == r[k]);
            }
        }
    } else {
        let r = t.push(x);
        assert(r == insert_by(t, x, before));
        assert(dom(t[t.len() - 1]));
        assert forall|i: int, j: int| 0 <= i < j < r.len() implies !before(#[trigger] r[j], #[trigger] r[i]) by {
            if j == r.len() - 1 {
                assert(r[i] == t[i]);
                if i < t.len() - 1 {
                    assert(!before(t[t.len() - 1], t[i]));
                    assert(dom(t[i]));
                }
            } else {
                assert(r[i] == t[i] && r[j] == t[j]);
            }
        }
        assert forall|k: int| 0 <= k < r.len() implies #[trigger] r[k] == x || t.contains(r[k]) by {
            if k < t.len() {
                assert(r[k] == t[k]);
            }
        }
    }
}

/// Sorting by a strict weak order gives a sorted sequence.
pub proof fn lemma_sort_by_sorted(s: Seq<usize>, before: spec_fn(usize, usize) -> bool, dom: spec_fn(usize) -> bool)
    requires
        strict_weak_on(before, dom),
        forall|k: int| 0 <= k < s.len() ==> dom(#[trigger] s[k]),
    ensures
        sorted_by(sort_by(s, before), before),
    decreases s.len(),
{
    if s.len() > 0 {
        let s0 = s.drop_last();
        assert forall|k: int| 0 <= k < s0.len() implies dom(#[trigger] s0[k]) by {
            assert(s0[k] == s[k]);
        }
        lemma_sort_by_sorted(s0, before, dom);
        let t = sort_by(s0, before);
        assert forall|k: int| 0 <= k < t.len() implies dom(#[trigger] t[k]) by {
            lemma_sort_by_contains(s0, before, t[k]);
            assert(t.contains(t[k]));
            let j = choose|j: int| 0 <= j < s0.len() && s0[j] == t[k];
        }
        assert(dom(s[s.len() - 1]));
        lemma_insert_by_sorted(t, s.last(), before, dom);
    }
}

/// Keeping some elements of a sorted sequence leaves it sorted.
pub proof fn lemma_keep_sorted(s: Seq<usize>, p: spec_fn(usize) -> bool, before: spec_fn(usize, usize) -> bool)
    requires
        sorted_by(s, before),
    ensures
        sorted_by(keep(s, p), before),
        forall|k: int| 0 <= k < keep(s, p).len() ==> s.contains(#[trigger] keep(s, p)[k]),
    decreases s.len(),
{
    if s.len() > 0 {
        let s0 = s.drop_last();
        assert(sorted_by(s0, before)) by {
            assert forall|i: int, j: int| 0 <= i < j < s0.len() implies !before(#[trigger] s0[j], #[trigger] s0[i]) by {
                assert(s0[i] == s[i] && s0[j] == s[j]);
            }
        }
        lemma_keep_sorted(s0, p, before);
        let k0 = keep(s0, p);
        if p(s.last()) {
            let r = k0.push(s.last());
            assert forall|i: int, j: int| 0 <= i < j < r.len() implies !before(#[trigger] r[j], #[trigger] r[i]) by {
                assert(r[i] == k0[i]);
                if j == r.len() - 1 {
                    assert(s0.contains(k0[i]));
                    let m = choose|m: int| 0 <= m < s0.len() && s0[m] == k0[i];
                    assert(s[m] == s0[m]);
                    assert(!before(s[s.len() - 1], s[m]));
                } else {
                    assert(r[j] == k0[j]);
                }
            }
        }
        assert forall|k: int| 0 <= k < keep(s, p).len() implies s.contains(#[trigger] keep(s, p)[k]) by {
            if k < k0.len() {
                assert(keep(s, p)[k] == k0[k]);
                assert(s0.contains(k0[k]));
                let m = choose|m: int| 0 <= m < s0.len() && s0[m] == k0[k];
                assert(s[m] == s0[m]);
            } else {
                assert(s[s.len() - 1] == keep(s, p)[k]);
            }
        }
    }
}

/// Inserts `x` into `v` where `insert_by` puts it.
pub fn insert_sorted<F: Fn(usize, usize) -> bool>(
    v: &mut Vec<usize>,
    x: usize,
    before: &F,
    Ghost(spec_before): Ghost<spec_fn(usize, usize) -> bool>,
)
    requires
        forall|a: usize, b: usize| #[trigger] before.requires((a, b)),
        forall|a: usize, b: usize, r: bool|
            before.ensures((a, b), r) ==> r == spec_before(a, b),
    ensures
        final(v)@ == insert_by(old(v)@, x, spec_before),
{
    let ghost t = v@;
    let mut j = v.len();
    assert(t.take(j as int) =~= t);
    assert(insert_by(t, x, spec_before) + t.skip(j as int) =~= insert_by(t, x, spec_before));
    while j > 0 && before(x, v[j - 1])
        invariant
            v@ == t,
            j <= t.len(),
            forall|a: usize, b: usize| #[trigger] before.requires((a, b)),
            forall|a: usize, b: usize, r: bool|
                before.ensures((a, b), r) ==> r == spec_before(a, b),
            insert_by(t, x, spec_before) == insert_by(t.take(j as int), x, spec_before) + t.skip(
                j as int,
            ),
        decreases j,
    {
        let ghost tj = t.take(j as int);
        assert(tj.last() == t[j - 1]);
        assert(tj.drop_last() =~= t.take(j - 1));
        assert(t.skip(j - 1) =~= seq![t[j - 1]] + t.skip(j as int));
        assert(insert_by(tj, x, spec_before) == insert_by(t.take(j - 1), x, spec_before).push(
            t[j - 1],
        ));
        assert(insert_by(t.take(j - 1), x, spec_before).push(t[j - 1]) + t.skip(j as int)
            =~= insert_by(t.take(j - 1), x, spec_before) + t.skip(j - 1));
        j = j - 1;
    }
    proof {
        let tj = t.take(j as int);
        if j == 0 {
            assert(insert_by(tj, x, spec_before) == seq![x]);
        } else {
            assert(tj.last() == t[j - 1]);
            assert(insert_by(tj, x, spec_before) == tj.push(x));
        }
        assert(tj.push(x) + t.skip(j as int) =~= t.insert(j as int, x));
    }
    v.insert(j, x);
}

/// Sorts `v` stably by `before`.
pub fn sort_indices<F: Fn(usize, usize) -> bool>(
    v: Vec<usize>,
    before: &F,
    Ghost(spec_before): Ghost<spec_fn(usize, usize) -> bool>,
) -> (r: Vec<usize>)
    requires
        forall|a: usize, b: usize| #[trigger] before.requires((a, b)),
        forall|a: usize, b: usize, r: bool|
            before.ensures((a, b), r) ==> r == spec_before(a, b),
    ensures
        r@ == sort_by(v@, spec_before),
{
    let mut out: Vec<usize> = Vec::new();
    let mut i: usize = 0;
    while i < v.len()
        invariant
            i <= v.len(),
            forall|a: usize, b: usize| #[trigger] before.requires((a, b)),
            forall|a: usize, b: usize, r: bool|
                before.ensures((a, b), r) ==> r == spec_before(a, b),
            out@ == sort_by(v@.take(i as int), spec_before),
        decreases v.len() - i,
    {
        assert(v@.take(i + 1).drop_last() =~= v@.take(i as int));
        insert_sorted(&mut out, v[i], before, Ghost(spec_before));
        i = i + 1;
    }
    assert(v@.take(v.len() as int) =~= v@);
    out
}

/// The elements of `s` that satisfy `p`, in order.
pub open spec fn keep(s: Seq<usize>, p: spec_fn(usize) -> bool) -> Seq<usize>
    decreases s.len(),
{
    if s.len() == 0 {
        Seq::empty()
    } else if p(s.last()) {
        keep(s.drop_last(), p).push(s.last())
    } else {
        keep(s.drop_last(), p)
    }
}

/// Keeps the elements of `v` that `p` accepts.
pub fn keep_indices<F: Fn(usize) -> bool>(
    v: &Vec<usize>,
    p: &F,
    Ghost(spec_p): Ghost<spec_fn(usize) -> bool>,
) -> (r: Vec<usize>)
    requires
        forall|a: usize| #[trigger] p.requires((a,)),
        forall|a: usize, r: bool| p.ensures((a,), r) ==> r == spec_p(a),
    ensures
        r@ == keep(v@, spec_p),
{
    let mut out: Vec<usize> = Vec::new();
    let mut i: usize = 0;
    while i < v.len()
        invariant
            i <= v.len(),
            forall|a: usize| #[trigger] p.requires((a,)),
            forall|a: usize, r: bool| p.ensures((a,), r) ==> r == spec_p(a),
            out@ == keep(v@.take(i as int), spec_p),
        decreases v.len() - i,
    {
        assert(v@.take(i + 1).drop_last() =~= v@.take(i as int));
        if p(v[i]) {
            out.push(v[i]);
        }
        i = i + 1;
    }
    assert(v@.take(v.len() as int) =~= v@);
    out
}

} // verus!
