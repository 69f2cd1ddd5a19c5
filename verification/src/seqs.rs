//! Sequence filtering used by the registries' specifications.

use vstd::prelude::*;

verus! {

/// The elements of `s` satisfying `f`, in order.
pub open spec fn keep<A>(s: Seq<A>, f: spec_fn(A) -> bool) -> Seq<A>
    decreases s.len(),
{
    if s.len() == 0 {
        Seq::empty()
    } else {
        let rest = keep(s.drop_last(), f);
        if f(s.last()) {
            rest.push(s.last())
        } else {
            rest
        }
    }
}

/// Filtering distributes over concatenation.
pub proof fn lemma_keep_concat<A>(a: Seq<A>, b: Seq<A>, f: spec_fn(A) -> bool)
    ensures
        keep(a + b, f) == keep(a, f) + keep(b, f),
    decreases b.len(),
{
    if b.len() == 0 {
        assert(a + b =~= a);
        assert(keep(b, f) =~= Seq::<A>::empty());
        assert(keep(a, f) + keep(b, f) =~= keep(a, f));
    } else {
        lemma_keep_concat(a, b.drop_last(), f);
        assert((a + b).drop_last() =~= a + b.drop_last());
        assert((a + b).last() == b.last());
        if f(b.last()) {
            assert(keep(a, f) + keep(b.drop_last(), f).push(b.last()) =~= (keep(a, f) + keep(b.drop_last(), f)).push(b.last()));
        }
    }
}

/// Filtering a one-element sequence.
pub proof fn lemma_keep_single<A>(x: A, f: spec_fn(A) -> bool)
    ensures
        keep(seq![x], f) == (if f(x) { seq![x] } else { Seq::<A>::empty() }),
{
    assert(seq![x].drop_last() =~= Seq::<A>::empty());
    assert(seq![x].last() == x);
    assert(keep(Seq::<A>::empty(), f) =~= Seq::<A>::empty());
    assert(Seq::<A>::empty().push(x) =~= seq![x]);
}

/// Filtering a pushed sequence.
pub proof fn lemma_keep_push<A>(s: Seq<A>, x: A, f: spec_fn(A) -> bool)
    ensures
        keep(s.push(x), f) == (if f(x) { keep(s, f).push(x) } else { keep(s, f) }),
{
    assert(s.push(x).drop_last() =~= s);
}

/// An element is kept exactly when it occurs and satisfies `f`.
pub proof fn lemma_keep_contains<A>(s: Seq<A>, f: spec_fn(A) -> bool, x: A)
    ensures
        keep(s, f).contains(x) <==> s.contains(x) && f(x),
    decreases s.len(),
{
    if s.len() > 0 {
        lemma_keep_contains(s.drop_last(), f, x);
        let r = keep(s.drop_last(), f);
        if keep(s, f).contains(x) {
            let k = choose|k: int| 0 <= k < keep(s, f).len() && keep(s, f)[k] == x;
            if k < r.len() {
                assert(r[k] == x);
                let j = choose|j: int| 0 <= j < s.drop_last().len() && s.drop_last()[j] == x;
                assert(s[j] == x);
            } else {
                assert(s[s.len() - 1] == x);
            }
        }
        if s.contains(x) && f(x) {
            let j = choose|j: int| 0 <= j < s.len() && s[j] == x;
            if j < s.len() - 1 {
                assert(s.drop_last()[j] == x);
                let k = choose|k: int| 0 <= k < r.len() && r[k] == x;
                assert(keep(s, f)[k] == x);
            } else {
                assert(keep(s, f)[keep(s, f).len() - 1] == x);
            }
        }
    }
}

/// Every kept element satisfies `f` and occurs in `s`.
pub proof fn lemma_keep_elements<A>(s: Seq<A>, f: spec_fn(A) -> bool)
    ensures
        forall|k: int| 0 <= k < keep(s, f).len() ==> f(#[trigger] keep(s, f)[k]) && s.contains(keep(s, f)[k]),
        keep(s, f).len() <= s.len(),
    decreases s.len(),
{
    if s.len() > 0 {
        lemma_keep_elements(s.drop_last(), f);
        let r = keep(s.drop_last(), f);
        assert forall|k: int| 0 <= k < keep(s, f).len() implies f(#[trigger] keep(s, f)[k]) && s.contains(keep(s, f)[k]) by {
            if k < r.len() {
                assert(keep(s, f)[k] == r[k]);
                assert(f(r[k]) && s.drop_last().contains(r[k]));
                let j = choose|j: int| 0 <= j < s.drop_last().len() && s.drop_last()[j] == r[k];
                assert(s[j] == r[k]);
            } else {
                assert(s[s.len() - 1] == keep(s, f)[k]);
            }
        }
    }
}

/// Filtering keeps nothing when no element satisfies `f`.
pub proof fn lemma_keep_none<A>(s: Seq<A>, f: spec_fn(A) -> bool)
    requires
        forall|k: int| 0 <= k < s.len() ==> !f(#[trigger] s[k]),
    ensures
        keep(s, f) == Seq::<A>::empty(),
    decreases s.len(),
{
    if s.len() > 0 {
        assert(!f(s[s.len() - 1]));
        assert forall|k: int| 0 <= k < s.drop_last().len() implies !f(#[trigger] s.drop_last()[k]) by {
            assert(s.drop_last()[k] == s[k]);
        }
        lemma_keep_none(s.drop_last(), f);
    }
}

} // verus!

verus! {

/// Filtering commutes with mapping when the predicates agree.
pub proof fn lemma_keep_map<A, B>(s: Seq<A>, f: spec_fn(A) -> B, p: spec_fn(A) -> bool, q: spec_fn(B) -> bool)
    requires
        forall|i: int| 0 <= i < s.len() ==> p(#[trigger] s[i]) == q(f(s[i])),
    ensures
        keep(s, p).map_values(f) == keep(s.map_values(f), q),
    decreases s.len(),
{
    if s.len() > 0 {
        assert forall|i: int| 0 <= i < s.drop_last().len() implies p(#[trigger] s.drop_last()[i]) == q(f(s.drop_last()[i])) by {
            assert(s.drop_last()[i] == s[i]);
        }
        lemma_keep_map(s.drop_last(), f, p, q);
        assert(s.map_values(f).drop_last() =~= s.drop_last().map_values(f));
        assert(s.map_values(f).last() == f(s.last()));
        assert(p(s[s.len() - 1]) == q(f(s[s.len() - 1])));
        if p(s.last()) {
            assert(keep(s.drop_last(), p).push(s.last()).map_values(f) =~= keep(s.drop_last(), p).map_values(f).push(f(s.last())));
        }
    } else {
        assert(keep(s, p).map_values(f) =~= Seq::<B>::empty());
    }
}

} // verus!
