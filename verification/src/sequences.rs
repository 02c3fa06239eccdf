//! Facts about selecting from sequences.

use vstd::prelude::*;

verus! {

/// What is selected from a position is among what is selected.
pub proof fn lemma_selected<A, B>(s: Seq<A>, f: spec_fn(A) -> Option<B>, i: int) -> (p: int)
    requires
        0 <= i < s.len(),
        f(s[i]) is Some,
    ensures
        0 <= p < s.filter_map(f).len(),
        s.filter_map(f)[p] == f(s[i])->0,
    decreases s.len(),
{
    let rest = s.drop_last();
    if i < rest.len() {
        assert(rest[i] == s[i]);
        lemma_selected(rest, f, i)
    } else {
        s.filter_map(f).len() - 1
    }
}

/// What is selected comes from some position.
pub proof fn lemma_selected_from<A, B>(s: Seq<A>, f: spec_fn(A) -> Option<B>, p: int) -> (i: int)
    requires
        0 <= p < s.filter_map(f).len(),
    ensures
        0 <= i < s.len(),
        f(s[i]) == Some(s.filter_map(f)[p]),
    decreases s.len(),
{
    let rest = s.drop_last();
    if p < rest.filter_map(f).len() {
        let i = lemma_selected_from(rest, f, p);
        assert(rest[i] == s[i]);
        i
    } else {
        s.len() - 1
    }
}

/// Selecting keeps the order.
pub proof fn lemma_selected_in_order<A, B>(
    s: Seq<A>,
    f: spec_fn(A) -> Option<B>,
    p: int,
    q: int,
) -> (r: (int, int))
    requires
        0 <= p < q < s.filter_map(f).len(),
    ensures
        0 <= r.0 < r.1 < s.len(),
        f(s[r.0]) == Some(s.filter_map(f)[p]),
        f(s[r.1]) == Some(s.filter_map(f)[q]),
    decreases s.len(),
{
    let rest = s.drop_last();
    if q < rest.filter_map(f).len() {
        let r = lemma_selected_in_order(rest, f, p, q);
        assert(rest[r.0] == s[r.0] && rest[r.1] == s[r.1]);
        r
    } else {
        let i = lemma_selected_from(rest, f, p);
        assert(rest[i] == s[i]);
        (i, s.len() - 1)
    }
}

/// Nothing is selected where nothing is to be.
pub proof fn lemma_none_selected<A, B>(s: Seq<A>, f: spec_fn(A) -> Option<B>)
    requires
        forall|i: int| 0 <= i < s.len() ==> f(#[trigger] s[i]) is None,
    ensures
        s.filter_map(f) == Seq::<B>::empty(),
{
    if s.filter_map(f).len() > 0 {
        let i = lemma_selected_from(s, f, 0);
        assert(f(s[i]) is None);
    }
}

/// Selecting from a sum selects from each part.
pub proof fn lemma_selected_sum<A, B>(a: Seq<A>, b: Seq<A>, f: spec_fn(A) -> Option<B>)
    ensures
        (a + b).filter_map(f) == a.filter_map(f) + b.filter_map(f),
    decreases b.len(),
{
    if b.len() == 0 {
        assert(a + b =~= a);
        assert(a.filter_map(f) + b.filter_map(f) =~= a.filter_map(f));
    } else {
        lemma_selected_sum(a, b.drop_last(), f);
        assert((a + b).drop_last() =~= a + b.drop_last());
        assert((a + b).filter_map(f) =~= a.filter_map(f) + b.filter_map(f));
    }
}

/// Everything is kept where everything passes.
pub proof fn lemma_all_kept<A>(s: Seq<A>, p: spec_fn(A) -> bool)
    requires
        forall|i: int| 0 <= i < s.len() ==> p(#[trigger] s[i]),
    ensures
        s.filter(p) == s,
    decreases s.len(),
{
    reveal(Seq::filter);
    if s.len() > 0 {
        assert forall|i: int| 0 <= i < s.drop_last().len() implies p(
            #[trigger] s.drop_last()[i],
        ) by {
            assert(s.drop_last()[i] == s[i]);
        }
        lemma_all_kept(s.drop_last(), p);
        assert(p(s[s.len() - 1]));
        assert(s.drop_last().push(s.last()) =~= s);
    }
}

/// Nothing is kept where nothing passes.
pub proof fn lemma_none_kept<A>(s: Seq<A>, p: spec_fn(A) -> bool)
    requires
        forall|i: int| 0 <= i < s.len() ==> !p(#[trigger] s[i]),
    ensures
        s.filter(p) == Seq::<A>::empty(),
    decreases s.len(),
{
    reveal(Seq::filter);
    if s.len() > 0 {
        assert forall|i: int| 0 <= i < s.drop_last().len() implies !p(
            #[trigger] s.drop_last()[i],
        ) by {
            assert(s.drop_last()[i] == s[i]);
        }
        lemma_none_kept(s.drop_last(), p);
        assert(!p(s[s.len() - 1]));
    }
}

/// Keeping from a sum keeps from each part.
pub proof fn lemma_kept_sum<A>(a: Seq<A>, b: Seq<A>, c: Seq<A>, p: spec_fn(A) -> bool)
    ensures
        (a + b + c).filter(p) == a.filter(p) + b.filter(p) + c.filter(p),
{
    Seq::filter_distributes_over_add(a + b, c, p);
    Seq::filter_distributes_over_add(a, b, p);
}

} // verus!
