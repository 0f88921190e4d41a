use vstd::prelude::*;

verus! {

/// Filtering one element more of a prefix adds it at the end exactly when it
/// is kept.
pub proof fn lemma_filter_take_step<A>(s: Seq<A>, p: spec_fn(A) -> bool, i: int)
    requires
        0 <= i < s.len(),
    ensures
        s.take(i + 1).filter(p) == if p(s[i]) {
            s.take(i).filter(p).push(s[i])
        } else {
            s.take(i).filter(p)
        },
{
    reveal(Seq::filter);
    assert(s.take(i + 1).drop_last() =~= s.take(i));
    assert(s.take(i + 1).last() == s[i]);
}

/// A sequence of which no element is kept filters to nothing.
pub proof fn lemma_filter_none<A>(s: Seq<A>, p: spec_fn(A) -> bool)
    requires
        forall|j: int| 0 <= j < s.len() ==> !p(#[trigger] s[j]),
    ensures
        s.filter(p) == Seq::<A>::empty(),
    decreases s.len(),
{
    reveal(Seq::filter);
    if s.len() > 0 {
        lemma_filter_none(s.drop_last(), p);
    }
    assert(s.filter(p) =~= Seq::<A>::empty());
}

/// Removing an element that is not kept leaves the filtered sequence as it was.
pub proof fn lemma_filter_remove_unkept<A>(s: Seq<A>, p: spec_fn(A) -> bool, j: int)
    requires
        0 <= j < s.len(),
        !p(s[j]),
    ensures
        s.remove(j).filter(p) == s.filter(p),
    decreases s.len(),
{
    reveal(Seq::filter);
    if j == s.len() - 1 {
        assert(s.remove(j) =~= s.drop_last());
    } else {
        lemma_filter_remove_unkept(s.drop_last(), p, j);
        assert(s.remove(j).drop_last() =~= s.drop_last().remove(j));
        assert(s.remove(j).last() == s.last());
    }
}

/// Two sequences that agree pointwise on what `v` sees and on `p` filter to
/// sequences that agree pointwise on what `v` sees.
pub proof fn lemma_filter_same_view<A, B>(s1: Seq<A>, s2: Seq<A>, p: spec_fn(A) -> bool, v: spec_fn(A) -> B)
    requires
        s1.len() == s2.len(),
        forall|i: int| 0 <= i < s1.len() ==> p(#[trigger] s1[i]) == p(s2[i]) && v(s1[i]) == v(s2[i]),
    ensures
        s1.filter(p).len() == s2.filter(p).len(),
        forall|k: int| 0 <= k < s1.filter(p).len() ==> v(#[trigger] s1.filter(p)[k]) == v(s2.filter(p)[k]),
    decreases s1.len(),
{
    reveal(Seq::filter);
    if s1.len() > 0 {
        let (d1, d2) = (s1.drop_last(), s2.drop_last());
        assert forall|i: int| 0 <= i < d1.len() implies p(#[trigger] d1[i]) == p(d2[i]) && v(d1[i]) == v(d2[i]) by {
            assert(d1[i] == s1[i] && d2[i] == s2[i]);
        }
        lemma_filter_same_view(d1, d2, p, v);
        assert(p(s1.last()) == p(s2.last()) && v(s1.last()) == v(s2.last())) by {
            assert(s1.last() == s1[s1.len() - 1]);
            assert(s2.last() == s2[s2.len() - 1]);
        }
    }
}

} // verus!
