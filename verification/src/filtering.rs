//! Small general facts about filtered sequences: how a filter grows row by
//! row, and what its first match is. The query layer's scans are proved
//! against these.

use vstd::prelude::*;

verus! {

/// Appending an element extends the filtered sequence exactly when the
/// element satisfies the predicate.
pub proof fn lemma_filter_push<A>(s: Seq<A>, x: A, p: spec_fn(A) -> bool)
    ensures
        s.push(x).filter(p) == if p(x) {
            s.filter(p).push(x)
        } else {
            s.filter(p)
        },
{
    assert(s.push(x).drop_last() =~= s);
    reveal_with_fuel(Seq::filter, 1);
    assert(s.push(x).last() == x);
}

/// A sequence none of whose elements matches filters to nothing.
pub proof fn lemma_filter_all_miss<A>(s: Seq<A>, p: spec_fn(A) -> bool)
    requires
        forall|k: int| 0 <= k < s.len() ==> !p(#[trigger] s[k]),
    ensures
        s.filter(p) == Seq::<A>::empty(),
    decreases s.len(),
{
    reveal_with_fuel(Seq::filter, 1);
    if s.len() > 0 {
        let pre = s.drop_last();
        assert(forall|k: int| 0 <= k < pre.len() ==> !p(#[trigger] pre[k]));
        lemma_filter_all_miss(pre, p);
        assert(pre.push(s.last()) =~= s);
        lemma_filter_push(pre, s.last(), p);
    }
}

/// A sequence all of whose elements match filters to itself.
pub proof fn lemma_filter_all_match<A>(s: Seq<A>, p: spec_fn(A) -> bool)
    requires
        forall|k: int| 0 <= k < s.len() ==> p(#[trigger] s[k]),
    ensures
        s.filter(p) == s,
    decreases s.len(),
{
    reveal_with_fuel(Seq::filter, 1);
    if s.len() > 0 {
        let pre = s.drop_last();
        assert(forall|k: int| 0 <= k < pre.len() ==> p(#[trigger] pre[k]));
        lemma_filter_all_match(pre, p);
        assert(pre.push(s.last()) =~= s);
        lemma_filter_push(pre, s.last(), p);
        assert(pre.filter(p).push(s.last()) =~= s);
    }
}

/// The first matching element heads the filtered sequence.
pub proof fn lemma_filter_first<A>(s: Seq<A>, i: int, p: spec_fn(A) -> bool)
    requires
        0 <= i < s.len(),
        p(s[i]),
        forall|j: int| 0 <= j < i ==> !p(#[trigger] s[j]),
    ensures
        s.filter(p).len() > 0,
        s.filter(p)[0] == s[i],
{
    let head = s.take(i + 1);
    let tail = s.skip(i + 1);
    assert(head + tail =~= s);
    Seq::filter_distributes_over_add(head, tail, p);
    assert(s.take(i).push(s[i]) =~= head);
    lemma_filter_push(s.take(i), s[i], p);
    assert(forall|k: int| 0 <= k < i ==> !p(#[trigger] s.take(i)[k])) by {
        assert(forall|k: int| 0 <= k < i ==> (#[trigger] s.take(i)[k]) == s[k]);
    }
    lemma_filter_all_miss(s.take(i), p);
    assert(s.filter(p) == Seq::<A>::empty().push(s[i]) + tail.filter(p));
    assert(s.filter(p)[0] == s[i]);
}

/// Every element of the filtered sequence stands in the original.
pub proof fn lemma_filter_subset<A>(s: Seq<A>, p: spec_fn(A) -> bool, i: int)
    requires
        0 <= i < s.filter(p).len(),
    ensures
        exists|j: int| 0 <= j < s.len() && #[trigger] s[j] == s.filter(p)[i],
    decreases s.len(),
{
    reveal_with_fuel(Seq::filter, 1);
    if s.len() > 0 {
        let pre = s.drop_last();
        assert(pre.push(s.last()) =~= s);
        lemma_filter_push(pre, s.last(), p);
        if p(s.last()) && i == s.filter(p).len() - 1 {
            assert(s[s.len() - 1] == s.filter(p)[i]);
        } else {
            assert(pre.filter(p)[i] == s.filter(p)[i]);
            lemma_filter_subset(pre, p, i);
            let j = choose|j: int| 0 <= j < pre.len() && #[trigger] pre[j] == pre.filter(p)[i];
            assert(s[j] == s.filter(p)[i]);
        }
    }
}

} // verus!
