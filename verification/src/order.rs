//! Facts about ordered sequences and their multisets, shared by the sorts of
//! the library (each an insertion sort that keeps equal items in order).
use vstd::prelude::*;
use vstd::multiset::Multiset;

verus! {

/// Every item of `v` stands in relation `le` to the one after it.
pub open spec fn chained<A>(v: Seq<A>, le: spec_fn(A, A) -> bool) -> bool {
    forall|i: int| 0 <= i < v.len() - 1 ==> #[trigger] le(v[i], v[i + 1])
}

/// Inserting `x` between neighbours it fits between keeps a chain.
pub proof fn lemma_insert_keeps_chain<A>(v: Seq<A>, p: int, x: A, le: spec_fn(A, A) -> bool)
    requires
        0 <= p <= v.len(),
        chained(v, le),
        p > 0 ==> le(v[p - 1], x),
        p < v.len() ==> le(x, v[p]),
    ensures
        chained(v.insert(p, x), le),
{
    let w = v.insert(p, x);
    assert forall|i: int| 0 <= i < w.len() - 1 implies #[trigger] le(w[i], w[i + 1]) by {
        if i + 1 < p {
            assert(le(v[i], v[i + 1]));
        } else if i + 1 == p {
        } else if i == p {
        } else {
            let j = i - 1;
            assert(le(v[j], v[j + 1]));
        }
    }
}

/// The empty sequence has the empty multiset.
pub proof fn lemma_empty_multiset<A>(s: Seq<A>)
    requires
        s.len() == 0,
    ensures
        s.to_multiset() == Multiset::<A>::empty(),
{
    broadcast use vstd::multiset::group_multiset_axioms;
    vstd::seq_lib::to_multiset_len(s);
    vstd::multiset::lemma_multiset_empty_len(s.to_multiset());
}

/// Adding the multiset of an empty sequence changes nothing.
pub proof fn lemma_empty_plus<A>(e: Seq<A>, s: Seq<A>)
    requires
        e.len() == 0,
    ensures
        e.to_multiset().add(s.to_multiset()) == s.to_multiset(),
        s.to_multiset().add(e.to_multiset()) == s.to_multiset(),
{
    broadcast use vstd::multiset::group_multiset_axioms;
    lemma_empty_multiset(e);
    assert(e.to_multiset().add(s.to_multiset()) =~= s.to_multiset());
    assert(s.to_multiset().add(e.to_multiset()) =~= s.to_multiset());
}

/// Moving the first item of `s` over to `m` keeps the sum of both.
pub proof fn lemma_take_first<A>(s: Seq<A>, m: Multiset<A>)
    requires
        s.len() > 0,
    ensures
        m.add(s.to_multiset()) == m.insert(s[0]).add(s.remove(0).to_multiset()),
{
    broadcast use vstd::multiset::group_multiset_axioms;
    vstd::seq_lib::to_multiset_remove(s, 0);
    s.to_multiset_ensures();
    assert(s.to_multiset().count(s[0]) > 0);
    assert(m.add(s.to_multiset()) =~= m.insert(s[0]).add(s.remove(0).to_multiset()));
}

/// Inserting into a sequence inserts into its multiset.
pub proof fn lemma_insert_multiset<A>(s: Seq<A>, p: int, x: A)
    requires
        0 <= p <= s.len(),
    ensures
        s.insert(p, x).to_multiset() == s.to_multiset().insert(x),
{
    vstd::seq_lib::to_multiset_insert(s, p, x);
}

} // verus!
