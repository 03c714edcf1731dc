//! Facts about filtered sequences that the selectors' laws rest on.
use vstd::prelude::*;

verus! {

/// Everything a filter keeps was in the sequence and meets the predicate.
pub proof fn lemma_filter_subset<A>(s: Seq<A>, f: spec_fn(A) -> bool)
    ensures
        forall|i: int|
            0 <= i < s.filter(f).len() ==> s.contains(#[trigger] s.filter(f)[i]) && f(
                s.filter(f)[i],
            ),
    decreases s.len(),
{
    reveal_with_fuel(Seq::filter, 1);
    if s.len() > 0 {
        let t = s.drop_last();
        lemma_filter_subset(t, f);
        let out = s.filter(f);
        assert forall|i: int| 0 <= i < out.len() implies s.contains(#[trigger] out[i]) && f(
            out[i],
        ) by {
            if i < t.filter(f).len() {
                assert(out[i] == t.filter(f)[i]);
                let j = choose|j: int| 0 <= j < t.len() && t[j] == t.filter(f)[i];
                assert(s[j] == out[i]);
            } else {
                assert(out[i] == s[s.len() - 1]);
            }
        }
    }
}

/// Everything in the sequence that meets the predicate is kept.
pub proof fn lemma_filter_keeps<A>(s: Seq<A>, f: spec_fn(A) -> bool, a: A)
    requires
        s.contains(a),
        f(a),
    ensures
        s.filter(f).contains(a),
{
    s.lemma_filter_contains_rev(f, a);
}

/// Filtering with a predicate every element meets keeps everything.
pub proof fn lemma_filter_all<A>(s: Seq<A>, f: spec_fn(A) -> bool)
    requires
        forall|a: A| #[trigger] f(a),
    ensures
        s.filter(f) == s,
    decreases s.len(),
{
    reveal_with_fuel(Seq::filter, 1);
    if s.len() > 0 {
        lemma_filter_all(s.drop_last(), f);
        assert(s.drop_last().push(s.last()) =~= s);
    } else {
        assert(s.filter(f) =~= s);
    }
}

} // verus!
