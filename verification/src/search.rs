//! The first element of a sequence that satisfies a predicate.

use vstd::prelude::*;

verus! {

/// The least index at or after `from` whose element satisfies `p`, or the
/// length of `s` where there is none.
pub open spec fn first_from<T>(s: Seq<T>, from: int, p: spec_fn(T) -> bool) -> int
    decreases s.len() - from,
{
    if from >= s.len() || p(s[from]) {
        from
    } else {
        first_from(s, from + 1, p)
    }
}

/// `first_from` stays inside the sequence, passes over no match, and stops
/// at one.
pub proof fn lemma_first_from<T>(s: Seq<T>, from: int, p: spec_fn(T) -> bool)
    requires
        0 <= from <= s.len(),
    ensures
        from <= first_from(s, from, p) <= s.len(),
        forall|k: int| from <= k < first_from(s, from, p) ==> !p(#[trigger] s[k]),
        first_from(s, from, p) < s.len() ==> p(s[first_from(s, from, p)]),
    decreases s.len() - from,
{
    if from < s.len() && !p(s[from]) {
        lemma_first_from(s, from + 1, p);
    }
}

/// An index of which the three facts of `lemma_first_from` hold is the one
/// that `first_from` returns.
pub proof fn lemma_first_from_is<T>(s: Seq<T>, from: int, p: spec_fn(T) -> bool, at: int)
    requires
        0 <= from <= at <= s.len(),
        forall|k: int| from <= k < at ==> !p(#[trigger] s[k]),
        at < s.len() ==> p(s[at]),
    ensures
        first_from(s, from, p) == at,
    decreases at - from,
{
    if from < at {
        lemma_first_from_is(s, from + 1, p, at);
    }
}

} // verus!
