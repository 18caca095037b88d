//! Decoding lists of JSON values, one element at a time.

use vstd::prelude::*;

verus! {

/// Each element decoded by `f`, in order; `None` as soon as one fails.
pub open spec fn decode_all<A, T>(items: Seq<A>, f: spec_fn(A) -> Option<T>) -> Option<Seq<T>>
    decreases items.len(),
{
    if items.len() == 0 {
        Some(Seq::empty())
    } else {
        match (decode_all(items.drop_last(), f), f(items.last())) {
            (Some(s), Some(t)) => Some(s.push(t)),
            _ => None,
        }
    }
}

/// Decoding one more element extends the decoded prefix.
pub proof fn lemma_decode_all_step<A, T>(items: Seq<A>, f: spec_fn(A) -> Option<T>, i: int)
    requires
        0 <= i < items.len(),
    ensures
        decode_all(items.subrange(0, i + 1), f) == match (
            decode_all(items.subrange(0, i), f),
            f(items[i]),
        ) {
            (Some(s), Some(t)) => Some(s.push(t)),
            _ => None,
        },
{
    assert(items.subrange(0, i + 1).drop_last() =~= items.subrange(0, i));
}

/// A prefix that fails to decode makes the whole list fail.
pub proof fn lemma_decode_all_prefix<A, T>(items: Seq<A>, f: spec_fn(A) -> Option<T>, k: int)
    requires
        0 <= k <= items.len(),
        decode_all(items.subrange(0, k), f) is None,
    ensures
        decode_all(items, f) is None,
    decreases items.len() - k,
{
    if k == items.len() {
        assert(items.subrange(0, k) =~= items);
    } else {
        lemma_decode_all_step(items, f, k);
        lemma_decode_all_prefix(items, f, k + 1);
    }
}

/// The whole list, as a prefix of itself.
pub proof fn lemma_full_prefix<A>(items: Seq<A>)
    ensures
        items.subrange(0, items.len() as int) == items,
{
    assert(items.subrange(0, items.len() as int) =~= items);
}

} // verus!
