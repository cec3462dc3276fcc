//! The first place in a sequence at which a predicate holds.
use vstd::prelude::*;

verus! {

/// The first index at which `pred` holds, or the length where it holds
/// nowhere.
pub open spec fn first_where<T>(s: Seq<T>, pred: spec_fn(T) -> bool) -> int
    decreases s.len(),
{
    if s.len() == 0 {
        0
    } else if pred(s[0]) {
        0
    } else {
        1 + first_where(s.drop_first(), pred)
    }
}

/// `first_where` is in range, `pred` fails everywhere before it, and holds
/// at it if it is an index.
pub proof fn lemma_first_where<T>(s: Seq<T>, pred: spec_fn(T) -> bool)
    ensures
        0 <= first_where(s, pred) <= s.len(),
        forall|k: int| 0 <= k < first_where(s, pred) ==> !pred(#[trigger] s[k]),
        first_where(s, pred) < s.len() ==> pred(s[first_where(s, pred)]),
    decreases s.len(),
{
    if s.len() > 0 && !pred(s[0]) {
        let t = s.drop_first();
        lemma_first_where(t, pred);
        assert forall|k: int| 0 <= k < first_where(s, pred) implies !pred(#[trigger] s[k]) by {
            if k > 0 {
                assert(s[k] == t[k - 1]);
            }
        }
    }
}

/// The place that `lemma_first_where` describes is the only one.
pub proof fn lemma_first_where_is<T>(s: Seq<T>, pred: spec_fn(T) -> bool, p: int)
    requires
        0 <= p <= s.len(),
        forall|k: int| 0 <= k < p ==> !pred(#[trigger] s[k]),
        p < s.len() ==> pred(s[p]),
    ensures
        first_where(s, pred) == p,
{
    lemma_first_where(s, pred);
    let q = first_where(s, pred);
    if q < p {
        assert(!pred(s[q]));
    } else if p < q {
        assert(!pred(s[p]));
    }
}

/// The views of a list of strings.
pub open spec fn texts(v: Seq<String>) -> Seq<Seq<char>> {
    Seq::new(v.len(), |i: int| v[i]@)
}

} // verus!
