//! The class that a prediction favours.
//!
//! Predictions are reals and reach this module as keys: one integer per
//! class, ordered as the predictions are under the total order of their
//! number format. Equal keys mean equal predictions.

use vstd::prelude::*;

verus! {

/// `at` is the place of a greatest key, and of the last one where several
/// are greatest.
pub open spec fn is_argmax(keys: Seq<i64>, at: int) -> bool {
    &&& 0 <= at < keys.len()
    &&& forall|j: int| 0 <= j < keys.len() ==> keys[j] <= keys[at]
    &&& forall|j: int| at < j < keys.len() ==> keys[j] < keys[at]
}

/// The place of the greatest key, the last of them where several are
/// greatest; `None` where there is no key.
pub fn argmax(keys: &Vec<i64>) -> (r: Option<usize>)
    ensures
        r is None <==> keys@.len() == 0,
        r matches Some(at) ==> is_argmax(keys@, at as int),
{
    if keys.len() == 0 {
        return None;
    }
    let mut best: usize = 0;
    let mut i: usize = 1;
    while i < keys.len()
        invariant
            1 <= i <= keys.len(),
            is_argmax(keys@.take(i as int), best as int),
        decreases keys.len() - i,
    {
        if keys[i] >= keys[best] {
            best = i;
        }
        i += 1;
    }
    assert(keys@.take(i as int) =~= keys@);
    Some(best)
}

/// No two places are both the place that `argmax` names.
pub proof fn lemma_argmax_unique(keys: Seq<i64>, a: int, b: int)
    requires
        is_argmax(keys, a),
        is_argmax(keys, b),
    ensures
        a == b,
{
    if a < b {
        assert(keys[a] <= keys[b]);
    } else if b < a {
        assert(keys[b] <= keys[a]);
    }
}

} // verus!
