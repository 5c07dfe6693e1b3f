use vstd::prelude::*;

verus! {

/// A value paired with an ordering score.
///
/// The currency of scored streams: a scoring node attaches the score, a node
/// that ranks its input reads it, and an unscoring node strips it back off.
/// Unlike the key of a [`Keyed`](crate::pipeline::Keyed) value, a score is
/// there to be ordered by: with event timestamps for scores, the highest
/// scores are the most recent records.
pub struct Scored<S, V> {
    pub score: S,
    pub val: V,
}

impl<S: Clone, V: Clone> Clone for Scored<S, V> {
    /// Clone the score and the value, each by its own `clone`.
    fn clone(&self) -> (res: Self)
        ensures
            cloned(self.score, res.score),
            cloned(self.val, res.val),
    {
        Scored { score: self.score.clone(), val: self.val.clone() }
    }
}

impl<S, V> Scored<S, V> {
    /// Pair `val` with `score`.
    pub fn new(score: S, val: V) -> (res: Self)
        ensures
            res.score == score,
            res.val == val,
    {
        Scored { score, val }
    }

    /// Score `val` by a function of itself.
    pub fn new_by<F: Fn(&V) -> S>(val: V, score_fn: F) -> (res: Self)
        requires
            call_requires(score_fn, (&val,)),
        ensures
            call_ensures(score_fn, (&val,), res.score),
            res.val == val,
    {
        Scored { score: (score_fn)(&val), val }
    }

    /// Discard the score.
    pub fn unscore(self) -> (val: V)
        ensures
            val == self.val,
    {
        self.val
    }
}

} // verus!
