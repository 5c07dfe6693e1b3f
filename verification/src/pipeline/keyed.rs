use vstd::prelude::*;

verus! {

/// A value paired with a grouping key.
///
/// The currency of keyed streams: a keying node attaches the key, a per-key
/// node reads it, and an unkeying node strips it back off.
pub struct Keyed<K, V> {
    pub key: K,
    pub val: V,
}

impl<K: Clone, V: Clone> Clone for Keyed<K, V> {
    /// Clone the key and the value, each by its own `clone`.
    fn clone(&self) -> (res: Self)
        ensures
            cloned(self.key, res.key),
            cloned(self.val, res.val),
    {
        Keyed { key: self.key.clone(), val: self.val.clone() }
    }
}

impl<K, V> Keyed<K, V> {
    /// Pair `val` with `key`.
    pub fn new(key: K, val: V) -> (res: Self)
        ensures
            res.key == key,
            res.val == val,
    {
        Keyed { key, val }
    }

    /// Key `val` by a function of itself.
    pub fn new_by<F: Fn(&V) -> K>(val: V, key_fn: F) -> (res: Self)
        requires
            call_requires(key_fn, (&val,)),
        ensures
            call_ensures(key_fn, (&val,), res.key),
            res.val == val,
    {
        Keyed { key: (key_fn)(&val), val }
    }

    /// Discard the key.
    pub fn unkey(self) -> (val: V)
        ensures
            val == self.val,
    {
        self.val
    }
}

} // verus!
