//! The [`Push`] trait that composes pipeline nodes, and the values that flow
//! between them.
//!
//! A pipeline is a tree of [`Push`] nodes built inside-out: every operator
//! owns its downstream, so the whole graph is one concrete type and all calls
//! are statically dispatched. Interior nodes transform or route data; the
//! leaves are sinks that persist state.
//!
//! # Deltas
//! Data flows through the graph as `(data, delta)` pairs, where `delta` is a
//! signed multiplicity: `+n` inserts `n` copies of `data`, `-n` retracts
//! them. Every node honors retraction, which is what makes the materialized
//! state incrementally maintainable: pushing a record and later pushing it
//! again with the opposite delta leaves every sink unchanged. [`Incremental`]
//! states what this asks of a node, and [`laws`] what then holds of every
//! pipeline.

use vstd::prelude::*;

use crate::stream::Readable;

mod keyed;
pub mod laws;
mod model;
mod scored;

pub use keyed::Keyed;
pub use model::{Incremental, Shows};
pub use scored::Scored;

verus! {

/// A pipeline node that accepts a stream of `(data, delta)` pairs.
///
/// Implemented by operators (which transform and forward) and sinks (which
/// persist). A node's lifecycle:
///
/// 1. [`init`](Push::init): once, when the owning stream opens: resolve
///    keyspaces, claim sink names.
/// 2. [`push`](Push::push): once per delta within a write transaction.
///    Stateful nodes typically buffer here rather than touching the store.
/// 3. [`commit`](Push::commit): as the transaction completes, and before each
///    mid-transaction read: flush buffered state and emit any resulting
///    downstream deltas. This can run several times per transaction, with
///    pushes resuming in between, so committing must leave the node ready for
///    more deltas.
/// 4. [`abort`](Push::abort): instead of the final `commit` if the
///    transaction fails: discard buffered state so the node is clean for the
///    next transaction. Store writes from earlier `commit` calls in the
///    aborted transaction roll back with it.
///
/// Operators must propagate `commit`, `abort` and
/// [`reader`](Reads::reader) to their downstream nodes even when they hold no
/// state themselves.
///
/// What the calls must amount to is stated by [`Incremental`], which a node
/// implements to show that it keeps to it.
pub trait Push<D: Clone>: Sized {
    /// Context in which a pipeline resolves keyspaces and claims sink names.
    type PipelineInitCtx<'a>;

    /// Write transaction that deltas are applied in.
    type WriteTx<'a>;

    /// Resolve keyspace handles and register sink names.
    fn init(&mut self, init: &mut Self::PipelineInitCtx<'_>);

    /// Accept one delta: `+n` inserts `n` copies of `data`, `-n` retracts
    /// them.
    fn push(&mut self, tx: &mut Self::WriteTx<'_>, data: &D, delta: isize);

    /// Flushes pending state to the store, emitting any resulting downstream
    /// deltas. Called as the transaction completes and before each
    /// mid-transaction read, so it may run several times per transaction and
    /// must leave the node ready to accept further pushes.
    ///
    /// Provided for nodes that never have anything pending: it does nothing.
    fn commit(&mut self, tx: &mut Self::WriteTx<'_>)
        default_ensures
            *final(self) == *old(self),
            *final(tx) == *old(tx),
    {
        let _ = tx;
    }

    /// Drop pending state to reset the node for the next transaction. Called
    /// once if the transaction fails.
    ///
    /// Provided for nodes that never have anything pending: it does nothing.
    fn abort(&mut self)
        default_ensures
            *final(self) == *old(self),
    {
    }
}

/// A pipeline node whose sinks can be read through transactions of type `R`.
///
/// A node that can be read at all implements this for every `R` that can see
/// its store.
pub trait Reads<'tx, D: Clone, R: Readable + 'tx>: Push<D> {
    /// Typed, lazy view over a pinned snapshot. Publicly accessible through
    /// read transactions; only relevant to sinks. Operators pass their
    /// downstream's reader through unchanged, so a pipeline's reader mirrors
    /// its sink structure.
    type Reader;

    /// Get a read handle to the sink.
    fn reader(&self, tx: &'tx R) -> Self::Reader;
}

/// The node that a borrowed node stands for.
pub open spec fn referent<'a, T>(node: &'a &mut T) -> &'a T {
    &**node
}

/// A mutably borrowed node is a node: every call on it is the same call on
/// the node that it borrows, which stays borrowed.
impl<D: Clone, T: Push<D>> Push<D> for &mut T {
    type PipelineInitCtx<'a> = T::PipelineInitCtx<'a>;

    type WriteTx<'a> = T::WriteTx<'a>;

    #[inline]
    fn init(&mut self, init: &mut Self::PipelineInitCtx<'_>)
        ensures
            *final(*final(self)) == *final(*old(self)),
            exists|node: &mut T, ctx: &mut T::PipelineInitCtx<'_>|
                {
                    &&& #[trigger] call_ensures(T::init, (node, ctx), ())
                    &&& *node == **old(self)
                    &&& *final(node) == **final(self)
                    &&& *ctx == *old(init)
                    &&& *final(ctx) == *final(init)
                },
    {
        (**self).init(init)
    }

    #[inline]
    fn push(&mut self, tx: &mut Self::WriteTx<'_>, data: &D, delta: isize)
        ensures
            *final(*final(self)) == *final(*old(self)),
            exists|node: &mut T, inner: &mut T::WriteTx<'_>|
                {
                    &&& #[trigger] call_ensures(T::push, (node, inner, data, delta), ())
                    &&& *node == **old(self)
                    &&& *final(node) == **final(self)
                    &&& *inner == *old(tx)
                    &&& *final(inner) == *final(tx)
                },
    {
        (**self).push(tx, data, delta)
    }

    #[inline]
    fn commit(&mut self, tx: &mut Self::WriteTx<'_>)
        ensures
            *final(*final(self)) == *final(*old(self)),
            exists|node: &mut T, inner: &mut T::WriteTx<'_>|
                {
                    &&& #[trigger] call_ensures(T::commit, (node, inner), ())
                    &&& *node == **old(self)
                    &&& *final(node) == **final(self)
                    &&& *inner == *old(tx)
                    &&& *final(inner) == *final(tx)
                },
    {
        (**self).commit(tx)
    }

    #[inline]
    fn abort(&mut self)
        ensures
            *final(*final(self)) == *final(*old(self)),
            exists|node: &mut T|
                {
                    &&& #[trigger] call_ensures(T::abort, (node,), ())
                    &&& *node == **old(self)
                    &&& *final(node) == **final(self)
                },
    {
        (**self).abort()
    }
}

impl<'tx, D: Clone, R: Readable + 'tx, T: Reads<'tx, D, R>> Reads<'tx, D, R> for &mut T {
    type Reader = T::Reader;

    #[inline]
    fn reader(&self, tx: &'tx R) -> (reader: Self::Reader)
        ensures
            call_ensures(T::reader, (referent(self), tx), reader),
    {
        (**self).reader(tx)
    }
}

} // verus!
