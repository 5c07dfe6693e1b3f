//! What the calls of a pipeline node must amount to.

use vstd::prelude::*;

use crate::pipeline::{Push, Reads};
use crate::stream::Readable;

verus! {

/// A node that maintains its sinks incrementally.
///
/// A node stands for everything below it. What its sinks hold is a value of
/// [`Sinks`](Incremental::Sinks), which [`merged`](Incremental::merged)
/// changes by one delta. [`stored`](Incremental::stored) reads that value off
/// the store alone; [`held`](Incremental::held) also counts what is still
/// buffered, in the node or below it. The two must agree once the node has
/// been flushed or reset, which is why an operator has to pass `commit` and
/// `abort` on downstream.
pub trait Incremental<D: Clone>: Push<D> {
    /// Model of what the store holds.
    type Store;

    /// Model of what stays fixed once the node is initialized: its functions
    /// and the keyspaces that it resolved.
    type Plan;

    /// Model of what the sinks below the node hold.
    type Sinks;

    /// What the store holds within `tx`.
    spec fn contents(tx: &Self::WriteTx<'_>) -> Self::Store;

    /// Whether the node has been initialized and accepts deltas.
    spec fn ready(&self) -> bool;

    /// What the node fixed when it was initialized.
    spec fn plan(&self) -> Self::Plan;

    /// What the sinks hold in `store` once everything buffered is flushed.
    spec fn held(&self, store: Self::Store) -> Self::Sinks;

    /// What the sinks hold in `store` as it is.
    spec fn stored(plan: Self::Plan, store: Self::Store) -> Self::Sinks;

    /// `sinks` after one more delta.
    spec fn merged(plan: Self::Plan, sinks: Self::Sinks, data: D, delta: int) -> Self::Sinks;

    /// Inserting no copies changes nothing.
    proof fn merging_none(plan: Self::Plan, sinks: Self::Sinks, data: D)
        ensures
            Self::merged(plan, sinks, data, 0) == sinks,
    ;

    /// Two deltas of one datum amount to their sum.
    proof fn merging_adds(plan: Self::Plan, sinks: Self::Sinks, data: D, first: int, second: int)
        ensures
            Self::merged(plan, Self::merged(plan, sinks, data, first), data, second)
                == Self::merged(plan, sinks, data, first + second),
    ;

    /// Deltas may be merged in either order.
    proof fn merging_commutes(
        plan: Self::Plan,
        sinks: Self::Sinks,
        a: D,
        a_delta: int,
        b: D,
        b_delta: int,
    )
        ensures
            Self::merged(plan, Self::merged(plan, sinks, a, a_delta), b, b_delta)
                == Self::merged(plan, Self::merged(plan, sinks, b, b_delta), a, a_delta),
    ;

    /// `init` makes the node ready, with nothing buffered: it holds what the
    /// store does, whatever the store.
    proof fn init_opens(
        node: &mut Self,
        init: &mut Self::PipelineInitCtx<'_>,
        store: Self::Store,
    )
        requires
            call_ensures(Self::init, (node, init), ()),
        ensures
            (*final(node)).ready(),
            (*final(node)).held(store) == Self::stored((*final(node)).plan(), store),
    ;

    /// `push` merges its delta into what the sinks hold.
    proof fn push_merges(node: &mut Self, tx: &mut Self::WriteTx<'_>, data: &D, delta: isize)
        requires
            (*old(node)).ready(),
            call_ensures(Self::push, (node, tx, data, delta), ()),
        ensures
            (*final(node)).ready(),
            (*final(node)).plan() == (*old(node)).plan(),
            (*final(node)).held(Self::contents(&*final(tx))) == Self::merged(
                (*old(node)).plan(),
                (*old(node)).held(Self::contents(&*old(tx))),
                *data,
                delta as int,
            ),
    ;

    /// `commit` changes nothing of what the sinks hold but puts all of it in
    /// the store, and leaves the node ready.
    proof fn commit_flushes(node: &mut Self, tx: &mut Self::WriteTx<'_>, store: Self::Store)
        requires
            (*old(node)).ready(),
            call_ensures(Self::commit, (node, tx), ()),
        ensures
            (*final(node)).ready(),
            (*final(node)).plan() == (*old(node)).plan(),
            (*final(node)).held(Self::contents(&*final(tx))) == (*old(node)).held(
                Self::contents(&*old(tx)),
            ),
            (*final(node)).held(store) == Self::stored((*final(node)).plan(), store),
    ;

    /// `abort` drops what is buffered and leaves the node ready.
    proof fn abort_discards(node: &mut Self, store: Self::Store)
        requires
            (*old(node)).ready(),
            call_ensures(Self::abort, (node,), ()),
        ensures
            (*final(node)).ready(),
            (*final(node)).plan() == (*old(node)).plan(),
            (*final(node)).held(store) == Self::stored((*final(node)).plan(), store),
    ;
}

/// An incremental node whose readers show what the store holds for its sinks.
pub trait Shows<'tx, D: Clone, R: Readable + 'tx>: Incremental<D> + Reads<'tx, D, R> {
    /// What the store holds as `tx` sees it.
    spec fn visible(tx: &R) -> Self::Store;

    /// What a reader shows of the sinks.
    spec fn shown(reader: &Self::Reader) -> Self::Sinks;

    /// `reader` shows what the store holds for the sinks.
    proof fn reader_shows(node: &Self, tx: &'tx R, reader: Self::Reader)
        requires
            node.ready(),
            call_ensures(Self::reader, (node, tx), reader),
        ensures
            Self::shown(&reader) == Self::stored(node.plan(), Self::visible(tx)),
    ;
}

/// A mutably borrowed node keeps to what the node that it borrows does.
impl<D: Clone, T: Incremental<D>> Incremental<D> for &mut T {
    type Store = T::Store;

    type Plan = T::Plan;

    type Sinks = T::Sinks;

    open spec fn contents(tx: &T::WriteTx<'_>) -> T::Store {
        T::contents(tx)
    }

    open spec fn ready(&self) -> bool {
        (**self).ready()
    }

    open spec fn plan(&self) -> T::Plan {
        (**self).plan()
    }

    open spec fn held(&self, store: T::Store) -> T::Sinks {
        (**self).held(store)
    }

    open spec fn stored(plan: T::Plan, store: T::Store) -> T::Sinks {
        T::stored(plan, store)
    }

    open spec fn merged(plan: T::Plan, sinks: T::Sinks, data: D, delta: int) -> T::Sinks {
        T::merged(plan, sinks, data, delta)
    }

    proof fn merging_none(plan: T::Plan, sinks: T::Sinks, data: D) {
        T::merging_none(plan, sinks, data);
    }

    proof fn merging_adds(plan: T::Plan, sinks: T::Sinks, data: D, first: int, second: int) {
        T::merging_adds(plan, sinks, data, first, second);
    }

    proof fn merging_commutes(
        plan: T::Plan,
        sinks: T::Sinks,
        a: D,
        a_delta: int,
        b: D,
        b_delta: int,
    ) {
        T::merging_commutes(plan, sinks, a, a_delta, b, b_delta);
    }

    proof fn init_opens(
        node: &mut Self,
        init: &mut Self::PipelineInitCtx<'_>,
        store: T::Store,
    ) {
        let (inner, ctx) = choose|inner: &mut T, ctx: &mut T::PipelineInitCtx<'_>|
            {
                &&& #[trigger] call_ensures(T::init, (inner, ctx), ())
                &&& *inner == **node
                &&& *final(inner) == **final(node)
                &&& *ctx == *init
                &&& *final(ctx) == *final(init)
            };
        T::init_opens(inner, ctx, store);
    }

    proof fn push_merges(node: &mut Self, tx: &mut Self::WriteTx<'_>, data: &D, delta: isize) {
        let (inner, inner_tx) = choose|inner: &mut T, inner_tx: &mut T::WriteTx<'_>|
            {
                &&& #[trigger] call_ensures(T::push, (inner, inner_tx, data, delta), ())
                &&& *inner == **node
                &&& *final(inner) == **final(node)
                &&& *inner_tx == *tx
                &&& *final(inner_tx) == *final(tx)
            };
        T::push_merges(inner, inner_tx, data, delta);
    }

    proof fn commit_flushes(node: &mut Self, tx: &mut Self::WriteTx<'_>, store: T::Store) {
        let (inner, inner_tx) = choose|inner: &mut T, inner_tx: &mut T::WriteTx<'_>|
            {
                &&& #[trigger] call_ensures(T::commit, (inner, inner_tx), ())
                &&& *inner == **node
                &&& *final(inner) == **final(node)
                &&& *inner_tx == *tx
                &&& *final(inner_tx) == *final(tx)
            };
        T::commit_flushes(inner, inner_tx, store);
    }

    proof fn abort_discards(node: &mut Self, store: T::Store) {
        let inner = choose|inner: &mut T|
            {
                &&& #[trigger] call_ensures(T::abort, (inner,), ())
                &&& *inner == **node
                &&& *final(inner) == **final(node)
            };
        T::abort_discards(inner, store);
    }
}

impl<'tx, D: Clone, R: Readable + 'tx, T: Shows<'tx, D, R>> Shows<'tx, D, R> for &mut T {
    open spec fn visible(tx: &R) -> T::Store {
        T::visible(tx)
    }

    open spec fn shown(reader: &T::Reader) -> T::Sinks {
        T::shown(reader)
    }

    proof fn reader_shows(node: &Self, tx: &'tx R, reader: T::Reader) {
        T::reader_shows(&**node, tx, reader);
    }
}

} // verus!
