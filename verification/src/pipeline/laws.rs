//! What holds of every pipeline, whatever its nodes are.
//!
//! The laws of nodes speak of a [`run`]: the calls that one node gets within
//! its transactions, with the node and its store before the first call and
//! after each. They follow from
//! [`Incremental`](crate::pipeline::Incremental) and
//! [`Shows`](crate::pipeline::Shows) alone.

use vstd::prelude::*;

use crate::pipeline::{Incremental, Keyed, Scored, Shows};
use crate::stream::Readable;

verus! {

/// A call that a node gets within a transaction.
pub enum Call<D> {
    Push { data: D, delta: isize },
    Commit,
}

/// A node together with the store that it runs on.
pub struct Moment<T, S> {
    pub node: T,
    pub store: S,
}

/// What the sinks hold at `moment`, counting what is still buffered.
pub open spec fn holding<D: Clone, T: Incremental<D>>(moment: Moment<T, T::Store>) -> T::Sinks {
    moment.node.held(moment.store)
}

/// Whether `node` has nothing buffered: it holds what the store does,
/// whatever the store.
pub open spec fn flushed<D: Clone, T: Incremental<D>>(node: T) -> bool {
    forall|store: T::Store| #[trigger] node.held(store) == T::stored(node.plan(), store)
}

/// What `call` is bound to do, made at `before` and ending at `after`.
pub open spec fn leads<D: Clone, T: Incremental<D>>(
    before: Moment<T, T::Store>,
    call: Call<D>,
    after: Moment<T, T::Store>,
) -> bool {
    &&& after.node.ready()
    &&& after.node.plan() == before.node.plan()
    &&& match call {
        Call::Push { data, delta } => holding::<D, T>(after) == T::merged(
            before.node.plan(),
            holding::<D, T>(before),
            data,
            delta as int,
        ),
        Call::Commit => {
            &&& holding::<D, T>(after) == holding::<D, T>(before)
            &&& flushed::<D, T>(after.node)
        },
    }
}

/// Whether `moments` are a node and its store from before the first of
/// `calls` to after the last.
pub open spec fn run<D: Clone, T: Incremental<D>>(
    moments: Seq<Moment<T, T::Store>>,
    calls: Seq<Call<D>>,
) -> bool {
    &&& moments.len() == calls.len() + 1
    &&& moments[0].node.ready()
    &&& forall|i: int|
        0 <= i < calls.len() ==> #[trigger] leads(moments[i], calls[i], moments[i + 1])
}

/// `sinks` after every delta that `calls` push, in order.
pub open spec fn replay<D: Clone, T: Incremental<D>>(
    plan: T::Plan,
    sinks: T::Sinks,
    calls: Seq<Call<D>>,
) -> T::Sinks
    decreases calls.len(),
{
    if calls.len() == 0 {
        sinks
    } else {
        let before = replay::<D, T>(plan, sinks, calls.drop_last());
        match calls.last() {
            Call::Push { data, delta } => T::merged(plan, before, data, delta as int),
            Call::Commit => before,
        }
    }
}

/// A call of `init` leaves the node with nothing buffered, at the start of a
/// run.
pub proof fn init_starts_flushed<D: Clone, T: Incremental<D>>(
    node: &mut T,
    init: &mut T::PipelineInitCtx<'_>,
)
    requires
        call_ensures(T::init, (node, init), ()),
    ensures
        (*final(node)).ready(),
        flushed::<D, T>(*final(node)),
{
    T::init_opens(node, init, arbitrary());
    assert forall|store: T::Store| #[trigger]
        (*final(node)).held(store) == T::stored((*final(node)).plan(), store) by {
        T::init_opens(node, init, store);
    }
}

/// A call of `push` on a node that is ready is a step of a run.
pub proof fn push_is_a_step<D: Clone, T: Incremental<D>>(
    node: &mut T,
    tx: &mut T::WriteTx<'_>,
    data: &D,
    delta: isize,
)
    requires
        (*old(node)).ready(),
        call_ensures(T::push, (node, tx, data, delta), ()),
    ensures
        leads::<D, T>(
            (Moment { node: *old(node), store: T::contents(&*old(tx)) }),
            (Call::Push { data: *data, delta }),
            (Moment { node: *final(node), store: T::contents(&*final(tx)) }),
        ),
{
    T::push_merges(node, tx, data, delta);
}

/// A call of `commit` on a node that is ready is a step of a run.
pub proof fn commit_is_a_step<D: Clone, T: Incremental<D>>(node: &mut T, tx: &mut T::WriteTx<'_>)
    requires
        (*old(node)).ready(),
        call_ensures(T::commit, (node, tx), ()),
    ensures
        leads::<D, T>(
            (Moment { node: *old(node), store: T::contents(&*old(tx)) }),
            Call::Commit,
            (Moment { node: *final(node), store: T::contents(&*final(tx)) }),
        ),
{
    T::commit_flushes(node, tx, T::contents(&*tx));
    assert forall|store: T::Store| #[trigger]
        (*final(node)).held(store) == T::stored((*final(node)).plan(), store) by {
        T::commit_flushes(node, tx, store);
    }
}

/// A run changes what the sinks hold by exactly the deltas that it pushes.
/// It leaves the node ready for more, and its plan as it was.
pub proof fn run_replays_pushes<D: Clone, T: Incremental<D>>(
    moments: Seq<Moment<T, T::Store>>,
    calls: Seq<Call<D>>,
)
    requires
        run(moments, calls),
    ensures
        moments.last().node.ready(),
        moments.last().node.plan() == moments[0].node.plan(),
        holding::<D, T>(moments.last()) == replay::<D, T>(
            moments[0].node.plan(),
            holding::<D, T>(moments[0]),
            calls,
        ),
    decreases calls.len(),
{
    if calls.len() > 0 {
        let head = moments.drop_last();
        assert forall|i: int| 0 <= i < calls.drop_last().len() implies #[trigger] leads(
            head[i],
            calls.drop_last()[i],
            head[i + 1],
        ) by {
            assert(leads(moments[i], calls[i], moments[i + 1]));
        }
        run_replays_pushes(head, calls.drop_last());
        let last = calls.len() - 1;
        assert(leads(moments[last], calls[last], moments[last + 1]));
    }
}

/// Replaying one list of calls after another is replaying them joined.
proof fn replay_splits<D: Clone, T: Incremental<D>>(
    plan: T::Plan,
    sinks: T::Sinks,
    first: Seq<Call<D>>,
    second: Seq<Call<D>>,
)
    ensures
        replay::<D, T>(plan, sinks, first + second) == replay::<D, T>(
            plan,
            replay::<D, T>(plan, sinks, first),
            second,
        ),
    decreases second.len(),
{
    if second.len() == 0 {
        assert(first + second =~= first);
    } else {
        assert((first + second).drop_last() =~= first + second.drop_last());
        replay_splits::<D, T>(plan, sinks, first, second.drop_last());
    }
}

/// A delta merged before a list of calls may as well be merged after it.
proof fn merged_moves_past<D: Clone, T: Incremental<D>>(
    plan: T::Plan,
    sinks: T::Sinks,
    data: D,
    delta: int,
    calls: Seq<Call<D>>,
)
    ensures
        replay::<D, T>(plan, T::merged(plan, sinks, data, delta), calls) == T::merged(
            plan,
            replay::<D, T>(plan, sinks, calls),
            data,
            delta,
        ),
    decreases calls.len(),
{
    if calls.len() > 0 {
        merged_moves_past::<D, T>(plan, sinks, data, delta, calls.drop_last());
        match calls.last() {
            Call::Push { data: other, delta: other_delta } => {
                T::merging_commutes(
                    plan,
                    replay::<D, T>(plan, sinks, calls.drop_last()),
                    data,
                    delta,
                    other,
                    other_delta as int,
                );
            },
            Call::Commit => {},
        }
    }
}

/// Retraction: a record pushed and later pushed again with the opposite
/// delta leaves the sinks as if neither had been pushed, whatever is pushed
/// and committed in between.
pub proof fn retraction_cancels<D: Clone, T: Incremental<D>>(
    moments: Seq<Moment<T, T::Store>>,
    data: D,
    delta: isize,
    opposite: isize,
    between: Seq<Call<D>>,
)
    requires
        opposite == -delta,
        run(
            moments,
            seq![(Call::Push { data, delta })] + between + seq![
                (Call::Push { data, delta: opposite }),
            ],
        ),
    ensures
        holding::<D, T>(moments.last()) == replay::<D, T>(
            moments[0].node.plan(),
            holding::<D, T>(moments[0]),
            between,
        ),
{
    let plan = moments[0].node.plan();
    let sinks = holding::<D, T>(moments[0]);
    let first = seq![Call::Push { data, delta }];
    let second = seq![Call::Push { data, delta: opposite }];
    run_replays_pushes(moments, first + between + second);
    replay_splits::<D, T>(plan, sinks, first + between, second);
    replay_splits::<D, T>(plan, sinks, first, between);
    assert(first.drop_last() =~= Seq::empty());
    assert(second.drop_last() =~= Seq::empty());
    reveal_with_fuel(replay, 2);
    merged_moves_past::<D, T>(plan, sinks, data, delta as int, between);
    let middle = replay::<D, T>(plan, sinks, between);
    T::merging_adds(plan, middle, data, delta as int, opposite as int);
    T::merging_none(plan, middle, data);
}

/// A record pushed and later pushed again with the opposite delta, with
/// nothing but commits in between, leaves every sink unchanged: once
/// committed, the store holds for the sinks what it held before.
pub proof fn retraction_leaves_sinks_unchanged<D: Clone, T: Incremental<D>>(
    moments: Seq<Moment<T, T::Store>>,
    data: D,
    delta: isize,
    opposite: isize,
    commits: nat,
)
    requires
        opposite == -delta,
        flushed::<D, T>(moments[0].node),
        run(
            moments,
            seq![(Call::Push { data, delta })] + Seq::new(commits, |i: int| Call::Commit) + seq![
                (Call::Push { data, delta: opposite }),
            ] + seq![Call::Commit],
        ),
    ensures
        T::stored(moments[0].node.plan(), moments.last().store) == T::stored(
            moments[0].node.plan(),
            moments[0].store,
        ),
{
    let between = Seq::new(commits, |i: int| Call::<D>::Commit);
    let pushes = seq![Call::Push { data, delta }] + between + seq![
        Call::Push { data, delta: opposite },
    ];
    let calls = pushes + seq![Call::Commit];
    let head = moments.drop_last();
    assert forall|i: int| 0 <= i < pushes.len() implies #[trigger] leads(
        head[i],
        pushes[i],
        head[i + 1],
    ) by {
        assert(leads(moments[i], calls[i], moments[i + 1]));
    }
    retraction_cancels(head, data, delta, opposite, between);
    replay_skips_commits::<D, T>(moments[0].node.plan(), holding::<D, T>(moments[0]), between);
    let last = calls.len() - 1;
    assert(leads(moments[last], calls[last], moments[last + 1]));
    run_replays_pushes(moments, calls);
    assert(flushed::<D, T>(moments.last().node));
}

/// Replaying calls that push nothing changes nothing.
proof fn replay_skips_commits<D: Clone, T: Incremental<D>>(
    plan: T::Plan,
    sinks: T::Sinks,
    calls: Seq<Call<D>>,
)
    requires
        forall|i: int| 0 <= i < calls.len() ==> #[trigger] calls[i] is Commit,
    ensures
        replay::<D, T>(plan, sinks, calls) == sinks,
    decreases calls.len(),
{
    if calls.len() > 0 {
        assert(calls.last() is Commit);
        replay_skips_commits::<D, T>(plan, sinks, calls.drop_last());
    }
}

/// A delta is a multiplicity: pushing a record `count` times over amounts to
/// one delta of `count` times the size. So `+n` inserts `n` copies, and `-n`
/// retracts them.
pub proof fn copies_add_up<D: Clone, T: Incremental<D>>(
    plan: T::Plan,
    sinks: T::Sinks,
    data: D,
    delta: isize,
    count: nat,
)
    ensures
        replay::<D, T>(
            plan,
            sinks,
            Seq::new(count, |i: int| (Call::Push { data, delta })),
        ) == T::merged(plan, sinks, data, count * delta),
    decreases count,
{
    let calls = Seq::new(count, |i: int| Call::Push { data, delta });
    if count == 0 {
        T::merging_none(plan, sinks, data);
        assert(count * delta == 0) by (nonlinear_arith)
            requires
                count == 0,
        ;
    } else {
        let fewer = (count - 1) as nat;
        copies_add_up::<D, T>(plan, sinks, data, delta, fewer);
        assert(calls.drop_last() =~= Seq::new(fewer, |i: int| Call::Push { data, delta }));
        T::merging_adds(plan, sinks, data, fewer * delta, delta as int);
        assert(fewer * delta + delta == count * delta) by (nonlinear_arith)
            requires
                fewer == count - 1,
        ;
    }
}

/// Committing more or less often makes no difference to what a run adds up
/// to: only its pushes count.
pub proof fn commits_make_no_difference<D: Clone, T: Incremental<D>>(
    moments: Seq<Moment<T, T::Store>>,
    calls: Seq<Call<D>>,
)
    requires
        run(moments, calls),
    ensures
        holding::<D, T>(moments.last()) == replay::<D, T>(
            moments[0].node.plan(),
            holding::<D, T>(moments[0]),
            calls.filter(|call: Call<D>| call is Push),
        ),
{
    run_replays_pushes(moments, calls);
    replay_counts_pushes::<D, T>(moments[0].node.plan(), holding::<D, T>(moments[0]), calls);
}

/// Replaying calls is replaying the pushes among them.
proof fn replay_counts_pushes<D: Clone, T: Incremental<D>>(
    plan: T::Plan,
    sinks: T::Sinks,
    calls: Seq<Call<D>>,
)
    ensures
        replay::<D, T>(plan, sinks, calls) == replay::<D, T>(
            plan,
            sinks,
            calls.filter(|call: Call<D>| call is Push),
        ),
    decreases calls.len(),
{
    reveal(Seq::filter);
    if calls.len() > 0 {
        let pushes = calls.drop_last().filter(|call: Call<D>| call is Push);
        replay_counts_pushes::<D, T>(plan, sinks, calls.drop_last());
        if calls.last() is Push {
            assert(pushes.push(calls.last()).drop_last() =~= pushes);
        }
    }
}

/// A reader taken once a run has committed shows exactly what the run pushed,
/// on top of what was held before.
pub proof fn readers_show_committed_pushes<
    'tx,
    D: Clone,
    R: Readable + 'tx,
    T: Shows<'tx, D, R>,
>(
    moments: Seq<Moment<T, T::Store>>,
    calls: Seq<Call<D>>,
    tx: &'tx R,
    reader: T::Reader,
)
    requires
        run(moments, calls),
        calls.len() > 0,
        calls.last() is Commit,
        T::visible(tx) == moments.last().store,
        call_ensures(T::reader, (&moments.last().node, tx), reader),
    ensures
        T::shown(&reader) == replay::<D, T>(
            moments[0].node.plan(),
            holding::<D, T>(moments[0]),
            calls,
        ),
{
    run_replays_pushes(moments, calls);
    let last = calls.len() - 1;
    assert(leads(moments[last], calls[last], moments[last + 1]));
    assert(flushed::<D, T>(moments.last().node));
    T::reader_shows(&moments.last().node, tx, reader);
}

/// An aborted transaction leaves no trace: after `abort`, the node holds of
/// any store what it held of it before the transaction's first call. The
/// store that the transaction rolls back to is one of them.
pub proof fn abort_leaves_no_trace<D: Clone, T: Incremental<D>>(
    moments: Seq<Moment<T, T::Store>>,
    calls: Seq<Call<D>>,
    node: &mut T,
    store: T::Store,
)
    requires
        flushed::<D, T>(moments[0].node),
        run(moments, calls),
        *old(node) == moments.last().node,
        call_ensures(T::abort, (node,), ()),
    ensures
        (*final(node)).ready(),
        flushed::<D, T>(*final(node)),
        (*final(node)).plan() == moments[0].node.plan(),
        (*final(node)).held(store) == moments[0].node.held(store),
{
    run_replays_pushes(moments, calls);
    T::abort_discards(node, store);
    assert forall|any: T::Store| #[trigger]
        (*final(node)).held(any) == T::stored((*final(node)).plan(), any) by {
        T::abort_discards(node, any);
    }
}

/// Unkeying undoes keying: whatever key a value was paired with, `unkey`
/// gives the value back.
pub proof fn unkey_undoes_new<K, V>(key: K, val: V, keyed: Keyed<K, V>, out: V)
    requires
        call_ensures(Keyed::<K, V>::new, (key, val), keyed),
        call_ensures(Keyed::<K, V>::unkey, (keyed,), out),
    ensures
        out == val,
{
}

/// Unkeying undoes keying by a function of the value.
pub proof fn unkey_undoes_new_by<K, V, F: Fn(&V) -> K>(
    val: V,
    key_fn: F,
    keyed: Keyed<K, V>,
    out: V,
)
    requires
        call_ensures(Keyed::<K, V>::new_by::<F>, (val, key_fn), keyed),
        call_ensures(Keyed::<K, V>::unkey, (keyed,), out),
    ensures
        out == val,
{
}

/// Unscoring undoes scoring: whatever score a value was paired with,
/// `unscore` gives the value back.
pub proof fn unscore_undoes_new<S, V>(score: S, val: V, scored: Scored<S, V>, out: V)
    requires
        call_ensures(Scored::<S, V>::new, (score, val), scored),
        call_ensures(Scored::<S, V>::unscore, (scored,), out),
    ensures
        out == val,
{
}

/// Unscoring undoes scoring by a function of the value.
pub proof fn unscore_undoes_new_by<S, V, F: Fn(&V) -> S>(
    val: V,
    score_fn: F,
    scored: Scored<S, V>,
    out: V,
)
    requires
        call_ensures(Scored::<S, V>::new_by::<F>, (val, score_fn), scored),
        call_ensures(Scored::<S, V>::unscore, (scored,), out),
    ensures
        out == val,
{
}

} // verus!
