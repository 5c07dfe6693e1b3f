use std::collections::BTreeMap;

use fold::pipeline::{Keyed, Push, Reads};
use fold::stream::Readable;

/// A store of counts, by keyspace and record.
#[derive(Clone, Debug, Default, PartialEq)]
struct Tx {
    counts: BTreeMap<(&'static str, u64), isize>,
}

impl Tx {
    fn add(&mut self, keyspace: &'static str, record: u64, delta: isize) {
        let count = self.counts.entry((keyspace, record)).or_insert(0);
        *count += delta;
        if *count == 0 {
            self.counts.remove(&(keyspace, record));
        }
    }
}

impl Readable for Tx {}

/// Counts of one keyspace, read through a transaction.
struct Counts<'tx> {
    keyspace: &'static str,
    tx: &'tx Tx,
}

impl<'tx> Counts<'tx> {
    fn get(&self, record: u64) -> isize {
        self.tx.counts.get(&(self.keyspace, record)).copied().unwrap_or(0)
    }
}

/// Sink that buffers deltas until they are committed.
struct Table {
    keyspace: &'static str,
    open: bool,
    buffer: Vec<(u64, isize)>,
}

impl Table {
    fn new(keyspace: &'static str) -> Table {
        Table { keyspace, open: false, buffer: Vec::new() }
    }
}

impl Push<u64> for Table {
    type PipelineInitCtx<'a> = Vec<&'static str>;
    type WriteTx<'a> = Tx;

    fn init(&mut self, init: &mut Vec<&'static str>) {
        init.push(self.keyspace);
        self.open = true;
    }

    fn push(&mut self, _tx: &mut Tx, data: &u64, delta: isize) {
        assert!(self.open);
        self.buffer.push((*data, delta));
    }

    fn commit(&mut self, tx: &mut Tx) {
        for (record, delta) in self.buffer.drain(..) {
            tx.add(self.keyspace, record, delta);
        }
    }

    fn abort(&mut self) {
        self.buffer.clear();
    }
}

impl<'tx> Reads<'tx, u64, Tx> for Table {
    type Reader = Counts<'tx>;

    fn reader(&self, tx: &'tx Tx) -> Counts<'tx> {
        Counts { keyspace: self.keyspace, tx }
    }
}

/// Sink that writes deltas straight through, so it keeps the provided
/// `commit` and `abort`.
struct WriteThrough {
    keyspace: &'static str,
}

impl Push<u64> for WriteThrough {
    type PipelineInitCtx<'a> = Vec<&'static str>;
    type WriteTx<'a> = Tx;

    fn init(&mut self, init: &mut Vec<&'static str>) {
        init.push(self.keyspace);
    }

    fn push(&mut self, tx: &mut Tx, data: &u64, delta: isize) {
        tx.add(self.keyspace, *data, delta);
    }
}

/// Operator that strips keys off and forwards the values.
struct Unkey<N> {
    next: N,
}

impl<N> Push<Keyed<&'static str, u64>> for Unkey<N>
where
    N: Push<u64>,
{
    type PipelineInitCtx<'a> = N::PipelineInitCtx<'a>;
    type WriteTx<'a> = N::WriteTx<'a>;

    fn init(&mut self, init: &mut N::PipelineInitCtx<'_>) {
        self.next.init(init)
    }

    fn push(&mut self, tx: &mut N::WriteTx<'_>, data: &Keyed<&'static str, u64>, delta: isize) {
        self.next.push(tx, &data.clone().unkey(), delta)
    }

    fn commit(&mut self, tx: &mut N::WriteTx<'_>) {
        self.next.commit(tx)
    }

    fn abort(&mut self) {
        self.next.abort()
    }
}

fn opened(keyspace: &'static str) -> Table {
    let mut table = Table::new(keyspace);
    table.init(&mut Vec::new());
    table
}

#[test]
fn provided_commit_changes_nothing() {
    let mut sink = WriteThrough { keyspace: "raw" };
    let mut tx = Tx::default();
    sink.push(&mut tx, &5, 2);
    let before = tx.clone();
    sink.commit(&mut tx);
    sink.commit(&mut tx);
    assert_eq!(tx, before);
    assert_eq!(sink.keyspace, "raw");
    assert_eq!(tx.counts.get(&("raw", 5)), Some(&2));
}

#[test]
fn provided_abort_changes_nothing() {
    let mut sink = WriteThrough { keyspace: "raw" };
    sink.abort();
    assert_eq!(sink.keyspace, "raw");
}

#[test]
fn borrowed_node_forwards_init() {
    let mut table = Table::new("a");
    let mut names = vec!["taken"];
    {
        let mut node = &mut table;
        <&mut Table as Push<u64>>::init(&mut node, &mut names);
    }
    assert!(table.open);
    assert_eq!(names, ["taken", "a"]);
}

#[test]
fn borrowed_node_forwards_push_with_its_arguments() {
    let mut table = opened("a");
    let mut tx = Tx::default();
    {
        let mut node = &mut table;
        <&mut Table as Push<u64>>::push(&mut node, &mut tx, &7, 3);
        <&mut Table as Push<u64>>::push(&mut node, &mut tx, &8, -1);
    }
    assert_eq!(table.buffer, [(7, 3), (8, -1)]);
    assert_eq!(tx, Tx::default());
}

#[test]
fn borrowed_node_forwards_commit_and_abort() {
    let mut table = opened("a");
    let mut tx = Tx::default();
    {
        let mut node = &mut table;
        <&mut Table as Push<u64>>::push(&mut node, &mut tx, &7, 3);
        <&mut Table as Push<u64>>::commit(&mut node, &mut tx);
        <&mut Table as Push<u64>>::push(&mut node, &mut tx, &7, 9);
        <&mut Table as Push<u64>>::abort(&mut node);
        <&mut Table as Push<u64>>::commit(&mut node, &mut tx);
    }
    assert_eq!(table.reader(&tx).get(7), 3);
}

#[test]
fn borrowed_node_forwards_reader() {
    let mut table = opened("a");
    let mut tx = Tx::default();
    tx.add("a", 1, 4);
    tx.add("b", 1, 40);
    let node = &mut table;
    let reader = <&mut Table as Reads<u64, Tx>>::reader(&node, &tx);
    assert_eq!(reader.get(1), 4);
    assert_eq!(reader.get(2), 0);
}

#[test]
fn operator_over_a_borrowed_sink_reaches_it() {
    let mut table = Table::new("a");
    let mut tx = Tx::default();
    {
        let mut pipeline = Unkey { next: &mut table };
        pipeline.init(&mut Vec::new());
        pipeline.push(&mut tx, &Keyed::new("x", 7), 1);
        pipeline.push(&mut tx, &Keyed::new("y", 7), 1);
        pipeline.commit(&mut tx);
        pipeline.push(&mut tx, &Keyed::new("x", 7), 5);
        pipeline.abort();
        pipeline.commit(&mut tx);
    }
    assert_eq!(table.reader(&tx).get(7), 2);
}

#[test]
fn opposite_delta_leaves_the_sink_unchanged() {
    let mut table = opened("a");
    let mut tx = Tx::default();
    table.push(&mut tx, &1, 2);
    table.commit(&mut tx);
    let before = tx.clone();
    table.push(&mut tx, &9, 4);
    table.commit(&mut tx);
    table.push(&mut tx, &9, -4);
    table.commit(&mut tx);
    assert_eq!(tx, before);
}

#[test]
fn opposite_delta_cancels_across_other_pushes() {
    let mut with = opened("a");
    let mut without = opened("a");
    let mut tx_with = Tx::default();
    let mut tx_without = Tx::default();
    with.push(&mut tx_with, &9, -3);
    for (record, delta) in [(1u64, 5isize), (9, 1), (2, -2)] {
        with.push(&mut tx_with, &record, delta);
        with.commit(&mut tx_with);
        without.push(&mut tx_without, &record, delta);
    }
    with.push(&mut tx_with, &9, 3);
    with.commit(&mut tx_with);
    without.commit(&mut tx_without);
    assert_eq!(tx_with, tx_without);
    assert_eq!(tx_with.counts.len(), 3);
}

#[test]
fn one_delta_of_n_is_n_copies() {
    let mut once = opened("a");
    let mut often = opened("a");
    let mut tx_once = Tx::default();
    let mut tx_often = Tx::default();
    once.push(&mut tx_once, &4, 3);
    for _ in 0..3 {
        often.push(&mut tx_often, &4, 1);
    }
    once.commit(&mut tx_once);
    often.commit(&mut tx_often);
    assert_eq!(tx_once, tx_often);
    assert_eq!(once.reader(&tx_once).get(4), 3);
}

#[test]
fn committing_leaves_a_node_ready_and_twice_is_once() {
    let mut table = opened("a");
    let mut tx = Tx::default();
    table.push(&mut tx, &4, 1);
    table.commit(&mut tx);
    assert_eq!(table.reader(&tx).get(4), 1);
    table.commit(&mut tx);
    assert_eq!(table.reader(&tx).get(4), 1);
    table.push(&mut tx, &4, 1);
    table.commit(&mut tx);
    assert_eq!(table.reader(&tx).get(4), 2);
}

#[test]
fn aborted_transaction_leaves_no_trace() {
    let mut table = opened("a");
    let mut store = Tx::default();
    table.push(&mut store, &4, 1);
    table.commit(&mut store);
    let mut tx = store.clone();
    table.push(&mut tx, &4, 10);
    table.commit(&mut tx);
    table.push(&mut tx, &5, 10);
    table.abort();
    let mut next = store.clone();
    table.commit(&mut next);
    assert_eq!(next, store);
}

#[test]
fn opened_node_holds_what_the_store_does() {
    let mut store = Tx::default();
    store.add("a", 6, 2);
    let mut table = opened("a");
    assert_eq!(table.reader(&store).get(6), 2);
    let before = store.clone();
    table.commit(&mut store);
    assert_eq!(store, before);
}
