# fold

Incremental pipelines over a transactional store, verified with Verus.

A pipeline is a tree of nodes that accept `(data, delta)` pairs, where `delta`
is a signed multiplicity. The crate holds what every pipeline is built from.

- `src/stream.rs`: what can be read.
- `src/pipeline/mod.rs`: `Push`, the trait that every node implements, with
  `Reads` for nodes that can be read, and both for a mutably borrowed node.
- `src/pipeline/keyed.rs`, `src/pipeline/scored.rs`: `Keyed` and `Scored`, the
  values that keyed and scored nodes exchange.
- `src/pipeline/model.rs`: `Incremental` and `Shows`, what the calls of a node
  must amount to. A node implements them to show that it keeps to it.
- `src/pipeline/laws.rs`: what then holds of every pipeline: that opposite
  deltas cancel, that deltas count copies, that readers show what was
  committed, and that an aborted transaction leaves no trace.
- `app/`: the form of `Keyed` that serializes.
