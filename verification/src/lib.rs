//! Incremental pipelines over a transactional store.
//!
//! [`pipeline`] holds the [`Push`](pipeline::Push) trait that every pipeline
//! node implements, the [`Keyed`](pipeline::Keyed) and
//! [`Scored`](pipeline::Scored) values that travel between nodes, and the
//! laws that hold of every pipeline. [`stream`] holds what a node may ask of
//! the transaction it runs in.

pub mod pipeline;
pub mod stream;
