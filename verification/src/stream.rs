//! The transactions that pipelines run in.

use vstd::prelude::*;

verus! {

/// A transaction over the store that can be read: a pinned snapshot, or a
/// write transaction in the middle of its work.
pub trait Readable {}

} // verus!
