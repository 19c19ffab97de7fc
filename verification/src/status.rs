//! The outcome of one status query, either for a single node reply or for
//! the whole cluster after aggregation.

use vstd::prelude::*;

verus! {

/// Overall state of a server-side background operation.
#[derive(Clone, Copy, Debug, PartialEq, Eq)]
pub enum Status {
    /// At least one node is still working on the operation.
    InProgress,
    /// Every queried node reports the operation finished.
    Complete,
    /// Some node does not know the operation at all.
    NotFound,
}

} // verus!
