//! Client-side poller for the progress of a long-running server-side
//! background operation (a secondary-index build) across the nodes of a
//! distributed database cluster.
//!
//! The verified core covers the wire-level reply grammar, the command
//! builder, and the multi-node aggregation policy that reduces the
//! individual node replies to one overall [`status::Status`]. Network
//! transport is left to the caller, which feeds each node's raw reply to
//! the aggregation entry points.

pub mod errors;
pub mod numeric;
pub mod search;
pub mod status;
pub mod task;

pub use errors::ErrorKind;
pub use status::Status;
pub use task::ClientPolicy;
pub use task::IndexTask;
