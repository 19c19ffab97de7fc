//! Error kinds surfaced by a status query.

use vstd::prelude::*;

verus! {

/// Why a status query failed. Each variant carries a human-readable
/// message; for `BadResponse` the message embeds the offending raw reply
/// so the caller can diagnose the node.
#[derive(Clone, Debug, PartialEq, Eq)]
pub enum ErrorKind {
    /// No connected node was available to query.
    Connection(String),
    /// A node reply violated the expected grammar.
    BadResponse(String),
    /// The client policy lacks a value that the tracker requires.
    InvalidArgument(String),
}

impl ErrorKind {
    /// The message carried by the error, whatever its kind.
    pub open spec fn spec_message(&self) -> Seq<char> {
        match self {
            ErrorKind::Connection(m) => m@,
            ErrorKind::BadResponse(m) => m@,
            ErrorKind::InvalidArgument(m) => m@,
        }
    }

    /// The message carried by the error, whatever its kind.
    pub fn message(&self) -> (r: &String)
        ensures
            r@ == self.spec_message(),
    {
        match self {
            ErrorKind::Connection(m) => m,
            ErrorKind::BadResponse(m) => m,
            ErrorKind::InvalidArgument(m) => m,
        }
    }
}

} // verus!
