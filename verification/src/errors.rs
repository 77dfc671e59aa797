use vstd::prelude::*;

verus! {

/// A failure reported by the host store itself, as opposed to one detected
/// by the engine. The store's read surface reports a missing record as
/// [`ContextError::NotFound`]; the engine either handles it (the duplicate
/// check of `update_state`) or surfaces it unchanged.
#[derive(Clone, Copy, PartialEq, Eq, Structural, Debug)]
pub enum ContextError {
    /// No record is stored under the requested path.
    NotFound,
}

/// An error surfaced by one of the execution entry points. The engine never
/// retries and never logs: every failure aborts the entry point, and the
/// host's transactional wrapper is expected to roll back partial writes.
#[derive(Clone, Copy, PartialEq, Eq, Structural, Debug)]
pub enum ClientError {
    /// A malformed envelope, or a stored blob of the wrong kind.
    Decode,
    /// An expected consensus state was absent.
    NotFound,
    /// Timestamp arithmetic overflowed while computing an expiry.
    Overflow,
    /// The host timestamp is not representable as a Tendermint time.
    InvalidTimestamp,
    /// A header whose trust parameters could not be incorporated.
    InvalidHeader,
    /// Client-state parameters that violate the client's invariants.
    InvalidClientState,
    /// A host store failure, propagated unchanged.
    Context(ContextError),
}

} // verus!
