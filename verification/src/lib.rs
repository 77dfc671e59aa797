//! An IBC Tendermint light-client execution engine.
//!
//! Given a newly relayed block header, misbehaviour evidence, or upgrade
//! proof from a counterparty Tendermint-based chain, the engine updates the
//! locally persisted view of that chain's consensus: a per-height archive of
//! consensus states with companion update metadata, and a single mutable
//! client-state record holding the trust parameters.
//!
//! The engine is polymorphic over a host store, abstracted by the traits in
//! [`context`]; [`store`] provides a verified in-memory host. The four
//! execution entry points and the pruning policy live in [`execution`].

pub mod client_state;
pub mod consensus_state;
pub mod context;
pub mod envelope;
pub mod errors;
pub mod execution;
pub mod header;
pub mod height;
pub mod laws;
pub mod path;
pub mod store;
pub mod time;
