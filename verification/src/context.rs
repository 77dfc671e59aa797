use vstd::prelude::*;

use crate::client_state::ClientState;
use crate::consensus_state::ConsensusState;
use crate::envelope::Envelope;
use crate::envelope::EnvelopeView;
use crate::errors::ClientError;
use crate::errors::ContextError;
use crate::header::Header;
use crate::height::Height;
use crate::path::ClientConsensusStatePath;
use crate::path::ClientId;
use crate::path::ClientStatePath;
use crate::time::Timestamp;

verus! {

/// The pair recorded beside every consensus-state insert: the host's clock
/// and height at the moment of the write. Downstream packet-timeout checks
/// read it, which is why a duplicate update must not re-stamp it.
#[derive(Clone, Copy, PartialEq, Eq, Structural, Debug)]
pub struct UpdateMeta {
    pub host_timestamp: Timestamp,
    pub host_height: Height,
}

/// The host store surface the engine reads, abstracted as three maps — the
/// client-state records, the consensus-state archive and the update
/// metadata — plus the host clock and height.
///
/// Each execution entry point runs as one logical transaction with
/// exclusive access to the context, so within a call the clock and height
/// are stable and a read observes exactly what the maps hold; a host whose
/// backing store can fail mid-call must abort the surrounding transaction
/// rather than answer from a torn state. The archive is keyed by client
/// identifier and full height: it never collapses across revision numbers.
pub trait CommonContext: Sized {
    /// The client-state record of each client that has one.
    spec fn client_states(&self) -> Map<Seq<char>, EnvelopeView>;

    /// The stored consensus state of each `(client, height)` pair.
    spec fn consensus_states(&self) -> Map<(Seq<char>, Height), EnvelopeView>;

    /// The update metadata of each `(client, height)` pair.
    spec fn update_metas(&self) -> Map<(Seq<char>, Height), UpdateMeta>;

    /// The current timestamp of the local chain.
    spec fn spec_host_timestamp(&self) -> Timestamp;

    /// The current height of the local chain.
    spec fn spec_host_height(&self) -> Height;

    /// Returns the current timestamp of the local chain.
    fn host_timestamp(&self) -> (r: Result<Timestamp, ContextError>)
        ensures
            r == Ok::<Timestamp, ContextError>(self.spec_host_timestamp()),
    ;

    /// Returns the current height of the local chain.
    fn host_height(&self) -> (r: Result<Height, ContextError>)
        ensures
            r == Ok::<Height, ContextError>(self.spec_host_height()),
    ;

    /// Retrieves the consensus state stored for the given client at the
    /// given height; reports `NotFound` exactly when none is stored.
    fn consensus_state(&self, client_cons_state_path: &ClientConsensusStatePath) -> (r: Result<
        Envelope,
        ContextError,
    >)
        ensures
            ({
                let k = (client_cons_state_path.client_id@,
                    client_cons_state_path.spec_height());
                match r {
                    Ok(v) => self.consensus_states().contains_key(k) && v@
                        == self.consensus_states()[k],
                    Err(e) => !self.consensus_states().contains_key(k) && e
                        == ContextError::NotFound,
                }
            }),
    ;

    /// Returns every height at which a consensus state is stored for the
    /// client, each exactly once, in no particular order; the engine sorts.
    fn consensus_state_heights(&self, client_id: &ClientId) -> (r: Result<Vec<Height>,
        ContextError>)
        ensures
            r matches Ok(heights) && heights@.no_duplicates() && (forall|h: Height|
                heights@.contains(h) <==> self.consensus_states().contains_key((client_id@, h))),
    ;
}

/// The read surface the validation phase adds on top of [`CommonContext`]:
/// the stored neighbours of a height, used to check that an inserted header
/// respects the monotonicity of the archive.
pub trait ValidationContext: CommonContext {
    /// The lowest stored consensus state strictly above `height`, if any.
    fn next_consensus_state(&self, client_id: &ClientId, height: &Height) -> (r: Result<
        Option<Envelope>,
        ContextError,
    >)
        ensures
            ({
                match r {
                    Ok(Some(v)) => exists|h: Height|
                        {
                            &&& height.spec_lt(h)
                            &&& #[trigger] self.consensus_states().contains_key((client_id@, h))
                            &&& v@ == self.consensus_states()[(client_id@, h)]
                            &&& forall|h2: Height|
                                height.spec_lt(h2)
                                    && #[trigger] self.consensus_states().contains_key(
                                    (client_id@, h2)) ==> h.spec_le(h2)
                        },
                    Ok(None) => forall|h: Height|
                        #[trigger] self.consensus_states().contains_key((client_id@, h))
                            ==> !height.spec_lt(h),
                    Err(_) => false,
                }
            }),
    ;

    /// The highest stored consensus state strictly below `height`, if any.
    fn prev_consensus_state(&self, client_id: &ClientId, height: &Height) -> (r: Result<
        Option<Envelope>,
        ContextError,
    >)
        ensures
            ({
                match r {
                    Ok(Some(v)) => exists|h: Height|
                        {
                            &&& h.spec_lt(*height)
                            &&& #[trigger] self.consensus_states().contains_key((client_id@, h))
                            &&& v@ == self.consensus_states()[(client_id@, h)]
                            &&& forall|h2: Height|
                                h2.spec_lt(*height)
                                    && #[trigger] self.consensus_states().contains_key(
                                    (client_id@, h2)) ==> h2.spec_le(h)
                        },
                    Ok(None) => forall|h: Height|
                        #[trigger] self.consensus_states().contains_key((client_id@, h))
                            ==> !h.spec_lt(*height),
                    Err(_) => false,
                }
            }),
    ;
}

/// The write surface of the host store. Every write is total and touches
/// exactly one of the three maps, leaving the host clock and height as they
/// were: the engine's contracts pin the final store in terms of the maps
/// before the call.
pub trait ExecutionContext: CommonContext {
    /// Stores (or replaces) the client-state record at the given path.
    fn store_client_state(&mut self, path: ClientStatePath, client_state: Envelope) -> (r: Result<
        (),
        ContextError,
    >)
        ensures
            r is Ok,
            final(self).client_states() == old(self).client_states().insert(path.client_id@,
                client_state@),
            final(self).consensus_states() == old(self).consensus_states(),
            final(self).update_metas() == old(self).update_metas(),
            final(self).spec_host_timestamp() == old(self).spec_host_timestamp(),
            final(self).spec_host_height() == old(self).spec_host_height(),
    ;

    /// Stores (or replaces) the consensus state at the given path.
    fn store_consensus_state(&mut self, path: ClientConsensusStatePath, consensus_state: Envelope)
        -> (r: Result<(), ContextError>)
        ensures
            r is Ok,
            final(self).consensus_states() == old(self).consensus_states().insert(
                (path.client_id@, path.spec_height()), consensus_state@),
            final(self).client_states() == old(self).client_states(),
            final(self).update_metas() == old(self).update_metas(),
            final(self).spec_host_timestamp() == old(self).spec_host_timestamp(),
            final(self).spec_host_height() == old(self).spec_host_height(),
    ;

    /// Deletes the consensus state at the given path, if present.
    fn delete_consensus_state(&mut self, path: ClientConsensusStatePath) -> (r: Result<(),
        ContextError>)
        ensures
            r is Ok,
            final(self).consensus_states() == old(self).consensus_states().remove(
                (path.client_id@, path.spec_height())),
            final(self).client_states() == old(self).client_states(),
            final(self).update_metas() == old(self).update_metas(),
            final(self).spec_host_timestamp() == old(self).spec_host_timestamp(),
            final(self).spec_host_height() == old(self).spec_host_height(),
    ;

    /// Records the host timestamp and height at which the consensus state
    /// of `(client_id, height)` was written.
    fn store_update_meta(&mut self, client_id: &ClientId, height: Height,
        host_timestamp: Timestamp, host_height: Height) -> (r: Result<(), ContextError>)
        ensures
            r is Ok,
            final(self).update_metas() == old(self).update_metas().insert((client_id@, height),
                UpdateMeta { host_timestamp, host_height }),
            final(self).client_states() == old(self).client_states(),
            final(self).consensus_states() == old(self).consensus_states(),
            final(self).spec_host_timestamp() == old(self).spec_host_timestamp(),
            final(self).spec_host_height() == old(self).spec_host_height(),
    ;

    /// Deletes the update metadata of `(client_id, height)`, if present.
    fn delete_update_meta(&mut self, client_id: &ClientId, height: Height) -> (r: Result<(),
        ContextError>)
        ensures
            r is Ok,
            final(self).update_metas() == old(self).update_metas().remove((client_id@, height)),
            final(self).client_states() == old(self).client_states(),
            final(self).consensus_states() == old(self).consensus_states(),
            final(self).spec_host_timestamp() == old(self).spec_host_timestamp(),
            final(self).spec_host_height() == old(self).spec_host_height(),
    ;
}

/// The verification oracle consumed by the validation phase: the check that
/// a candidate header is signed by a trustable validator set relative to an
/// already stored consensus state. Execution runs strictly after a
/// successful validation, so nothing here is called by the entry points in
/// [`crate::execution`]; the trait is the injection seam through which
/// hosts supply stricter or mocked verifiers without forking the execution
/// logic. Its verdict is the oracle's own: no contract constrains it.
pub trait Verifier {
    /// Checks `header` against the trusted consensus state `trusted`, under
    /// the trust parameters of `client_state`, at the host time `now`.
    fn verify_update_header(&self, trusted: &ConsensusState, header: &Header,
        client_state: &ClientState, now: Timestamp) -> Result<(), ClientError>;
}

/// The capability through which a host names its verifier.
pub trait TmVerifier {
    type V: Verifier;

    /// Returns the verifier the validation phase must use.
    fn make_verifier(&self) -> Self::V;
}

} // verus!
