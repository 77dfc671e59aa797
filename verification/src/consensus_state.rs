use vstd::prelude::*;

use crate::header::Header;
use crate::header::HeaderView;
use crate::path::clone_bytes;
use crate::time::Timestamp;

verus! {

/// The consensus state of the counterparty chain at one height: the minimum
/// data needed to verify membership proofs and subsequent headers. Immutable
/// once stored at a given height.
#[derive(Debug)]
pub struct ConsensusState {
    /// The commitment root, opaque bytes against which packet proofs are
    /// checked.
    pub root: Vec<u8>,
    /// The block time of the header this state was derived from.
    pub timestamp: Timestamp,
    /// The hash of the validator set that signs the next block.
    pub next_validators_hash: Vec<u8>,
}

/// The mathematical value of a [`ConsensusState`].
pub ghost struct ConsensusStateView {
    pub root: Seq<u8>,
    pub timestamp: Timestamp,
    pub next_validators_hash: Seq<u8>,
}

impl View for ConsensusState {
    type V = ConsensusStateView;

    open spec fn view(&self) -> ConsensusStateView {
        ConsensusStateView {
            root: self.root@,
            timestamp: self.timestamp,
            next_validators_hash: self.next_validators_hash@,
        }
    }
}

impl Clone for ConsensusState {
    fn clone(&self) -> (r: Self)
        ensures
            r@ == self@,
    {
        ConsensusState {
            root: clone_bytes(&self.root),
            timestamp: self.timestamp,
            next_validators_hash: clone_bytes(&self.next_validators_hash),
        }
    }
}

/// The consensus state a header induces: the header's application hash
/// becomes the commitment root, its block time and next-validators hash are
/// carried over.
pub open spec fn spec_consensus_from_header(h: HeaderView) -> ConsensusStateView {
    ConsensusStateView {
        root: h.app_hash,
        timestamp: h.timestamp,
        next_validators_hash: h.next_validators_hash,
    }
}

impl ConsensusState {
    pub fn new(root: Vec<u8>, timestamp: Timestamp, next_validators_hash: Vec<u8>) -> (r:
        ConsensusState)
        ensures
            r@ == (ConsensusStateView {
                root: root@,
                timestamp,
                next_validators_hash: next_validators_hash@,
            }),
    {
        ConsensusState { root, timestamp, next_validators_hash }
    }

    pub fn from_header(header: &Header) -> (r: ConsensusState)
        ensures
            r@ == spec_consensus_from_header(header@),
    {
        ConsensusState {
            root: clone_bytes(&header.app_hash),
            timestamp: header.timestamp,
            next_validators_hash: clone_bytes(&header.next_validators_hash),
        }
    }

    pub fn timestamp(&self) -> (r: Timestamp)
        ensures
            r == self@.timestamp,
    {
        self.timestamp
    }

    pub fn next_validators_hash(&self) -> (r: &Vec<u8>)
        ensures
            r@ == self@.next_validators_hash,
    {
        &self.next_validators_hash
    }
}

/// The deliberately invalid commitment root placed at an upgrade boundary.
/// No membership proof verifies against it, so the consensus state that
/// carries it anchors header verification on the new chain without ever
/// validating a packet proof.
pub open spec fn spec_sentinel_root() -> Seq<u8> {
    seq![115u8, 101u8, 110u8, 116u8, 105u8, 110u8, 101u8, 108u8, 95u8, 114u8, 111u8, 111u8, 116u8]
}

/// The bytes of the string `sentinel_root`.
pub fn sentinel_root_bytes() -> (r: Vec<u8>)
    ensures
        r@ == spec_sentinel_root(),
{
    let r: Vec<u8> = vec![115u8, 101u8, 110u8, 116u8, 105u8, 110u8, 101u8, 108u8, 95u8, 114u8,
        111u8, 111u8, 116u8];
    proof {
        assert(r@ =~= spec_sentinel_root());
    }
    r
}

} // verus!
