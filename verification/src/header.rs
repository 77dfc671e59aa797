use vstd::prelude::*;

use crate::height::Height;
use crate::path::clone_bytes;
use crate::time::Timestamp;

verus! {

/// The part of a signed Tendermint header that the execution engine reads.
/// Signatures, validator sets and the trusted anchor are consumed by the
/// validation phase, which runs before execution; by the time a header
/// reaches the engine it has already been verified.
#[derive(Debug)]
pub struct Header {
    /// The height of the new block.
    pub height: Height,
    /// The block time of the new block.
    pub timestamp: Timestamp,
    /// The application hash committed by the block: the commitment root of
    /// the consensus state derived from this header.
    pub app_hash: Vec<u8>,
    /// The hash of the validator set of the following block.
    pub next_validators_hash: Vec<u8>,
}

/// The mathematical value of a [`Header`].
pub ghost struct HeaderView {
    pub height: Height,
    pub timestamp: Timestamp,
    pub app_hash: Seq<u8>,
    pub next_validators_hash: Seq<u8>,
}

impl View for Header {
    type V = HeaderView;

    open spec fn view(&self) -> HeaderView {
        HeaderView {
            height: self.height,
            timestamp: self.timestamp,
            app_hash: self.app_hash@,
            next_validators_hash: self.next_validators_hash@,
        }
    }
}

impl Clone for Header {
    fn clone(&self) -> (r: Self)
        ensures
            r@ == self@,
    {
        Header {
            height: self.height,
            timestamp: self.timestamp,
            app_hash: clone_bytes(&self.app_hash),
            next_validators_hash: clone_bytes(&self.next_validators_hash),
        }
    }
}

impl Header {
    pub fn new(height: Height, timestamp: Timestamp, app_hash: Vec<u8>,
        next_validators_hash: Vec<u8>) -> (r: Header)
        ensures
            r@ == (HeaderView {
                height,
                timestamp,
                app_hash: app_hash@,
                next_validators_hash: next_validators_hash@,
            }),
    {
        Header { height, timestamp, app_hash, next_validators_hash }
    }

    pub fn height(&self) -> (r: Height)
        ensures
            r == self@.height,
    {
        self.height
    }
}

} // verus!
