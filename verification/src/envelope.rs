use vstd::prelude::*;

use crate::client_state::ClientState;
use crate::client_state::ClientStateView;
use crate::consensus_state::ConsensusState;
use crate::consensus_state::ConsensusStateView;
use crate::errors::ClientError;
use crate::header::Header;
use crate::header::HeaderView;

verus! {

/// A protobuf-`Any`-shaped message envelope, modelled as a tagged union of
/// the recognised payloads. Each execution entry point receives envelopes
/// and decodes the payload kind it expects; decoding is total, with the
/// single error `Decode` for a payload of the wrong kind. The same envelopes
/// are what the host store holds, so a stored blob of the wrong kind also
/// surfaces as `Decode`.
#[derive(Debug)]
pub enum Envelope {
    ClientState(ClientState),
    ConsensusState(ConsensusState),
    Header(Header),
    /// Misbehaviour evidence. Its content is consumed by the validation
    /// phase; execution only reacts to its arrival, so the envelope carries
    /// no payload here.
    Misbehaviour,
}

/// The mathematical value of an [`Envelope`].
pub ghost enum EnvelopeView {
    ClientState(ClientStateView),
    ConsensusState(ConsensusStateView),
    Header(HeaderView),
    Misbehaviour,
}

impl View for Envelope {
    type V = EnvelopeView;

    open spec fn view(&self) -> EnvelopeView {
        match self {
            Envelope::ClientState(c) => EnvelopeView::ClientState(c@),
            Envelope::ConsensusState(c) => EnvelopeView::ConsensusState(c@),
            Envelope::Header(h) => EnvelopeView::Header(h@),
            Envelope::Misbehaviour => EnvelopeView::Misbehaviour,
        }
    }
}

impl Clone for Envelope {
    fn clone(&self) -> (r: Self)
        ensures
            r@ == self@,
    {
        match self {
            Envelope::ClientState(c) => Envelope::ClientState(c.clone()),
            Envelope::ConsensusState(c) => Envelope::ConsensusState(c.clone()),
            Envelope::Header(h) => Envelope::Header(h.clone()),
            Envelope::Misbehaviour => Envelope::Misbehaviour,
        }
    }
}

impl Envelope {
    /// Decodes a consensus-state payload; any other kind is malformed input
    /// for the caller that expects one.
    pub fn try_into_consensus_state(self) -> (r: Result<ConsensusState, ClientError>)
        ensures
            self@ matches EnvelopeView::ConsensusState(c) ==> r matches Ok(d) && d@ == c,
            !(self@ is ConsensusState) ==> r == Err::<ConsensusState, ClientError>(
                ClientError::Decode),
    {
        match self {
            Envelope::ConsensusState(c) => Ok(c),
            _ => Err(ClientError::Decode),
        }
    }

    /// Decodes a header payload.
    pub fn try_into_header(self) -> (r: Result<Header, ClientError>)
        ensures
            self@ matches EnvelopeView::Header(h) ==> r matches Ok(d) && d@ == h,
            !(self@ is Header) ==> r == Err::<Header, ClientError>(ClientError::Decode),
    {
        match self {
            Envelope::Header(h) => Ok(h),
            _ => Err(ClientError::Decode),
        }
    }

    /// Decodes a client-state payload.
    pub fn try_into_client_state(self) -> (r: Result<ClientState, ClientError>)
        ensures
            self@ matches EnvelopeView::ClientState(c) ==> r matches Ok(d) && d@ == c,
            !(self@ is ClientState) ==> r == Err::<ClientState, ClientError>(ClientError::Decode),
    {
        match self {
            Envelope::ClientState(c) => Ok(c),
            _ => Err(ClientError::Decode),
        }
    }
}

} // verus!
