use vstd::prelude::*;

use crate::height::Height;

verus! {

/// The identifier of one light client instance on the host chain. Every
/// record the engine touches is keyed by a client identifier.
#[derive(Debug)]
pub struct ClientId {
    pub id: String,
}

impl View for ClientId {
    type V = Seq<char>;

    open spec fn view(&self) -> Seq<char> {
        self.id@
    }
}

impl Clone for ClientId {
    fn clone(&self) -> (r: Self)
        ensures
            r@ == self@,
    {
        ClientId { id: self.id.clone() }
    }
}

impl ClientId {
    pub fn new(id: String) -> (r: ClientId)
        ensures
            r@ == id@,
    {
        ClientId { id }
    }

    pub fn eq_id(&self, other: &ClientId) -> (r: bool)
        ensures
            r == (self@ == other@),
    {
        self.id == other.id
    }
}

/// The path of the singleton client-state record of one client.
#[derive(Debug)]
pub struct ClientStatePath {
    pub client_id: ClientId,
}

impl ClientStatePath {
    pub fn new(client_id: ClientId) -> (r: ClientStatePath)
        ensures
            r.client_id@ == client_id@,
    {
        ClientStatePath { client_id }
    }
}

/// The path of the consensus state (and its companion update metadata)
/// stored for one client at one height. Both revision components key the
/// record: the archive never collapses across revision numbers.
#[derive(Debug)]
pub struct ClientConsensusStatePath {
    pub client_id: ClientId,
    pub revision_number: u64,
    pub revision_height: u64,
}

impl ClientConsensusStatePath {
    pub open spec fn spec_height(&self) -> Height {
        Height {
            revision_number: self.revision_number,
            revision_height: self.revision_height,
        }
    }

    pub fn new(client_id: ClientId, revision_number: u64, revision_height: u64) -> (r:
        ClientConsensusStatePath)
        ensures
            r.client_id@ == client_id@,
            r.spec_height() == (Height { revision_number, revision_height }),
    {
        ClientConsensusStatePath { client_id, revision_number, revision_height }
    }

    pub fn height(&self) -> (r: Height)
        ensures
            r == self.spec_height(),
    {
        Height {
            revision_number: self.revision_number,
            revision_height: self.revision_height,
        }
    }
}

/// Copies a byte string; the store and the envelope conversions hand out
/// owned values.
pub fn clone_bytes(v: &Vec<u8>) -> (r: Vec<u8>)
    ensures
        r@ == v@,
{
    let mut r: Vec<u8> = Vec::new();
    let mut i: usize = 0;
    while i < v.len()
        invariant
            0 <= i <= v@.len(),
            r@ == v@.subrange(0, i as int),
        decreases v@.len() - i,
    {
        r.push(v[i]);
        proof {
            assert(r@ =~= v@.subrange(0, i + 1));
        }
        i = i + 1;
    }
    proof {
        assert(r@ =~= v@);
    }
    r
}

/// Copies a list of strings, preserving its deep view.
pub fn clone_strings(v: &Vec<String>) -> (r: Vec<String>)
    ensures
        r.deep_view() == v.deep_view(),
{
    let mut r: Vec<String> = Vec::new();
    let mut i: usize = 0;
    while i < v.len()
        invariant
            0 <= i <= v@.len(),
            r@ == v@.subrange(0, i as int),
        decreases v@.len() - i,
    {
        r.push(v[i].clone());
        proof {
            assert(r@ =~= v@.subrange(0, i + 1));
        }
        i = i + 1;
    }
    proof {
        assert(r@ =~= v@);
        assert(r.deep_view() =~= v.deep_view());
    }
    r
}

} // verus!
