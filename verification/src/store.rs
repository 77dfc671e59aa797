use vstd::prelude::*;

use crate::context::CommonContext;
use crate::context::ExecutionContext;
use crate::context::UpdateMeta;
use crate::context::ValidationContext;
use crate::envelope::Envelope;
use crate::envelope::EnvelopeView;
use crate::errors::ContextError;
use crate::height::Height;
use crate::path::ClientConsensusStatePath;
use crate::path::ClientId;
use crate::path::ClientStatePath;
use crate::time::Timestamp;

verus! {

/// The map a client-state record list denotes.
pub open spec fn clients_map(s: Seq<(ClientId, Envelope)>) -> Map<Seq<char>, EnvelopeView> {
    Map::new(|k: Seq<char>| exists|i: int| 0 <= i < s.len() && (#[trigger] s[i]).0@ == k,
        |k: Seq<char>| s[choose|i: int| 0 <= i < s.len() && (#[trigger] s[i]).0@ == k].1@)
}

/// The map a consensus-state archive list denotes.
pub open spec fn archive_map(s: Seq<(ClientId, Height, Envelope)>) -> Map<(Seq<char>, Height),
    EnvelopeView> {
    Map::new(|k: (Seq<char>, Height)| exists|i: int|
        0 <= i < s.len() && (#[trigger] s[i]).0@ == k.0 && s[i].1 == k.1, |k: (Seq<char>, Height)|
        s[choose|i: int| 0 <= i < s.len() && (#[trigger] s[i]).0@ == k.0 && s[i].1 == k.1].2@)
}

/// The map an update-metadata list denotes.
pub open spec fn metas_map(s: Seq<(ClientId, Height, UpdateMeta)>) -> Map<(Seq<char>, Height),
    UpdateMeta> {
    Map::new(|k: (Seq<char>, Height)| exists|i: int|
        0 <= i < s.len() && (#[trigger] s[i]).0@ == k.0 && s[i].1 == k.1, |k: (Seq<char>, Height)|
        s[choose|i: int| 0 <= i < s.len() && (#[trigger] s[i]).0@ == k.0 && s[i].1 == k.1].2)
}

/// A host context held entirely in memory: three association lists with
/// distinct keys, plus the host clock and height. It serves hosts that keep
/// their IBC state in process memory, and it is the store against which the
/// engine's contracts are exercised by tests.
pub struct MemoryContext {
    host_timestamp: Timestamp,
    host_height: Height,
    clients: Vec<(ClientId, Envelope)>,
    archive: Vec<(ClientId, Height, Envelope)>,
    metas: Vec<(ClientId, Height, UpdateMeta)>,
}

impl MemoryContext {
    /// Each record list holds every key at most once.
    #[verifier::type_invariant]
    spec fn wf(self) -> bool {
        &&& forall|i: int, j: int|
            0 <= i < j < self.clients@.len() ==> (#[trigger] self.clients@[i]).0@ != (
            #[trigger] self.clients@[j]).0@
        &&& forall|i: int, j: int|
            0 <= i < j < self.archive@.len() ==> !((#[trigger] self.archive@[i]).0@ == (
            #[trigger] self.archive@[j]).0@ && self.archive@[i].1 == self.archive@[j].1)
        &&& forall|i: int, j: int|
            0 <= i < j < self.metas@.len() ==> !((#[trigger] self.metas@[i]).0@ == (
            #[trigger] self.metas@[j]).0@ && self.metas@[i].1 == self.metas@[j].1)
    }

    /// An empty store under the given host clock and height.
    pub fn new(host_timestamp: Timestamp, host_height: Height) -> (r: MemoryContext)
        ensures
            r.client_states() == Map::<Seq<char>, EnvelopeView>::empty(),
            r.consensus_states() == Map::<(Seq<char>, Height), EnvelopeView>::empty(),
            r.update_metas() == Map::<(Seq<char>, Height), UpdateMeta>::empty(),
            r.spec_host_timestamp() == host_timestamp,
            r.spec_host_height() == host_height,
    {
        let r = MemoryContext {
            host_timestamp,
            host_height,
            clients: Vec::new(),
            archive: Vec::new(),
            metas: Vec::new(),
        };
        proof {
            assert(r.client_states() =~= Map::<Seq<char>, EnvelopeView>::empty());
            assert(r.consensus_states() =~= Map::<(Seq<char>, Height), EnvelopeView>::empty());
            assert(r.update_metas() =~= Map::<(Seq<char>, Height), UpdateMeta>::empty());
        }
        r
    }

    /// Moves the host clock; the stored records are untouched.
    pub fn set_host_timestamp(&mut self, host_timestamp: Timestamp)
        ensures
            final(self).spec_host_timestamp() == host_timestamp,
            final(self).spec_host_height() == old(self).spec_host_height(),
            final(self).client_states() == old(self).client_states(),
            final(self).consensus_states() == old(self).consensus_states(),
            final(self).update_metas() == old(self).update_metas(),
    {
        proof {
            use_type_invariant(&*self);
        }
        self.host_timestamp = host_timestamp;
    }

    /// Moves the host height; the stored records are untouched.
    pub fn set_host_height(&mut self, host_height: Height)
        ensures
            final(self).spec_host_height() == host_height,
            final(self).spec_host_timestamp() == old(self).spec_host_timestamp(),
            final(self).client_states() == old(self).client_states(),
            final(self).consensus_states() == old(self).consensus_states(),
            final(self).update_metas() == old(self).update_metas(),
    {
        proof {
            use_type_invariant(&*self);
        }
        self.host_height = host_height;
    }

    /// The client-state record of the given client, if one is stored.
    pub fn client_state(&self, client_id: &ClientId) -> (r: Option<Envelope>)
        ensures
            match r {
                Some(v) => self.client_states().contains_key(client_id@) && v@
                    == self.client_states()[client_id@],
                None => !self.client_states().contains_key(client_id@),
            },
    {
        proof {
            use_type_invariant(&*self);
        }
        let n: usize = self.clients.len();
        let mut i: usize = 0;
        while i < n
            invariant
                self.wf(),
                n == self.clients@.len(),
                0 <= i <= n,
                forall|j: int| 0 <= j < i ==> (#[trigger] self.clients@[j]).0@ != client_id@,
            decreases n - i,
        {
            if self.clients[i].0.eq_id(client_id) {
                proof {
                    lemma_clients_found(self.clients@, client_id@, i as int);
                }
                return Some(self.clients[i].1.clone());
            }
            i = i + 1;
        }
        None
    }

    /// The update metadata of the given client and height, if stored.
    pub fn update_meta(&self, client_id: &ClientId, height: Height) -> (r: Option<UpdateMeta>)
        ensures
            match r {
                Some(v) => self.update_metas().contains_key((client_id@, height)) && v
                    == self.update_metas()[(client_id@, height)],
                None => !self.update_metas().contains_key((client_id@, height)),
            },
    {
        proof {
            use_type_invariant(&*self);
        }
        let n: usize = self.metas.len();
        let mut i: usize = 0;
        while i < n
            invariant
                self.wf(),
                n == self.metas@.len(),
                0 <= i <= n,
                forall|j: int|
                    0 <= j < i ==> !((#[trigger] self.metas@[j]).0@ == client_id@
                        && self.metas@[j].1 == height),
            decreases n - i,
        {
            if self.metas[i].0.eq_id(client_id) && self.metas[i].1 == height {
                proof {
                    lemma_metas_found(self.metas@, (client_id@, height), i as int);
                }
                return Some(self.metas[i].2);
            }
            i = i + 1;
        }
        None
    }
}

/// With distinct keys, a matching position determines the denoted map.
proof fn lemma_clients_found(s: Seq<(ClientId, Envelope)>, k: Seq<char>, i: int)
    requires
        forall|p: int, q: int|
            0 <= p < q < s.len() ==> (#[trigger] s[p]).0@ != (#[trigger] s[q]).0@,
        0 <= i < s.len(),
        s[i].0@ == k,
    ensures
        clients_map(s).contains_key(k),
        clients_map(s)[k] == s[i].1@,
{
    let j = choose|j: int| 0 <= j < s.len() && (#[trigger] s[j]).0@ == k;
    assert(j == i);
}

/// With distinct keys, a matching position determines the denoted map.
proof fn lemma_archive_found(s: Seq<(ClientId, Height, Envelope)>, k: (Seq<char>, Height),
    i: int)
    requires
        forall|p: int, q: int|
            0 <= p < q < s.len() ==> !((#[trigger] s[p]).0@ == (#[trigger] s[q]).0@ && s[p].1
                == s[q].1),
        0 <= i < s.len(),
        s[i].0@ == k.0,
        s[i].1 == k.1,
    ensures
        archive_map(s).contains_key(k),
        archive_map(s)[k] == s[i].2@,
{
    let j = choose|j: int| 0 <= j < s.len() && (#[trigger] s[j]).0@ == k.0 && s[j].1 == k.1;
    assert(j == i);
}

/// With distinct keys, a matching position determines the denoted map.
proof fn lemma_metas_found(s: Seq<(ClientId, Height, UpdateMeta)>, k: (Seq<char>, Height), i: int)
    requires
        forall|p: int, q: int|
            0 <= p < q < s.len() ==> !((#[trigger] s[p]).0@ == (#[trigger] s[q]).0@ && s[p].1
                == s[q].1),
        0 <= i < s.len(),
        s[i].0@ == k.0,
        s[i].1 == k.1,
    ensures
        metas_map(s).contains_key(k),
        metas_map(s)[k] == s[i].2,
{
    let j = choose|j: int| 0 <= j < s.len() && (#[trigger] s[j]).0@ == k.0 && s[j].1 == k.1;
    assert(j == i);
}

impl CommonContext for MemoryContext {
    closed spec fn client_states(&self) -> Map<Seq<char>, EnvelopeView> {
        clients_map(self.clients@)
    }

    closed spec fn consensus_states(&self) -> Map<(Seq<char>, Height), EnvelopeView> {
        archive_map(self.archive@)
    }

    closed spec fn update_metas(&self) -> Map<(Seq<char>, Height), UpdateMeta> {
        metas_map(self.metas@)
    }

    closed spec fn spec_host_timestamp(&self) -> Timestamp {
        self.host_timestamp
    }

    closed spec fn spec_host_height(&self) -> Height {
        self.host_height
    }

    fn host_timestamp(&self) -> (r: Result<Timestamp, ContextError>) {
        Ok(self.host_timestamp)
    }

    fn host_height(&self) -> (r: Result<Height, ContextError>) {
        Ok(self.host_height)
    }

    fn consensus_state(&self, client_cons_state_path: &ClientConsensusStatePath) -> (r: Result<
        Envelope,
        ContextError,
    >) {
        proof {
            use_type_invariant(&*self);
        }
        let height: Height = client_cons_state_path.height();
        let n: usize = self.archive.len();
        let mut i: usize = 0;
        while i < n
            invariant
                self.wf(),
                n == self.archive@.len(),
                0 <= i <= n,
                height == client_cons_state_path.spec_height(),
                forall|j: int|
                    0 <= j < i ==> !((#[trigger] self.archive@[j]).0@
                        == client_cons_state_path.client_id@ && self.archive@[j].1
                        == client_cons_state_path.spec_height()),
            decreases n - i,
        {
            if self.archive[i].0.eq_id(&client_cons_state_path.client_id) && self.archive[i].1
                == height {
                proof {
                    lemma_archive_found(self.archive@, (client_cons_state_path.client_id@,
                        client_cons_state_path.spec_height()), i as int);
                }
                return Ok(self.archive[i].2.clone());
            }
            i = i + 1;
        }
        Err(ContextError::NotFound)
    }

    fn consensus_state_heights(&self, client_id: &ClientId) -> (r: Result<Vec<Height>,
        ContextError>) {
        proof {
            use_type_invariant(&*self);
        }
        let n: usize = self.archive.len();
        let mut heights: Vec<Height> = Vec::new();
        let mut i: usize = 0;
        while i < n
            invariant
                self.wf(),
                n == self.archive@.len(),
                0 <= i <= n,
                forall|h: Height| #[trigger]
                    heights@.contains(h) <==> exists|j: int|
                        0 <= j < i && (#[trigger] self.archive@[j]).0@ == client_id@
                            && self.archive@[j].1 == h,
                forall|p: int, q: int|
                    0 <= p < q < heights@.len() ==> heights@[p] != heights@[q],
            decreases n - i,
        {
            let entry_matches: bool = self.archive[i].0.eq_id(client_id);
            if entry_matches {
                let h: Height = self.archive[i].1;
                let ghost pre: Seq<Height> = heights@;
                proof {
                    if pre.contains(h) {
                        let j = choose|j: int|
                            0 <= j < i && (#[trigger] self.archive@[j]).0@ == client_id@
                                && self.archive@[j].1 == h;
                        assert(false);
                    }
                }
                heights.push(h);
                proof {
                    assert forall|h2: Height| #[trigger] heights@.contains(h2) implies exists|
                        j: int|
                        0 <= j < i + 1 && (#[trigger] self.archive@[j]).0@ == client_id@
                            && self.archive@[j].1 == h2 by {
                        let p = choose|p: int| 0 <= p < heights@.len() && heights@[p] == h2;
                        if p < pre.len() {
                            assert(pre[p] == h2);
                            assert(pre.contains(h2));
                        } else {
                            assert(h2 == h);
                            assert((#[trigger] self.archive@[i as int]).0@ == client_id@);
                        }
                    }
                    assert forall|h2: Height| (exists|j: int|
                        0 <= j < i + 1 && (#[trigger] self.archive@[j]).0@ == client_id@
                            && self.archive@[j].1 == h2) implies #[trigger] heights@.contains(
                        h2) by {
                        let j = choose|j: int|
                            0 <= j < i + 1 && (#[trigger] self.archive@[j]).0@ == client_id@
                                && self.archive@[j].1 == h2;
                        if j < i {
                            assert(pre.contains(h2));
                            let p = choose|p: int| 0 <= p < pre.len() && pre[p] == h2;
                            assert(heights@[p] == h2);
                        } else {
                            assert(heights@[pre.len() as int] == h);
                        }
                    }
                    assert forall|p: int, q: int|
                        0 <= p < q < heights@.len() implies heights@[p] != heights@[q] by {
                        if q == heights@.len() - 1 {
                            assert(pre[p] == heights@[p]);
                            assert(!pre.contains(h));
                            if heights@[p] == h {
                                assert(pre.contains(h));
                            }
                        }
                    }
                }
            }
            i = i + 1;
        }
        proof {
            assert forall|h: Height| #[trigger]
                heights@.contains(h) <==> archive_map(self.archive@).contains_key(
                (client_id@, h)) by {
                if heights@.contains(h) {
                    let j = choose|j: int|
                        0 <= j < n && (#[trigger] self.archive@[j]).0@ == client_id@
                            && self.archive@[j].1 == h;
                }
            }
            assert(heights@.no_duplicates());
        }
        Ok(heights)
    }
}

impl ValidationContext for MemoryContext {
    fn next_consensus_state(&self, client_id: &ClientId, height: &Height) -> (r: Result<
        Option<Envelope>,
        ContextError,
    >) {
        proof {
            use_type_invariant(&*self);
        }
        let n: usize = self.archive.len();
        let mut best: usize = n;
        let mut i: usize = 0;
        while i < n
            invariant
                self.wf(),
                n == self.archive@.len(),
                0 <= i <= n,
                best <= n,
                best < n ==> (#[trigger] self.archive@[best as int]).0@ == client_id@
                    && height.spec_lt(self.archive@[best as int].1),
                forall|j: int|
                    0 <= j < i && (#[trigger] self.archive@[j]).0@ == client_id@
                        && height.spec_lt(self.archive@[j].1) ==> best < n
                        && self.archive@[best as int].1.spec_le(self.archive@[j].1),
            decreases n - i,
        {
            if self.archive[i].0.eq_id(client_id) && height.lt(&self.archive[i].1) {
                if best == n || self.archive[i].1.lt(&self.archive[best].1) {
                    best = i;
                }
            }
            i = i + 1;
        }
        if best < n {
            let out: Envelope = self.archive[best].2.clone();
            proof {
                let bh = self.archive@[best as int].1;
                lemma_archive_found(self.archive@, (client_id@, bh), best as int);
                assert forall|h2: Height|
                    height.spec_lt(h2) && #[trigger] self.consensus_states().contains_key(
                    (client_id@, h2)) implies bh.spec_le(h2) by {
                    let j = choose|j: int|
                        0 <= j < self.archive@.len() && (#[trigger] self.archive@[j]).0@
                            == client_id@ && self.archive@[j].1 == h2;
                }
                assert(height.spec_lt(bh) && self.consensus_states().contains_key(
                    (client_id@, bh)) && out@ == self.consensus_states()[(client_id@, bh)]);
            }
            Ok(Some(out))
        } else {
            proof {
                assert forall|h2: Height|
                    #[trigger] self.consensus_states().contains_key((client_id@, h2))
                        implies !height.spec_lt(h2) by {
                    let j = choose|j: int|
                        0 <= j < self.archive@.len() && (#[trigger] self.archive@[j]).0@
                            == client_id@ && self.archive@[j].1 == h2;
                }
            }
            Ok(None)
        }
    }

    fn prev_consensus_state(&self, client_id: &ClientId, height: &Height) -> (r: Result<
        Option<Envelope>,
        ContextError,
    >) {
        proof {
            use_type_invariant(&*self);
        }
        let n: usize = self.archive.len();
        let mut best: usize = n;
        let mut i: usize = 0;
        while i < n
            invariant
                self.wf(),
                n == self.archive@.len(),
                0 <= i <= n,
                best <= n,
                best < n ==> (#[trigger] self.archive@[best as int]).0@ == client_id@
                    && self.archive@[best as int].1.spec_lt(*height),
                forall|j: int|
                    0 <= j < i && (#[trigger] self.archive@[j]).0@ == client_id@
                        && self.archive@[j].1.spec_lt(*height) ==> best < n
                        && self.archive@[j].1.spec_le(self.archive@[best as int].1),
            decreases n - i,
        {
            if self.archive[i].0.eq_id(client_id) && self.archive[i].1.lt(height) {
                if best == n || self.archive[best].1.lt(&self.archive[i].1) {
                    best = i;
                }
            }
            i = i + 1;
        }
        if best < n {
            let out: Envelope = self.archive[best].2.clone();
            proof {
                let bh = self.archive@[best as int].1;
                lemma_archive_found(self.archive@, (client_id@, bh), best as int);
                assert forall|h2: Height|
                    h2.spec_lt(*height) && #[trigger] self.consensus_states().contains_key(
                    (client_id@, h2)) implies h2.spec_le(bh) by {
                    let j = choose|j: int|
                        0 <= j < self.archive@.len() && (#[trigger] self.archive@[j]).0@
                            == client_id@ && self.archive@[j].1 == h2;
                }
                assert(bh.spec_lt(*height) && self.consensus_states().contains_key(
                    (client_id@, bh)) && out@ == self.consensus_states()[(client_id@, bh)]);
            }
            Ok(Some(out))
        } else {
            proof {
                assert forall|h2: Height|
                    #[trigger] self.consensus_states().contains_key((client_id@, h2))
                        implies !h2.spec_lt(*height) by {
                    let j = choose|j: int|
                        0 <= j < self.archive@.len() && (#[trigger] self.archive@[j]).0@
                            == client_id@ && self.archive@[j].1 == h2;
                }
            }
            Ok(None)
        }
    }
}

/// Replacing the entry at a position whose key already matches denotes an
/// insert over the old key.
proof fn lemma_clients_set(pre: Seq<(ClientId, Envelope)>, i: int, entry: (ClientId, Envelope))
    requires
        forall|p: int, q: int|
            0 <= p < q < pre.len() ==> (#[trigger] pre[p]).0@ != (#[trigger] pre[q]).0@,
        0 <= i < pre.len(),
        pre[i].0@ == entry.0@,
    ensures
        forall|p: int, q: int|
            0 <= p < q < pre.update(i, entry).len() ==> (#[trigger] pre.update(i, entry)[p]).0@
                != (#[trigger] pre.update(i, entry)[q]).0@,
        clients_map(pre.update(i, entry)) == clients_map(pre).insert(entry.0@, entry.1@),
{
    let post = pre.update(i, entry);
    let m1 = clients_map(post);
    let m2 = clients_map(pre).insert(entry.0@, entry.1@);
    assert forall|k: Seq<char>| m1.contains_key(k) <==> m2.contains_key(k) by {
        if m1.contains_key(k) {
            let j = choose|j: int| 0 <= j < post.len() && (#[trigger] post[j]).0@ == k;
            assert((#[trigger] pre[j]).0@ == if j == i {
                pre[i].0@
            } else {
                pre[j].0@
            });
        }
        if m2.contains_key(k) {
            if k == entry.0@ {
                assert((#[trigger] post[i]).0@ == k);
            } else {
                let j = choose|j: int| 0 <= j < pre.len() && (#[trigger] pre[j]).0@ == k;
                assert((#[trigger] post[j]).0@ == k);
            }
        }
    }
    assert forall|k: Seq<char>| m1.contains_key(k) implies m1[k] == m2[k] by {
        let j = choose|j: int| 0 <= j < post.len() && (#[trigger] post[j]).0@ == k;
        if k == entry.0@ {
            assert(j == i);
        } else {
            assert(j != i);
            assert((#[trigger] pre[j]).0@ == k);
            let j2 = choose|j2: int| 0 <= j2 < pre.len() && (#[trigger] pre[j2]).0@ == k;
            assert(j2 == j);
        }
    }
    assert(m1 =~= m2);
}

/// Appending an entry whose key is absent denotes an insert.
proof fn lemma_clients_push(pre: Seq<(ClientId, Envelope)>, entry: (ClientId, Envelope))
    requires
        forall|p: int, q: int|
            0 <= p < q < pre.len() ==> (#[trigger] pre[p]).0@ != (#[trigger] pre[q]).0@,
        forall|p: int| 0 <= p < pre.len() ==> (#[trigger] pre[p]).0@ != entry.0@,
    ensures
        forall|p: int, q: int|
            0 <= p < q < pre.push(entry).len() ==> (#[trigger] pre.push(entry)[p]).0@ != (
            #[trigger] pre.push(entry)[q]).0@,
        clients_map(pre.push(entry)) == clients_map(pre).insert(entry.0@, entry.1@),
{
    let post = pre.push(entry);
    let m1 = clients_map(post);
    let m2 = clients_map(pre).insert(entry.0@, entry.1@);
    assert forall|k: Seq<char>| m1.contains_key(k) <==> m2.contains_key(k) by {
        if m1.contains_key(k) {
            let j = choose|j: int| 0 <= j < post.len() && (#[trigger] post[j]).0@ == k;
            if j < pre.len() {
                assert((#[trigger] pre[j]).0@ == k);
            }
        }
        if m2.contains_key(k) {
            if k == entry.0@ {
                assert((#[trigger] post[pre.len() as int]).0@ == k);
            } else {
                let j = choose|j: int| 0 <= j < pre.len() && (#[trigger] pre[j]).0@ == k;
                assert((#[trigger] post[j]).0@ == k);
            }
        }
    }
    assert forall|k: Seq<char>| m1.contains_key(k) implies m1[k] == m2[k] by {
        let j = choose|j: int| 0 <= j < post.len() && (#[trigger] post[j]).0@ == k;
        if k == entry.0@ {
            assert(j == pre.len());
        } else {
            assert(j < pre.len());
            assert((#[trigger] pre[j]).0@ == k);
            let j2 = choose|j2: int| 0 <= j2 < pre.len() && (#[trigger] pre[j2]).0@ == k;
            assert(j2 == j);
        }
    }
    assert(m1 =~= m2);
}

impl ExecutionContext for MemoryContext {
    fn store_client_state(&mut self, path: ClientStatePath, client_state: Envelope) -> (r: Result<
        (),
        ContextError,
    >) {
        proof {
            use_type_invariant(&*self);
        }
        let key: ClientId = path.client_id;
        let mut list: Vec<(ClientId, Envelope)> = Vec::new();
        std::mem::swap(&mut list, &mut self.clients);
        let n: usize = list.len();
        let mut i: usize = 0;
        while i < n && !list[i].0.eq_id(&key)
            invariant
                n == list@.len(),
                0 <= i <= n,
                forall|j: int| 0 <= j < i ==> (#[trigger] list@[j]).0@ != key@,
            decreases n - i,
        {
            i = i + 1;
        }
        let ghost pre = list@;
        if i < n {
            list.set(i, (key, client_state));
            proof {
                lemma_clients_set(pre, i as int, list@[i as int]);
            }
        } else {
            list.push((key, client_state));
            proof {
                lemma_clients_push(pre, list@.last());
            }
        }
        self.clients = list;
        Ok(())
    }

    fn store_consensus_state(&mut self, path: ClientConsensusStatePath,
        consensus_state: Envelope) -> (r: Result<(), ContextError>) {
        proof {
            use_type_invariant(&*self);
        }
        let height: Height = path.height();
        let key: ClientId = path.client_id;
        let mut list: Vec<(ClientId, Height, Envelope)> = Vec::new();
        std::mem::swap(&mut list, &mut self.archive);
        let n: usize = list.len();
        let mut i: usize = 0;
        while i < n && !(list[i].0.eq_id(&key) && list[i].1 == height)
            invariant
                n == list@.len(),
                0 <= i <= n,
                forall|j: int|
                    0 <= j < i ==> !((#[trigger] list@[j]).0@ == key@ && list@[j].1 == height),
            decreases n - i,
        {
            i = i + 1;
        }
        let ghost pre = list@;
        if i < n {
            list.set(i, (key, height, consensus_state));
            proof {
                lemma_archive_set(pre, i as int, list@[i as int]);
            }
        } else {
            list.push((key, height, consensus_state));
            proof {
                lemma_archive_push(pre, list@.last());
            }
        }
        self.archive = list;
        Ok(())
    }

    fn delete_consensus_state(&mut self, path: ClientConsensusStatePath) -> (r: Result<(),
        ContextError>) {
        proof {
            use_type_invariant(&*self);
        }
        let height: Height = path.height();
        let mut list: Vec<(ClientId, Height, Envelope)> = Vec::new();
        std::mem::swap(&mut list, &mut self.archive);
        let n: usize = list.len();
        let mut i: usize = 0;
        while i < n && !(list[i].0.eq_id(&path.client_id) && list[i].1 == height)
            invariant
                n == list@.len(),
                0 <= i <= n,
                height == path.spec_height(),
                forall|j: int|
                    0 <= j < i ==> !((#[trigger] list@[j]).0@ == path.client_id@ && list@[j].1
                        == height),
            decreases n - i,
        {
            i = i + 1;
        }
        let ghost pre = list@;
        if i < n {
            let _ = list.remove(i);
            proof {
                lemma_archive_remove(pre, i as int);
            }
        } else {
            proof {
                assert(!archive_map(pre).contains_key((path.client_id@, height)));
                assert(archive_map(pre) =~= archive_map(pre).remove((path.client_id@, height)));
            }
        }
        self.archive = list;
        Ok(())
    }

    fn store_update_meta(&mut self, client_id: &ClientId, height: Height,
        host_timestamp: Timestamp, host_height: Height) -> (r: Result<(), ContextError>) {
        proof {
            use_type_invariant(&*self);
        }
        let key: ClientId = client_id.clone();
        let meta = UpdateMeta { host_timestamp, host_height };
        let mut list: Vec<(ClientId, Height, UpdateMeta)> = Vec::new();
        std::mem::swap(&mut list, &mut self.metas);
        let n: usize = list.len();
        let mut i: usize = 0;
        while i < n && !(list[i].0.eq_id(&key) && list[i].1 == height)
            invariant
                n == list@.len(),
                0 <= i <= n,
                key@ == client_id@,
                forall|j: int|
                    0 <= j < i ==> !((#[trigger] list@[j]).0@ == key@ && list@[j].1 == height),
            decreases n - i,
        {
            i = i + 1;
        }
        let ghost pre = list@;
        if i < n {
            list.set(i, (key, height, meta));
            proof {
                lemma_metas_set(pre, i as int, list@[i as int]);
            }
        } else {
            list.push((key, height, meta));
            proof {
                lemma_metas_push(pre, list@.last());
            }
        }
        self.metas = list;
        Ok(())
    }

    fn delete_update_meta(&mut self, client_id: &ClientId, height: Height) -> (r: Result<(),
        ContextError>) {
        proof {
            use_type_invariant(&*self);
        }
        let mut list: Vec<(ClientId, Height, UpdateMeta)> = Vec::new();
        std::mem::swap(&mut list, &mut self.metas);
        let n: usize = list.len();
        let mut i: usize = 0;
        while i < n && !(list[i].0.eq_id(client_id) && list[i].1 == height)
            invariant
                n == list@.len(),
                0 <= i <= n,
                forall|j: int|
                    0 <= j < i ==> !((#[trigger] list@[j]).0@ == client_id@ && list@[j].1
                        == height),
            decreases n - i,
        {
            i = i + 1;
        }
        let ghost pre = list@;
        if i < n {
            let _ = list.remove(i);
            proof {
                lemma_metas_remove(pre, i as int);
            }
        } else {
            proof {
                assert(!metas_map(pre).contains_key((client_id@, height)));
                assert(metas_map(pre) =~= metas_map(pre).remove((client_id@, height)));
            }
        }
        self.metas = list;
        Ok(())
    }
}

/// Replacing the entry at a position whose key already matches denotes an
/// insert over the old key.
proof fn lemma_archive_set(pre: Seq<(ClientId, Height, Envelope)>, i: int, entry: (ClientId,
    Height, Envelope))
    requires
        forall|p: int, q: int|
            0 <= p < q < pre.len() ==> !((#[trigger] pre[p]).0@ == (#[trigger] pre[q]).0@
                && pre[p].1 == pre[q].1),
        0 <= i < pre.len(),
        pre[i].0@ == entry.0@,
        pre[i].1 == entry.1,
    ensures
        forall|p: int, q: int|
            0 <= p < q < pre.update(i, entry).len() ==> !((#[trigger] pre.update(i,
            entry)[p]).0@ == (#[trigger] pre.update(i, entry)[q]).0@ && pre.update(i, entry)[p].1
                == pre.update(i, entry)[q].1),
        archive_map(pre.update(i, entry)) == archive_map(pre).insert((entry.0@, entry.1),
            entry.2@),
{
    let post = pre.update(i, entry);
    let kk = (entry.0@, entry.1);
    let m1 = archive_map(post);
    let m2 = archive_map(pre).insert(kk, entry.2@);
    assert forall|k: (Seq<char>, Height)| m1.contains_key(k) <==> m2.contains_key(k) by {
        if m1.contains_key(k) {
            let j = choose|j: int|
                0 <= j < post.len() && (#[trigger] post[j]).0@ == k.0 && post[j].1 == k.1;
            // mentioning the entry of the unchanged list at the same
            // position lets the prover find the matching index there
            assert((#[trigger] pre[j]).0@ == post[j].0@ || j == i);
        }
        if m2.contains_key(k) {
            if k == kk {
                assert((#[trigger] post[i]).0@ == k.0 && post[i].1 == k.1);
            } else {
                let j = choose|j: int|
                    0 <= j < pre.len() && (#[trigger] pre[j]).0@ == k.0 && pre[j].1 == k.1;
                assert(j != i);
                assert((#[trigger] post[j]).0@ == k.0 && post[j].1 == k.1);
            }
        }
    }
    assert forall|k: (Seq<char>, Height)| m1.contains_key(k) implies m1[k] == m2[k] by {
        let j = choose|j: int|
            0 <= j < post.len() && (#[trigger] post[j]).0@ == k.0 && post[j].1 == k.1;
        if k == kk {
            assert(j == i);
        } else {
            assert(j != i);
            assert((#[trigger] pre[j]).0@ == k.0 && pre[j].1 == k.1);
            let j2 = choose|j2: int|
                0 <= j2 < pre.len() && (#[trigger] pre[j2]).0@ == k.0 && pre[j2].1 == k.1;
            assert(j2 == j);
        }
    }
    assert(m1 =~= m2);
}

/// Appending an entry whose key is absent denotes an insert.
proof fn lemma_archive_push(pre: Seq<(ClientId, Height, Envelope)>, entry: (ClientId, Height,
    Envelope))
    requires
        forall|p: int, q: int|
            0 <= p < q < pre.len() ==> !((#[trigger] pre[p]).0@ == (#[trigger] pre[q]).0@
                && pre[p].1 == pre[q].1),
        forall|p: int|
            0 <= p < pre.len() ==> !((#[trigger] pre[p]).0@ == entry.0@ && pre[p].1 == entry.1),
    ensures
        forall|p: int, q: int|
            0 <= p < q < pre.push(entry).len() ==> !((#[trigger] pre.push(entry)[p]).0@ == (
            #[trigger] pre.push(entry)[q]).0@ && pre.push(entry)[p].1 == pre.push(entry)[q].1),
        archive_map(pre.push(entry)) == archive_map(pre).insert((entry.0@, entry.1), entry.2@),
{
    let post = pre.push(entry);
    let kk = (entry.0@, entry.1);
    let m1 = archive_map(post);
    let m2 = archive_map(pre).insert(kk, entry.2@);
    assert forall|k: (Seq<char>, Height)| m1.contains_key(k) <==> m2.contains_key(k) by {
        if m1.contains_key(k) {
            let j = choose|j: int|
                0 <= j < post.len() && (#[trigger] post[j]).0@ == k.0 && post[j].1 == k.1;
            if j < pre.len() {
                assert((#[trigger] pre[j]).0@ == k.0 && pre[j].1 == k.1);
            }
        }
        if m2.contains_key(k) {
            if k == kk {
                assert((#[trigger] post[pre.len() as int]).0@ == k.0
                    && post[pre.len() as int].1 == k.1);
            } else {
                let j = choose|j: int|
                    0 <= j < pre.len() && (#[trigger] pre[j]).0@ == k.0 && pre[j].1 == k.1;
                assert((#[trigger] post[j]).0@ == k.0 && post[j].1 == k.1);
            }
        }
    }
    assert forall|k: (Seq<char>, Height)| m1.contains_key(k) implies m1[k] == m2[k] by {
        let j = choose|j: int|
            0 <= j < post.len() && (#[trigger] post[j]).0@ == k.0 && post[j].1 == k.1;
        if k == kk {
            assert(j == pre.len());
        } else {
            assert(j < pre.len());
            assert((#[trigger] pre[j]).0@ == k.0 && pre[j].1 == k.1);
            let j2 = choose|j2: int|
                0 <= j2 < pre.len() && (#[trigger] pre[j2]).0@ == k.0 && pre[j2].1 == k.1;
            assert(j2 == j);
        }
    }
    assert(m1 =~= m2);
}

/// Removing the entry at the unique position of a key denotes a remove.
proof fn lemma_archive_remove(pre: Seq<(ClientId, Height, Envelope)>, i: int)
    requires
        forall|p: int, q: int|
            0 <= p < q < pre.len() ==> !((#[trigger] pre[p]).0@ == (#[trigger] pre[q]).0@
                && pre[p].1 == pre[q].1),
        0 <= i < pre.len(),
    ensures
        forall|p: int, q: int|
            0 <= p < q < pre.remove(i).len() ==> !((#[trigger] pre.remove(i)[p]).0@ == (
            #[trigger] pre.remove(i)[q]).0@ && pre.remove(i)[p].1 == pre.remove(i)[q].1),
        archive_map(pre.remove(i)) == archive_map(pre).remove((pre[i].0@, pre[i].1)),
{
    let post = pre.remove(i);
    let kk = (pre[i].0@, pre[i].1);
    let m1 = archive_map(post);
    let m2 = archive_map(pre).remove(kk);
    assert forall|p: int| 0 <= p < post.len() implies #[trigger] post[p] == (if p < i {
        pre[p]
    } else {
        pre[p + 1]
    }) by {}
    assert forall|k: (Seq<char>, Height)| m1.contains_key(k) <==> m2.contains_key(k) by {
        if m1.contains_key(k) {
            let j = choose|j: int|
                0 <= j < post.len() && (#[trigger] post[j]).0@ == k.0 && post[j].1 == k.1;
            let j2: int = if j < i {
                j
            } else {
                j + 1
            };
            assert((#[trigger] pre[j2]).0@ == k.0 && pre[j2].1 == k.1);
            assert(k != kk);
        }
        if m2.contains_key(k) {
            let j = choose|j: int|
                0 <= j < pre.len() && (#[trigger] pre[j]).0@ == k.0 && pre[j].1 == k.1;
            assert(j != i);
            let j2: int = if j < i {
                j
            } else {
                j - 1
            };
            assert((#[trigger] post[j2]).0@ == k.0 && post[j2].1 == k.1);
        }
    }
    assert forall|k: (Seq<char>, Height)| m1.contains_key(k) implies m1[k] == m2[k] by {
        let j = choose|j: int|
            0 <= j < post.len() && (#[trigger] post[j]).0@ == k.0 && post[j].1 == k.1;
        let j2: int = if j < i {
            j
        } else {
            j + 1
        };
        assert((#[trigger] pre[j2]).0@ == k.0 && pre[j2].1 == k.1);
        let j3 = choose|j3: int|
            0 <= j3 < pre.len() && (#[trigger] pre[j3]).0@ == k.0 && pre[j3].1 == k.1;
        assert(j3 == j2);
        assert(m1[k] == post[j].2@);
        assert(m2[k] == pre[j2].2@);
    }
    assert(m1 =~= m2);
}

/// Replacing the entry at a position whose key already matches denotes an
/// insert over the old key.
proof fn lemma_metas_set(pre: Seq<(ClientId, Height, UpdateMeta)>, i: int, entry: (ClientId,
    Height, UpdateMeta))
    requires
        forall|p: int, q: int|
            0 <= p < q < pre.len() ==> !((#[trigger] pre[p]).0@ == (#[trigger] pre[q]).0@
                && pre[p].1 == pre[q].1),
        0 <= i < pre.len(),
        pre[i].0@ == entry.0@,
        pre[i].1 == entry.1,
    ensures
        forall|p: int, q: int|
            0 <= p < q < pre.update(i, entry).len() ==> !((#[trigger] pre.update(i,
            entry)[p]).0@ == (#[trigger] pre.update(i, entry)[q]).0@ && pre.update(i, entry)[p].1
                == pre.update(i, entry)[q].1),
        metas_map(pre.update(i, entry)) == metas_map(pre).insert((entry.0@, entry.1), entry.2),
{
    let post = pre.update(i, entry);
    let kk = (entry.0@, entry.1);
    let m1 = metas_map(post);
    let m2 = metas_map(pre).insert(kk, entry.2);
    assert forall|k: (Seq<char>, Height)| m1.contains_key(k) <==> m2.contains_key(k) by {
        if m1.contains_key(k) {
            let j = choose|j: int|
                0 <= j < post.len() && (#[trigger] post[j]).0@ == k.0 && post[j].1 == k.1;
            // mentioning the entry of the unchanged list at the same
            // position lets the prover find the matching index there
            assert((#[trigger] pre[j]).0@ == post[j].0@ || j == i);
        }
        if m2.contains_key(k) {
            if k == kk {
                assert((#[trigger] post[i]).0@ == k.0 && post[i].1 == k.1);
            } else {
                let j = choose|j: int|
                    0 <= j < pre.len() && (#[trigger] pre[j]).0@ == k.0 && pre[j].1 == k.1;
                assert(j != i);
                assert((#[trigger] post[j]).0@ == k.0 && post[j].1 == k.1);
            }
        }
    }
    assert forall|k: (Seq<char>, Height)| m1.contains_key(k) implies m1[k] == m2[k] by {
        let j = choose|j: int|
            0 <= j < post.len() && (#[trigger] post[j]).0@ == k.0 && post[j].1 == k.1;
        if k == kk {
            assert(j == i);
        } else {
            assert(j != i);
            assert((#[trigger] pre[j]).0@ == k.0 && pre[j].1 == k.1);
            let j2 = choose|j2: int|
                0 <= j2 < pre.len() && (#[trigger] pre[j2]).0@ == k.0 && pre[j2].1 == k.1;
            assert(j2 == j);
        }
    }
    assert(m1 =~= m2);
}

/// Appending an entry whose key is absent denotes an insert.
proof fn lemma_metas_push(pre: Seq<(ClientId, Height, UpdateMeta)>, entry: (ClientId, Height,
    UpdateMeta))
    requires
        forall|p: int, q: int|
            0 <= p < q < pre.len() ==> !((#[trigger] pre[p]).0@ == (#[trigger] pre[q]).0@
                && pre[p].1 == pre[q].1),
        forall|p: int|
            0 <= p < pre.len() ==> !((#[trigger] pre[p]).0@ == entry.0@ && pre[p].1 == entry.1),
    ensures
        forall|p: int, q: int|
            0 <= p < q < pre.push(entry).len() ==> !((#[trigger] pre.push(entry)[p]).0@ == (
            #[trigger] pre.push(entry)[q]).0@ && pre.push(entry)[p].1 == pre.push(entry)[q].1),
        metas_map(pre.push(entry)) == metas_map(pre).insert((entry.0@, entry.1), entry.2),
{
    let post = pre.push(entry);
    let kk = (entry.0@, entry.1);
    let m1 = metas_map(post);
    let m2 = metas_map(pre).insert(kk, entry.2);
    assert forall|k: (Seq<char>, Height)| m1.contains_key(k) <==> m2.contains_key(k) by {
        if m1.contains_key(k) {
            let j = choose|j: int|
                0 <= j < post.len() && (#[trigger] post[j]).0@ == k.0 && post[j].1 == k.1;
            if j < pre.len() {
                assert((#[trigger] pre[j]).0@ == k.0 && pre[j].1 == k.1);
            }
        }
        if m2.contains_key(k) {
            if k == kk {
                assert((#[trigger] post[pre.len() as int]).0@ == k.0
                    && post[pre.len() as int].1 == k.1);
            } else {
                let j = choose|j: int|
                    0 <= j < pre.len() && (#[trigger] pre[j]).0@ == k.0 && pre[j].1 == k.1;
                assert((#[trigger] post[j]).0@ == k.0 && post[j].1 == k.1);
            }
        }
    }
    assert forall|k: (Seq<char>, Height)| m1.contains_key(k) implies m1[k] == m2[k] by {
        let j = choose|j: int|
            0 <= j < post.len() && (#[trigger] post[j]).0@ == k.0 && post[j].1 == k.1;
        if k == kk {
            assert(j == pre.len());
        } else {
            assert(j < pre.len());
            assert((#[trigger] pre[j]).0@ == k.0 && pre[j].1 == k.1);
            let j2 = choose|j2: int|
                0 <= j2 < pre.len() && (#[trigger] pre[j2]).0@ == k.0 && pre[j2].1 == k.1;
            assert(j2 == j);
        }
    }
    assert(m1 =~= m2);
}

/// Removing the entry at the unique position of a key denotes a remove.
proof fn lemma_metas_remove(pre: Seq<(ClientId, Height, UpdateMeta)>, i: int)
    requires
        forall|p: int, q: int|
            0 <= p < q < pre.len() ==> !((#[trigger] pre[p]).0@ == (#[trigger] pre[q]).0@
                && pre[p].1 == pre[q].1),
        0 <= i < pre.len(),
    ensures
        forall|p: int, q: int|
            0 <= p < q < pre.remove(i).len() ==> !((#[trigger] pre.remove(i)[p]).0@ == (
            #[trigger] pre.remove(i)[q]).0@ && pre.remove(i)[p].1 == pre.remove(i)[q].1),
        metas_map(pre.remove(i)) == metas_map(pre).remove((pre[i].0@, pre[i].1)),
{
    let post = pre.remove(i);
    let kk = (pre[i].0@, pre[i].1);
    let m1 = metas_map(post);
    let m2 = metas_map(pre).remove(kk);
    assert forall|p: int| 0 <= p < post.len() implies #[trigger] post[p] == (if p < i {
        pre[p]
    } else {
        pre[p + 1]
    }) by {}
    assert forall|k: (Seq<char>, Height)| m1.contains_key(k) <==> m2.contains_key(k) by {
        if m1.contains_key(k) {
            let j = choose|j: int|
                0 <= j < post.len() && (#[trigger] post[j]).0@ == k.0 && post[j].1 == k.1;
            let j2: int = if j < i {
                j
            } else {
                j + 1
            };
            assert((#[trigger] pre[j2]).0@ == k.0 && pre[j2].1 == k.1);
            assert(k != kk);
        }
        if m2.contains_key(k) {
            let j = choose|j: int|
                0 <= j < pre.len() && (#[trigger] pre[j]).0@ == k.0 && pre[j].1 == k.1;
            assert(j != i);
            let j2: int = if j < i {
                j
            } else {
                j - 1
            };
            assert((#[trigger] post[j2]).0@ == k.0 && post[j2].1 == k.1);
        }
    }
    assert forall|k: (Seq<char>, Height)| m1.contains_key(k) implies m1[k] == m2[k] by {
        let j = choose|j: int|
            0 <= j < post.len() && (#[trigger] post[j]).0@ == k.0 && post[j].1 == k.1;
        let j2: int = if j < i {
            j
        } else {
            j + 1
        };
        assert((#[trigger] pre[j2]).0@ == k.0 && pre[j2].1 == k.1);
        let j3 = choose|j3: int|
            0 <= j3 < pre.len() && (#[trigger] pre[j3]).0@ == k.0 && pre[j3].1 == k.1;
        assert(j3 == j2);
        assert(m1[k] == post[j].2);
        assert(m2[k] == pre[j2].2);
    }
    assert(m1 =~= m2);
}

} // verus!
