use vstd::prelude::*;

use crate::client_state::spec_params_valid;
use crate::client_state::spec_with_header;
use crate::client_state::ClientState;
use crate::client_state::ClientStateView;
use crate::consensus_state::sentinel_root_bytes;
use crate::consensus_state::spec_consensus_from_header;
use crate::consensus_state::spec_sentinel_root;
use crate::consensus_state::ConsensusState;
use crate::consensus_state::ConsensusStateView;
use crate::context::CommonContext;
use crate::context::ExecutionContext;
use crate::context::UpdateMeta;
use crate::envelope::Envelope;
use crate::envelope::EnvelopeView;
use crate::errors::ClientError;
use crate::header::HeaderView;
use crate::height::heights_sorted;
use crate::height::sort_heights;
use crate::height::Height;
use crate::path::ClientConsensusStatePath;
use crate::path::ClientId;
use crate::path::ClientStatePath;
use crate::time::Duration;
use crate::time::Timestamp;

verus! {

// ----------------------------------------------------------------------
// The pruning policy, as a function of the store: which archive entries a
// sweep deletes, and whether the sweep runs to completion.
// ----------------------------------------------------------------------

/// Whether a stored envelope holds a consensus state whose trusting period
/// has elapsed at host time `now`. An envelope of the wrong kind is never
/// expired (the sweep fails on it instead), and neither is one whose expiry
/// overflows (it lies strictly beyond any representable `now`).
pub open spec fn spec_env_expired(e: EnvelopeView, trusting: Duration, now: Timestamp) -> bool {
    e matches EnvelopeView::ConsensusState(c) && c.timestamp.nanos + trusting.nanos <= now.nanos
}

/// Whether every consensus state stored for `cid` at or below height `h`
/// has expired. The sweep visits heights in ascending order and stops at
/// the first fresh one, so exactly the heights with this property are
/// deleted.
pub open spec fn spec_prefix_expired(m: Map<(Seq<char>, Height), EnvelopeView>, cid: Seq<char>,
    trusting: Duration, now: Timestamp, h: Height) -> bool {
    forall|h2: Height|
        #[trigger] m.contains_key((cid, h2)) && h2.spec_le(h) ==> spec_env_expired(m[(cid, h2)],
            trusting, now)
}

/// Whether the sweep deletes the entry of `cid` at height `h`.
pub open spec fn spec_pruned_away(m: Map<(Seq<char>, Height), EnvelopeView>, cid: Seq<char>,
    trusting: Duration, now: Timestamp, h: Height) -> bool {
    m.contains_key((cid, h)) && spec_prefix_expired(m, cid, trusting, now, h)
}

/// The height at which the sweep stops: the lowest stored height whose
/// consensus state is not expired.
pub open spec fn spec_is_stop(m: Map<(Seq<char>, Height), EnvelopeView>, cid: Seq<char>,
    trusting: Duration, now: Timestamp, s: Height) -> bool {
    &&& m.contains_key((cid, s))
    &&& !spec_env_expired(m[(cid, s)], trusting, now)
    &&& forall|h2: Height|
        #[trigger] m.contains_key((cid, h2)) && h2.spec_lt(s) ==> spec_env_expired(m[(cid, h2)],
            trusting, now)
}

/// What the sweep needs of the entry it stops at: it must decode to a
/// consensus state, and its expiry must not overflow.
pub open spec fn spec_stop_entry_ok(e: EnvelopeView, trusting: Duration) -> bool {
    e matches EnvelopeView::ConsensusState(c) && c.timestamp.nanos + trusting.nanos <= u64::MAX
}

/// Whether the sweep over the archive of `cid` runs to completion. The
/// host timestamp must have a Tendermint representation — it is converted
/// before the sweep, whether or not any height is stored. Every deleted
/// entry is expired, hence decodes and has a representable expiry; what can
/// still fail is the entry at the stop height (a blob of the wrong kind, or
/// an overflowing expiry).
pub open spec fn spec_prune_ok(m: Map<(Seq<char>, Height), EnvelopeView>, cid: Seq<char>,
    trusting: Duration, now: Timestamp) -> bool {
    &&& now.spec_tm_representable()
    &&& forall|s: Height|
        #[trigger] spec_is_stop(m, cid, trusting, now, s) ==> spec_stop_entry_ok(m[(cid, s)],
            trusting)
}

/// The archive has at most one stop height.
proof fn lemma_stop_unique(m: Map<(Seq<char>, Height), EnvelopeView>, cid: Seq<char>,
    trusting: Duration, now: Timestamp, s1: Height, s2: Height)
    requires
        spec_is_stop(m, cid, trusting, now, s1),
        spec_is_stop(m, cid, trusting, now, s2),
    ensures
        s1 == s2,
{
    if s1.spec_lt(s2) {
        assert(spec_env_expired(m[(cid, s1)], trusting, now));
    } else if s2.spec_lt(s1) {
        assert(spec_env_expired(m[(cid, s2)], trusting, now));
    } else {
        assert(s1.spec_le(s2) || s2.spec_le(s1));
    }
}

/// The consensus-state archive after a completed sweep for `cid`.
pub open spec fn spec_prune_archive(m: Map<(Seq<char>, Height), EnvelopeView>, cid: Seq<char>,
    trusting: Duration, now: Timestamp) -> Map<(Seq<char>, Height), EnvelopeView> {
    Map::new(|k: (Seq<char>, Height)| m.contains_key(k) && !(k.0 == cid && spec_prefix_expired(
        m, cid, trusting, now, k.1)), |k: (Seq<char>, Height)| m[k])
}

/// The update metadata after a completed sweep for `cid`: metadata is
/// deleted exactly alongside its archive entry.
pub open spec fn spec_prune_metas(mm: Map<(Seq<char>, Height), UpdateMeta>, m: Map<(Seq<char>,
    Height), EnvelopeView>, cid: Seq<char>, trusting: Duration, now: Timestamp) -> Map<(Seq<char>,
    Height), UpdateMeta> {
    Map::new(|k: (Seq<char>, Height)| mm.contains_key(k) && !(k.0 == cid && spec_pruned_away(m,
        cid, trusting, now, k.1)), |k: (Seq<char>, Height)| mm[k])
}

/// In a sorted duplicate-free height sequence, anything at or below the
/// element at position `i` sits at a position at or before `i`.
proof fn lemma_sorted_prefix_position(heights: Seq<Height>, i: int, h2: Height)
    requires
        heights.no_duplicates(),
        heights_sorted(heights),
        0 <= i < heights.len(),
        heights.contains(h2),
        h2.spec_le(heights[i]),
    ensures
        exists|j: int| 0 <= j <= i && heights[j] == h2,
{
    let j = choose|j: int| 0 <= j < heights.len() && heights[j] == h2;
    if j > i {
        assert(heights[i].spec_le(heights[j]));
        assert(heights[i] == h2);
        assert(false);
    }
}

// ----------------------------------------------------------------------
// The execution entry points.
// ----------------------------------------------------------------------

/// Seeds the host store with the initial client state and its matching
/// consensus state at the client state's latest height, stamping the update
/// metadata with the host's clock and height. The caller must ensure no
/// prior state exists under this client identifier; the engine does not
/// check. The writes of one call belong to one host transaction: a host
/// that cannot write atomically must not let a partial result survive.
pub fn initialise<E: ExecutionContext>(client_state: &ClientState, ctx: &mut E,
    client_id: &ClientId, consensus_state: Envelope) -> (r: Result<(), ClientError>)
    ensures
        final(ctx).spec_host_timestamp() == old(ctx).spec_host_timestamp(),
        final(ctx).spec_host_height() == old(ctx).spec_host_height(),
        r is Ok <==> consensus_state@ is ConsensusState,
        !(consensus_state@ is ConsensusState) ==> r == Err::<(), ClientError>(ClientError::Decode)
            && final(ctx).client_states() == old(ctx).client_states()
            && final(ctx).consensus_states() == old(ctx).consensus_states()
            && final(ctx).update_metas() == old(ctx).update_metas(),
        consensus_state@ matches EnvelopeView::ConsensusState(cv) ==> {
            &&& final(ctx).client_states() == old(ctx).client_states().insert(client_id@,
                EnvelopeView::ClientState(client_state@))
            &&& final(ctx).consensus_states() == old(ctx).consensus_states().insert(
                (client_id@, client_state@.latest_height), EnvelopeView::ConsensusState(cv))
            &&& final(ctx).update_metas() == old(ctx).update_metas().insert(
                (client_id@, client_state@.latest_height), UpdateMeta {
                    host_timestamp: old(ctx).spec_host_timestamp(),
                    host_height: old(ctx).spec_host_height(),
                })
        },
{
    let host_timestamp: Timestamp = match ctx.host_timestamp() {
        Ok(t) => t,
        Err(e) => {
            return Err(ClientError::Context(e));
        },
    };
    let host_height: Height = match ctx.host_height() {
        Ok(h) => h,
        Err(e) => {
            return Err(ClientError::Context(e));
        },
    };
    let tm_consensus_state: ConsensusState = match consensus_state.try_into_consensus_state() {
        Ok(c) => c,
        Err(e) => {
            return Err(e);
        },
    };
    let latest_height: Height = client_state.latest_height;
    match ctx.store_client_state(ClientStatePath::new(client_id.clone()),
        Envelope::ClientState(client_state.clone())) {
        Ok(()) => (),
        Err(e) => {
            return Err(ClientError::Context(e));
        },
    };
    match ctx.store_consensus_state(ClientConsensusStatePath::new(client_id.clone(),
        latest_height.revision_number, latest_height.revision_height),
        Envelope::ConsensusState(tm_consensus_state)) {
        Ok(()) => (),
        Err(e) => {
            return Err(ClientError::Context(e));
        },
    };
    match ctx.store_update_meta(client_id, latest_height, host_timestamp, host_height) {
        Ok(()) => (),
        Err(e) => {
            return Err(ClientError::Context(e));
        },
    };
    Ok(())
}

/// The consensus-state archive after `update_state` succeeds for a header
/// `h`: the archive is pruned, and the header's consensus state is inserted
/// at the header's height unless one survived there — a duplicate
/// submission is a no-op.
pub open spec fn spec_update_archive(m: Map<(Seq<char>, Height), EnvelopeView>, cid: Seq<char>,
    trusting: Duration, now: Timestamp, h: HeaderView) -> Map<(Seq<char>, Height), EnvelopeView> {
    let pm = spec_prune_archive(m, cid, trusting, now);
    if pm.contains_key((cid, h.height)) {
        pm
    } else {
        pm.insert((cid, h.height), EnvelopeView::ConsensusState(spec_consensus_from_header(h)))
    }
}

/// The update metadata after `update_state` succeeds: pruned alongside the
/// archive, and stamped at the header's height exactly when the consensus
/// state is inserted there — a duplicate submission keeps the stamp of the
/// first successful call.
pub open spec fn spec_update_metas(mm: Map<(Seq<char>, Height), UpdateMeta>, m: Map<(Seq<char>,
    Height), EnvelopeView>, cid: Seq<char>, trusting: Duration, now: Timestamp, hh: Height,
    h: HeaderView) -> Map<(Seq<char>, Height), UpdateMeta> {
    let pm = spec_prune_archive(m, cid, trusting, now);
    let pmm = spec_prune_metas(mm, m, cid, trusting, now);
    if pm.contains_key((cid, h.height)) {
        pmm
    } else {
        pmm.insert((cid, h.height), UpdateMeta { host_timestamp: now, host_height: hh })
    }
}

/// The client-state records after `update_state` succeeds: the client's
/// record incorporates the header unless the submission was a duplicate, in
/// which case nothing is written.
pub open spec fn spec_update_clients(cm: Map<Seq<char>, EnvelopeView>, m: Map<(Seq<char>, Height),
    EnvelopeView>, cid: Seq<char>, trusting: Duration, now: Timestamp, c: ClientStateView,
    h: HeaderView) -> Map<Seq<char>, EnvelopeView> {
    let pm = spec_prune_archive(m, cid, trusting, now);
    if pm.contains_key((cid, h.height)) {
        cm
    } else {
        cm.insert(cid, EnvelopeView::ClientState(spec_with_header(c, h)))
    }
}

/// Applies a verified header: prunes the expired tail of the archive, then
/// inserts the header's consensus state at the header's height, raises the
/// client's latest height to the header's if that is higher, and stamps the
/// update metadata. If a consensus state already sits at the header's
/// height the call is a no-op success — racing relayers may submit the same
/// header twice, and a duplicate must not re-stamp the metadata. Returns
/// the heights at which state was updated, here always the header's height
/// alone.
pub fn update_state<E: ExecutionContext>(client_state: &ClientState, ctx: &mut E,
    client_id: &ClientId, header: Envelope) -> (r: Result<Vec<Height>, ClientError>)
    ensures
        final(ctx).spec_host_timestamp() == old(ctx).spec_host_timestamp(),
        final(ctx).spec_host_height() == old(ctx).spec_host_height(),
        !(header@ is Header) ==> r == Err::<Vec<Height>, ClientError>(ClientError::Decode)
            && final(ctx).client_states() == old(ctx).client_states()
            && final(ctx).consensus_states() == old(ctx).consensus_states()
            && final(ctx).update_metas() == old(ctx).update_metas(),
        header@ is Header ==> (r is Ok <==> spec_prune_ok(old(ctx).consensus_states(),
            client_id@, client_state@.trusting_period, old(ctx).spec_host_timestamp())),
        header@ matches EnvelopeView::Header(h) ==> r matches Ok(v) ==> {
            &&& v@ == seq![h.height]
            &&& final(ctx).consensus_states() == spec_update_archive(
                old(ctx).consensus_states(), client_id@, client_state@.trusting_period,
                old(ctx).spec_host_timestamp(), h)
            &&& final(ctx).update_metas() == spec_update_metas(old(ctx).update_metas(),
                old(ctx).consensus_states(), client_id@, client_state@.trusting_period,
                old(ctx).spec_host_timestamp(), old(ctx).spec_host_height(), h)
            &&& final(ctx).client_states() == spec_update_clients(old(ctx).client_states(),
                old(ctx).consensus_states(), client_id@, client_state@.trusting_period,
                old(ctx).spec_host_timestamp(), client_state@, h)
        },
        r is Err ==> final(ctx).client_states() == old(ctx).client_states(),
        r is Err ==> forall|k: (Seq<char>, Height)|
            #[trigger] final(ctx).consensus_states().contains_key(k)
                ==> old(ctx).consensus_states().contains_key(k)
                && final(ctx).consensus_states()[k] == old(ctx).consensus_states()[k],
        r is Err ==> forall|k: (Seq<char>, Height)| old(ctx).consensus_states().contains_key(k)
            && !(#[trigger] final(ctx).consensus_states().contains_key(k)) ==> k.0 == client_id@
            && spec_pruned_away(old(ctx).consensus_states(), client_id@,
            client_state@.trusting_period, old(ctx).spec_host_timestamp(), k.1),
        r is Err ==> forall|k: (Seq<char>, Height)|
            #[trigger] final(ctx).update_metas().contains_key(k)
                ==> old(ctx).update_metas().contains_key(k) && final(ctx).update_metas()[k]
                == old(ctx).update_metas()[k],
        r is Err ==> forall|k: (Seq<char>, Height)| old(ctx).update_metas().contains_key(k) && !(
            #[trigger] final(ctx).update_metas().contains_key(k)) ==> k.0 == client_id@
            && spec_pruned_away(old(ctx).consensus_states(), client_id@,
            client_state@.trusting_period, old(ctx).spec_host_timestamp(), k.1),
        r matches Err(e) ==> e is Decode || e is InvalidTimestamp || e is Overflow,
        header@ is Header && !old(ctx).spec_host_timestamp().spec_tm_representable() ==> r
            == Err::<Vec<Height>, ClientError>(ClientError::InvalidTimestamp)
            && final(ctx).client_states() == old(ctx).client_states()
            && final(ctx).consensus_states() == old(ctx).consensus_states()
            && final(ctx).update_metas() == old(ctx).update_metas(),
        header@ is Header && old(ctx).spec_host_timestamp().spec_tm_representable() ==> (
        r matches Err(e) ==> forall|s: Height|
            #[trigger] spec_is_stop(old(ctx).consensus_states(), client_id@,
                client_state@.trusting_period, old(ctx).spec_host_timestamp(), s) ==> e == (
            if old(ctx).consensus_states()[(client_id@, s)] is ConsensusState {
                ClientError::Overflow
            } else {
                ClientError::Decode
            })),
{
    let header: crate::header::Header = match header.try_into_header() {
        Ok(h) => h,
        Err(e) => {
            return Err(e);
        },
    };
    let header_height: Height = header.height();

    match prune_oldest_consensus_state(client_state, ctx, client_id) {
        Ok(()) => (),
        Err(e) => {
            return Err(e);
        },
    };

    let path_at_header_height = ClientConsensusStatePath::new(client_id.clone(),
        header_height.revision_number, header_height.revision_height);
    let maybe_existing = ctx.consensus_state(&path_at_header_height);

    if maybe_existing.is_ok() {
        // the header was already installed by a previous relayer: a no-op
    } else {
        let host_timestamp: Timestamp = match ctx.host_timestamp() {
            Ok(t) => t,
            Err(e) => {
                return Err(ClientError::Context(e));
            },
        };
        let host_height: Height = match ctx.host_height() {
            Ok(h) => h,
            Err(e) => {
                return Err(ClientError::Context(e));
            },
        };
        let new_consensus_state: ConsensusState = ConsensusState::from_header(&header);
        let new_client_state: ClientState = match client_state.clone().with_header(&header) {
            Ok(c) => c,
            Err(e) => {
                return Err(e);
            },
        };
        match ctx.store_consensus_state(ClientConsensusStatePath::new(client_id.clone(),
            header_height.revision_number, header_height.revision_height),
            Envelope::ConsensusState(new_consensus_state)) {
            Ok(()) => (),
            Err(e) => {
                return Err(ClientError::Context(e));
            },
        };
        match ctx.store_client_state(ClientStatePath::new(client_id.clone()),
            Envelope::ClientState(new_client_state)) {
            Ok(()) => (),
            Err(e) => {
                return Err(ClientError::Context(e));
            },
        };
        match ctx.store_update_meta(client_id, header_height, host_timestamp, host_height) {
            Ok(()) => (),
            Err(e) => {
                return Err(ClientError::Context(e));
            },
        };
    }
    let mut updated_heights: Vec<Height> = Vec::new();
    updated_heights.push(header_height);
    proof {
        assert(updated_heights@ =~= seq![header@.height]);
    }
    Ok(updated_heights)
}

/// Freezes the client: its state is rewritten with the reserved frozen
/// marker as the frozen height, the same for all misbehaviour. The evidence
/// itself was judged by the validation phase and is not re-read here, and
/// no consensus state is written: from now on the validation layer must
/// reject every packet verification against this client until governance
/// recovers it.
pub fn update_on_misbehaviour<E: ExecutionContext>(client_state: &ClientState, ctx: &mut E,
    client_id: &ClientId, _client_message: Envelope) -> (r: Result<(), ClientError>)
    ensures
        r is Ok,
        final(ctx).client_states() == old(ctx).client_states().insert(client_id@,
            EnvelopeView::ClientState(ClientStateView {
                frozen_height: Some(crate::height::spec_frozen_marker()),
                ..client_state@
            })),
        final(ctx).consensus_states() == old(ctx).consensus_states(),
        final(ctx).update_metas() == old(ctx).update_metas(),
        final(ctx).spec_host_timestamp() == old(ctx).spec_host_timestamp(),
        final(ctx).spec_host_height() == old(ctx).spec_host_height(),
{
    let frozen_client_state: ClientState = client_state.clone().with_frozen_height(
        Height::min(0));
    match ctx.store_client_state(ClientStatePath::new(client_id.clone()),
        Envelope::ClientState(frozen_client_state)) {
        Ok(()) => (),
        Err(e) => {
            return Err(ClientError::Context(e));
        },
    };
    Ok(())
}

/// The parameter merge an upgrade performs: the chain-chosen parameters —
/// chain id, unbonding period, latest height, proof specs, upgrade path —
/// come from the committed upgraded client state, while the client-chosen
/// parameters — trust level, trusting period, clock drift, update
/// allowances — are kept from the current client. The upgrade implicitly
/// unfreezes the client.
pub open spec fn spec_upgrade_merge(cur: ClientStateView, up: ClientStateView) -> ClientStateView {
    ClientStateView {
        chain_id: up.chain_id,
        trust_level: cur.trust_level,
        trusting_period: cur.trusting_period,
        unbonding_period: up.unbonding_period,
        max_clock_drift: cur.max_clock_drift,
        latest_height: up.latest_height,
        frozen_height: None,
        proof_specs: up.proof_specs,
        upgrade_path: up.upgrade_path,
        allow_update: cur.allow_update,
    }
}

/// Adopts a committed upgrade: merges the chain-chosen parameters of the
/// upgraded client state with the client-chosen parameters of the current
/// one (the upgraded state's client-chosen fields are zeroed first, so a
/// relayer cannot smuggle them in), and installs a sentinel consensus state
/// at the upgraded latest height. The sentinel carries the literal root
/// `sentinel_root` — the new chain's first real root is not yet known, so
/// no packet proof can verify against it — together with the timestamp and
/// next-validators hash of the old chain's last committed block, against
/// which the new chain's first header will be verified. Returns the new
/// latest height.
pub fn update_on_upgrade<E: ExecutionContext>(client_state: &ClientState, ctx: &mut E,
    client_id: &ClientId, upgraded_client_state: Envelope, upgraded_consensus_state: Envelope)
    -> (r: Result<Height, ClientError>)
    ensures
        final(ctx).spec_host_timestamp() == old(ctx).spec_host_timestamp(),
        final(ctx).spec_host_height() == old(ctx).spec_host_height(),
        r is Ok <==> upgraded_client_state@ is ClientState && upgraded_consensus_state@
            is ConsensusState && spec_params_valid(spec_upgrade_merge(client_state@,
            upgraded_client_state@->ClientState_0)),
        r is Err ==> final(ctx).client_states() == old(ctx).client_states()
            && final(ctx).consensus_states() == old(ctx).consensus_states()
            && final(ctx).update_metas() == old(ctx).update_metas(),
        !(upgraded_client_state@ is ClientState) || !(upgraded_consensus_state@
            is ConsensusState) ==> r == Err::<Height, ClientError>(ClientError::Decode),
        upgraded_client_state@ is ClientState && upgraded_consensus_state@ is ConsensusState
            && !spec_params_valid(spec_upgrade_merge(client_state@,
            upgraded_client_state@->ClientState_0)) ==> r == Err::<Height, ClientError>(
            ClientError::InvalidClientState),
        upgraded_client_state@ matches EnvelopeView::ClientState(uc)
            ==> upgraded_consensus_state@ matches EnvelopeView::ConsensusState(ucs)
            ==> r matches Ok(height) ==> {
            &&& height == uc.latest_height
            &&& final(ctx).client_states() == old(ctx).client_states().insert(client_id@,
                EnvelopeView::ClientState(spec_upgrade_merge(client_state@, uc)))
            &&& final(ctx).consensus_states() == old(ctx).consensus_states().insert(
                (client_id@, uc.latest_height), EnvelopeView::ConsensusState(ConsensusStateView {
                    root: spec_sentinel_root(),
                    timestamp: ucs.timestamp,
                    next_validators_hash: ucs.next_validators_hash,
                }))
            &&& final(ctx).update_metas() == old(ctx).update_metas().insert(
                (client_id@, uc.latest_height), UpdateMeta {
                    host_timestamp: old(ctx).spec_host_timestamp(),
                    host_height: old(ctx).spec_host_height(),
                })
        },
{
    let mut upgraded_tm_client_state: ClientState =
        match upgraded_client_state.try_into_client_state() {
        Ok(c) => c,
        Err(e) => {
            return Err(e);
        },
    };
    let upgraded_tm_cons_state: ConsensusState =
        match upgraded_consensus_state.try_into_consensus_state() {
        Ok(c) => c,
        Err(e) => {
            return Err(e);
        },
    };

    upgraded_tm_client_state.zero_custom_fields();

    // relayer-chosen client parameters are discarded: every chain-chosen
    // parameter comes from the committed upgraded client, every
    // client-chosen one from the current client
    let new_client_state: ClientState = match ClientState::new(
        upgraded_tm_client_state.chain_id,
        client_state.trust_level,
        client_state.trusting_period,
        upgraded_tm_client_state.unbonding_period,
        client_state.max_clock_drift,
        upgraded_tm_client_state.latest_height,
        upgraded_tm_client_state.proof_specs,
        upgraded_tm_client_state.upgrade_path,
        client_state.allow_update,
    ) {
        Ok(c) => c,
        Err(e) => {
            return Err(e);
        },
    };

    // the root of the new chain's first block cannot be known in advance:
    // store the sentinel, against which no proof verifies, while the
    // timestamp and next-validators hash of the old chain's last block let
    // the new chain's first header be verified within the trusting period
    let new_consensus_state: ConsensusState = ConsensusState::new(sentinel_root_bytes(),
        upgraded_tm_cons_state.timestamp, upgraded_tm_cons_state.next_validators_hash);

    let latest_height: Height = new_client_state.latest_height;
    let host_timestamp: Timestamp = match ctx.host_timestamp() {
        Ok(t) => t,
        Err(e) => {
            return Err(ClientError::Context(e));
        },
    };
    let host_height: Height = match ctx.host_height() {
        Ok(h) => h,
        Err(e) => {
            return Err(ClientError::Context(e));
        },
    };

    match ctx.store_client_state(ClientStatePath::new(client_id.clone()),
        Envelope::ClientState(new_client_state)) {
        Ok(()) => (),
        Err(e) => {
            return Err(ClientError::Context(e));
        },
    };
    match ctx.store_consensus_state(ClientConsensusStatePath::new(client_id.clone(),
        latest_height.revision_number, latest_height.revision_height),
        Envelope::ConsensusState(new_consensus_state)) {
        Ok(()) => (),
        Err(e) => {
            return Err(ClientError::Context(e));
        },
    };
    match ctx.store_update_meta(client_id, latest_height, host_timestamp, host_height) {
        Ok(()) => (),
        Err(e) => {
            return Err(ClientError::Context(e));
        },
    };

    Ok(latest_height)
}

/// Removes from the client's archive every consensus state whose trusting
/// period has elapsed relative to the host clock, together with its update
/// metadata, so that the store never amasses stale states. The host
/// timestamp is converted to a Tendermint time first — a clock without
/// that representation fails the call with `InvalidTimestamp` before
/// anything is touched, whether or not any height is stored. Then heights
/// are swept in ascending order and the sweep stops at the first fresh
/// state; within one revision, block timestamps rise with the height, so
/// nothing beyond the stop height can be expired either.
///
/// On an error during the sweep — at the stop height, a stored blob of
/// the wrong kind fails with `Decode` and an overflowing expiry with
/// `Overflow` — the entries already visited stay deleted: every one of
/// them was expired, and the host's transactional wrapper is expected to
/// roll the call back.
pub fn prune_oldest_consensus_state<E: ExecutionContext>(client_state: &ClientState, ctx: &mut E,
    client_id: &ClientId) -> (r: Result<(), ClientError>)
    ensures
        final(ctx).client_states() == old(ctx).client_states(),
        final(ctx).spec_host_timestamp() == old(ctx).spec_host_timestamp(),
        final(ctx).spec_host_height() == old(ctx).spec_host_height(),
        r is Ok <==> spec_prune_ok(old(ctx).consensus_states(), client_id@,
            client_state@.trusting_period, old(ctx).spec_host_timestamp()),
        r is Ok ==> final(ctx).consensus_states() == spec_prune_archive(
            old(ctx).consensus_states(), client_id@, client_state@.trusting_period,
            old(ctx).spec_host_timestamp()),
        r is Ok ==> final(ctx).update_metas() == spec_prune_metas(old(ctx).update_metas(),
            old(ctx).consensus_states(), client_id@, client_state@.trusting_period,
            old(ctx).spec_host_timestamp()),
        forall|k: (Seq<char>, Height)| #[trigger] final(ctx).consensus_states().contains_key(k)
            ==> old(ctx).consensus_states().contains_key(k)
            && final(ctx).consensus_states()[k] == old(ctx).consensus_states()[k],
        forall|k: (Seq<char>, Height)| old(ctx).consensus_states().contains_key(k)
            && !(#[trigger] final(ctx).consensus_states().contains_key(k)) ==> k.0 == client_id@
            && spec_pruned_away(old(ctx).consensus_states(), client_id@,
            client_state@.trusting_period, old(ctx).spec_host_timestamp(), k.1),
        forall|k: (Seq<char>, Height)| #[trigger] final(ctx).update_metas().contains_key(k)
            ==> old(ctx).update_metas().contains_key(k) && final(ctx).update_metas()[k]
            == old(ctx).update_metas()[k],
        forall|k: (Seq<char>, Height)| old(ctx).update_metas().contains_key(k) && !(
            #[trigger] final(ctx).update_metas().contains_key(k)) ==> k.0 == client_id@
            && spec_pruned_away(old(ctx).consensus_states(), client_id@,
            client_state@.trusting_period, old(ctx).spec_host_timestamp(), k.1),
        r matches Err(e) ==> e is Decode || e is InvalidTimestamp || e is Overflow,
        !old(ctx).spec_host_timestamp().spec_tm_representable() ==> r == Err::<(), ClientError>(
            ClientError::InvalidTimestamp) && final(ctx).consensus_states()
            == old(ctx).consensus_states() && final(ctx).update_metas()
            == old(ctx).update_metas(),
        old(ctx).spec_host_timestamp().spec_tm_representable() ==> (r matches Err(e)
            ==> forall|s: Height|
            #[trigger] spec_is_stop(old(ctx).consensus_states(), client_id@,
                client_state@.trusting_period, old(ctx).spec_host_timestamp(), s) ==> e == (
            if old(ctx).consensus_states()[(client_id@, s)] is ConsensusState {
                ClientError::Overflow
            } else {
                ClientError::Decode
            })),
{
    let ghost cid = client_id@;
    let ghost trusting = client_state@.trusting_period;
    let ghost m0 = ctx.consensus_states();
    let ghost mm0 = ctx.update_metas();
    let ghost cs0 = ctx.client_states();
    let ghost now0 = ctx.spec_host_timestamp();
    let ghost hh0 = ctx.spec_host_height();

    let mut heights: Vec<Height> = match ctx.consensus_state_heights(client_id) {
        Ok(hs) => hs,
        Err(e) => {
            return Err(ClientError::Context(e));
        },
    };
    sort_heights(&mut heights);

    let host_now: Timestamp = match ctx.host_timestamp() {
        Ok(t) => t,
        Err(e) => {
            return Err(ClientError::Context(e));
        },
    };
    let tm_now: Timestamp = match host_now.into_tm_time() {
        Some(t) => t,
        None => {
            return Err(ClientError::InvalidTimestamp);
        },
    };

    let n: usize = heights.len();
    let mut i: usize = 0;
    let mut stop: bool = false;
    while !stop && i < n
        invariant
            m0 == old(ctx).consensus_states(),
            mm0 == old(ctx).update_metas(),
            cs0 == old(ctx).client_states(),
            now0 == old(ctx).spec_host_timestamp(),
            hh0 == old(ctx).spec_host_height(),
            cid == client_id@,
            trusting == client_state@.trusting_period,
            n == heights@.len(),
            0 <= i <= n,
            heights@.no_duplicates(),
            heights_sorted(heights@),
            forall|h: Height| heights@.contains(h) <==> #[trigger] m0.contains_key((cid, h)),
            ctx.client_states() == cs0,
            ctx.spec_host_timestamp() == now0,
            ctx.spec_host_height() == hh0,
            forall|j: int|
                0 <= j < i ==> spec_pruned_away(m0, cid, trusting, now0, #[trigger] heights@[j]),
            forall|k: (Seq<char>, Height)|
                #[trigger] ctx.consensus_states().contains_key(k) <==> m0.contains_key(k) && !(
                k.0 == cid && heights@.subrange(0, i as int).contains(k.1)),
            forall|k: (Seq<char>, Height)|
                #[trigger] ctx.consensus_states().contains_key(k)
                    ==> ctx.consensus_states()[k] == m0[k],
            forall|k: (Seq<char>, Height)|
                #[trigger] ctx.update_metas().contains_key(k) <==> mm0.contains_key(k) && !(k.0
                    == cid && heights@.subrange(0, i as int).contains(k.1)),
            forall|k: (Seq<char>, Height)|
                #[trigger] ctx.update_metas().contains_key(k) ==> ctx.update_metas()[k]
                    == mm0[k],
            stop ==> i < n && spec_is_stop(m0, cid, trusting, now0, heights@[i as int])
                && spec_stop_entry_ok(m0[(cid, heights@[i as int])], trusting),
            now0.spec_tm_representable(),
            tm_now == now0,
        decreases n - i + (if stop { 0int } else { 1int }),
    {
        let h: Height = heights[i];
        proof {
            assert(heights@.contains(h));
            assert(m0.contains_key((cid, h)));
            if heights@.subrange(0, i as int).contains(h) {
                let j = choose|j: int|
                    0 <= j < i && heights@.subrange(0, i as int)[j] == h;
                assert(heights@[j] == heights@[i as int]);
                assert(false);
            }
            // every stored height at or below h and different from h was
            // already visited, hence expired
            assert forall|h2: Height|
                #[trigger] m0.contains_key((cid, h2)) && h2.spec_lt(h) implies spec_env_expired(
                m0[(cid, h2)], trusting, now0) by {
                assert(heights@.contains(h2));
                lemma_sorted_prefix_position(heights@, i as int, h2);
                let j = choose|j: int| 0 <= j <= i && heights@[j] == h2;
                assert(j != i);
                assert(spec_pruned_away(m0, cid, trusting, now0, heights@[j]));
                assert(m0.contains_key((cid, h2)) && h2.spec_le(h2));
            }
        }
        let path = ClientConsensusStatePath::new(client_id.clone(), h.revision_number,
            h.revision_height);
        let env: Envelope = match ctx.consensus_state(&path) {
            Ok(v) => v,
            Err(e) => {
                return Err(ClientError::Context(e));
            },
        };
        proof {
            assert(env@ == m0[(cid, h)]);
        }
        let tm_cs: ConsensusState = match env.try_into_consensus_state() {
            Ok(c) => c,
            Err(e) => {
                proof {
                    assert(!spec_env_expired(m0[(cid, h)], trusting, now0));
                    assert(spec_is_stop(m0, cid, trusting, now0, h));
                    assert(!spec_stop_entry_ok(m0[(cid, h)], trusting));
                    assert(!spec_prune_ok(m0, cid, trusting, now0));
                    assert forall|s2: Height|
                        spec_is_stop(m0, cid, trusting, now0, s2) implies s2 == h by {
                        lemma_stop_unique(m0, cid, trusting, now0, s2, h);
                    }
                }
                return Err(e);
            },
        };
        let expiry: Timestamp = match tm_cs.timestamp.checked_add(client_state.trusting_period) {
            Ok(t) => t,
            Err(e) => {
                proof {
                    assert(!spec_env_expired(m0[(cid, h)], trusting, now0));
                    assert(spec_is_stop(m0, cid, trusting, now0, h));
                    assert(!spec_stop_entry_ok(m0[(cid, h)], trusting));
                    assert forall|s2: Height|
                        spec_is_stop(m0, cid, trusting, now0, s2) implies s2 == h by {
                        lemma_stop_unique(m0, cid, trusting, now0, s2, h);
                    }
                    assert(!spec_prune_ok(m0, cid, trusting, now0));
                }
                return Err(e);
            },
        };
        if expiry.after(&tm_now) {
            stop = true;
            proof {
                assert(!spec_env_expired(m0[(cid, h)], trusting, now0));
                assert(spec_is_stop(m0, cid, trusting, now0, h));
                assert(spec_stop_entry_ok(m0[(cid, h)], trusting));
            }
        } else {
            proof {
                assert(spec_env_expired(m0[(cid, h)], trusting, now0));
                assert(spec_pruned_away(m0, cid, trusting, now0, h));
            }
            let ghost pre_cons = ctx.consensus_states();
            let ghost pre_metas = ctx.update_metas();
            match ctx.delete_consensus_state(path) {
                Ok(()) => (),
                Err(e) => {
                    return Err(ClientError::Context(e));
                },
            };
            match ctx.delete_update_meta(client_id, h) {
                Ok(()) => (),
                Err(e) => {
                    return Err(ClientError::Context(e));
                },
            };
            proof {
                assert(heights@.subrange(0, i + 1) =~= heights@.subrange(0, i as int).push(h));
                assert forall|k: (Seq<char>, Height)|
                    #[trigger] ctx.consensus_states().contains_key(k) <==> m0.contains_key(k)
                        && !(k.0 == cid && heights@.subrange(0, i + 1).contains(k.1)) by {
                    if heights@.subrange(0, i + 1).contains(k.1) {
                        assert(heights@.subrange(0, i as int).contains(k.1) || k.1 == h);
                    }
                    if heights@.subrange(0, i as int).contains(k.1) {
                        assert(heights@.subrange(0, i + 1).contains(k.1)) by {
                            let j = choose|j: int|
                                0 <= j < i && heights@.subrange(0, i as int)[j] == k.1;
                            assert(heights@.subrange(0, i + 1)[j] == k.1);
                        }
                    }
                    if k.1 == h {
                        assert(heights@.subrange(0, i + 1)[i as int] == h);
                    }
                }
                assert forall|k: (Seq<char>, Height)|
                    #[trigger] ctx.update_metas().contains_key(k) <==> mm0.contains_key(k) && !(
                    k.0 == cid && heights@.subrange(0, i + 1).contains(k.1)) by {
                    if heights@.subrange(0, i + 1).contains(k.1) {
                        assert(heights@.subrange(0, i as int).contains(k.1) || k.1 == h);
                    }
                    if heights@.subrange(0, i as int).contains(k.1) {
                        assert(heights@.subrange(0, i + 1).contains(k.1)) by {
                            let j = choose|j: int|
                                0 <= j < i && heights@.subrange(0, i as int)[j] == k.1;
                            assert(heights@.subrange(0, i + 1)[j] == k.1);
                        }
                    }
                    if k.1 == h {
                        assert(heights@.subrange(0, i + 1)[i as int] == h);
                    }
                }
            }
            i = i + 1;
        }
    }
    proof {
        if stop {
            let s = heights@[i as int];
            assert forall|s2: Height|
                #[trigger] spec_is_stop(m0, cid, trusting, now0, s2) implies s2 == s by {
                if s2.spec_lt(s) {
                    assert(spec_env_expired(m0[(cid, s2)], trusting, now0));
                    assert(false);
                } else if s.spec_lt(s2) {
                    assert(spec_env_expired(m0[(cid, s)], trusting, now0));
                    assert(false);
                } else {
                    assert(s2.spec_le(s) || s.spec_le(s2));
                }
            }
            assert(spec_prune_ok(m0, cid, trusting, now0));
            assert forall|h2: Height|
                #[trigger] m0.contains_key((cid, h2)) implies (spec_prefix_expired(m0, cid,
                trusting, now0, h2) <==> heights@.subrange(0, i as int).contains(h2)) by {
                if heights@.subrange(0, i as int).contains(h2) {
                    let j = choose|j: int|
                        0 <= j < i && heights@.subrange(0, i as int)[j] == h2;
                    assert(heights@[j] == h2);
                    assert(spec_pruned_away(m0, cid, trusting, now0, heights@[j]));
                }
                if spec_prefix_expired(m0, cid, trusting, now0, h2) {
                    // the stop height is fresh, so h2 must lie strictly
                    // below it, hence among the visited positions
                    assert(heights@.contains(h2));
                    if s.spec_le(h2) {
                        assert(m0.contains_key((cid, s)) && s.spec_le(h2));
                        assert(spec_env_expired(m0[(cid, s)], trusting, now0));
                        assert(false);
                    }
                    lemma_sorted_prefix_position(heights@, i as int, h2);
                    let j = choose|j: int| 0 <= j <= i && heights@[j] == h2;
                    assert(j != i);
                    assert(heights@.subrange(0, i as int)[j] == h2);
                }
            }
            assert(ctx.consensus_states() =~= spec_prune_archive(m0, cid, trusting, now0));
            assert(ctx.update_metas() =~= spec_prune_metas(mm0, m0, cid, trusting, now0));
        } else {
            assert(i == n);
            assert(heights@.subrange(0, i as int) =~= heights@);
            assert forall|s2: Height| !spec_is_stop(m0, cid, trusting, now0, s2) by {
                if spec_is_stop(m0, cid, trusting, now0, s2) {
                    assert(heights@.contains(s2));
                    let j = choose|j: int| 0 <= j < heights@.len() && heights@[j] == s2;
                    assert(spec_pruned_away(m0, cid, trusting, now0, heights@[j]));
                    assert(m0.contains_key((cid, s2)) && s2.spec_le(s2));
                    assert(spec_env_expired(m0[(cid, s2)], trusting, now0));
                    assert(false);
                }
            }
            if n > 0 {
                assert(heights@.contains(heights@[0]));
            }
            assert(spec_prune_ok(m0, cid, trusting, now0));
            assert forall|h2: Height|
                #[trigger] m0.contains_key((cid, h2)) implies spec_prefix_expired(m0, cid,
                trusting, now0, h2) by {
                assert(heights@.contains(h2));
                let j = choose|j: int| 0 <= j < heights@.len() && heights@[j] == h2;
                assert(spec_pruned_away(m0, cid, trusting, now0, heights@[j]));
            }
            assert(ctx.consensus_states() =~= spec_prune_archive(m0, cid, trusting, now0));
            assert(ctx.update_metas() =~= spec_prune_metas(mm0, m0, cid, trusting, now0));
        }
    }
    Ok(())
}

} // verus!
