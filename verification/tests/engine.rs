use ibc_client_tendermint::client_state::AllowUpdate;
use ibc_client_tendermint::client_state::ClientState;
use ibc_client_tendermint::client_state::TrustLevel;
use ibc_client_tendermint::consensus_state::ConsensusState;
use ibc_client_tendermint::context::CommonContext;
use ibc_client_tendermint::context::ExecutionContext;
use ibc_client_tendermint::context::UpdateMeta;
use ibc_client_tendermint::envelope::Envelope;
use ibc_client_tendermint::errors::ClientError;
use ibc_client_tendermint::errors::ContextError;
use ibc_client_tendermint::execution::initialise;
use ibc_client_tendermint::execution::prune_oldest_consensus_state;
use ibc_client_tendermint::execution::update_on_misbehaviour;
use ibc_client_tendermint::execution::update_on_upgrade;
use ibc_client_tendermint::execution::update_state;
use ibc_client_tendermint::header::Header;
use ibc_client_tendermint::height::Height;
use ibc_client_tendermint::path::ClientConsensusStatePath;
use ibc_client_tendermint::path::ClientId;
use ibc_client_tendermint::store::MemoryContext;
use ibc_client_tendermint::time::Duration;
use ibc_client_tendermint::time::Timestamp;

fn cid() -> ClientId {
    ClientId::new("07-tendermint-0".to_string())
}

fn h(rn: u64, rh: u64) -> Height {
    Height::new(rn, rh)
}

fn ts(n: u64) -> Timestamp {
    Timestamp::from_nanos(n)
}

fn client(latest: Height, trusting: u64, unbonding: u64) -> ClientState {
    ClientState::new(
        "chain-old".to_string(),
        TrustLevel { numerator: 1, denominator: 3 },
        Duration::from_nanos(trusting),
        Duration::from_nanos(unbonding),
        Duration::from_nanos(1),
        latest,
        vec![0x11],
        vec!["upgrade".to_string()],
        AllowUpdate { after_expiry: false, after_misbehaviour: false },
    )
    .unwrap()
}

fn header(height: Height, t: u64) -> Header {
    Header::new(height, ts(t), vec![1, 2, 3], vec![4, 5, 6])
}

fn lookup_cs(ctx: &MemoryContext, c: &ClientId, height: Height) -> Option<ConsensusState> {
    let path =
        ClientConsensusStatePath::new(c.clone(), height.revision_number, height.revision_height);
    match ctx.consensus_state(&path) {
        Ok(env) => Some(env.try_into_consensus_state().unwrap()),
        Err(_) => None,
    }
}

fn stored_client(ctx: &MemoryContext, c: &ClientId) -> ClientState {
    ctx.client_state(c).unwrap().try_into_client_state().unwrap()
}

#[test]
fn fresh_initialise() {
    let c = cid();
    let mut ctx = MemoryContext::new(ts(1000), h(0, 10));
    let state = client(h(0, 5), 100, 200);
    let cs = ConsensusState::new(vec![9, 9], ts(900), vec![4, 4]);
    initialise(&state, &mut ctx, &c, Envelope::ConsensusState(cs)).unwrap();

    let stored = lookup_cs(&ctx, &c, h(0, 5)).unwrap();
    assert_eq!(stored.root, vec![9, 9]);
    assert_eq!(stored.timestamp, ts(900));
    let meta = ctx.update_meta(&c, h(0, 5)).unwrap();
    assert_eq!(
        meta,
        UpdateMeta { host_timestamp: ts(1000), host_height: h(0, 10) }
    );
    assert_eq!(stored_client(&ctx, &c).latest_height, h(0, 5));
}

#[test]
fn duplicate_update_keeps_first_stamp() {
    let c = cid();
    let mut ctx = MemoryContext::new(ts(1000), h(0, 10));
    let state = client(h(0, 5), 100_000, 200_000);
    let cs = ConsensusState::new(vec![9, 9], ts(900), vec![4, 4]);
    initialise(&state, &mut ctx, &c, Envelope::ConsensusState(cs)).unwrap();

    ctx.set_host_timestamp(ts(1001));
    let heights = update_state(&state, &mut ctx, &c, Envelope::Header(header(h(0, 7), 1001)))
        .unwrap();
    assert_eq!(heights, vec![h(0, 7)]);

    ctx.set_host_timestamp(ts(1002));
    let heights = update_state(&state, &mut ctx, &c, Envelope::Header(header(h(0, 7), 1001)))
        .unwrap();
    assert_eq!(heights, vec![h(0, 7)]);

    // the metadata still carries the stamp of the first successful call
    let meta = ctx.update_meta(&c, h(0, 7)).unwrap();
    assert_eq!(
        meta,
        UpdateMeta { host_timestamp: ts(1001), host_height: h(0, 10) }
    );
    assert_eq!(stored_client(&ctx, &c).latest_height, h(0, 7));
}

#[test]
fn prune_on_update() {
    let c = cid();
    let mut ctx = MemoryContext::new(ts(150), h(0, 1));
    let state = client(h(0, 1), 100, 200);
    for (height, t) in [(h(0, 1), 100), (h(0, 2), 150), (h(0, 3), 200)] {
        update_state(&state, &mut ctx, &c, Envelope::Header(header(height, t))).unwrap();
    }
    ctx.set_host_timestamp(ts(260));
    update_state(&state, &mut ctx, &c, Envelope::Header(header(h(0, 4), 260))).unwrap();

    // expiries 200 and 250 have passed at host time 260; 300 has not
    assert!(lookup_cs(&ctx, &c, h(0, 1)).is_none());
    assert!(ctx.update_meta(&c, h(0, 1)).is_none());
    assert!(lookup_cs(&ctx, &c, h(0, 2)).is_none());
    assert!(ctx.update_meta(&c, h(0, 2)).is_none());
    assert!(lookup_cs(&ctx, &c, h(0, 3)).is_some());
    assert!(lookup_cs(&ctx, &c, h(0, 4)).is_some());
}

#[test]
fn historical_fill_in_keeps_latest_height() {
    let c = cid();
    let mut ctx = MemoryContext::new(ts(1000), h(0, 10));
    let state = client(h(0, 5), 100_000, 200_000);
    update_state(&state, &mut ctx, &c, Envelope::Header(header(h(0, 10), 950))).unwrap();
    let state_after = stored_client(&ctx, &c);
    assert_eq!(state_after.latest_height, h(0, 10));

    update_state(&state_after, &mut ctx, &c, Envelope::Header(header(h(0, 7), 920))).unwrap();
    assert!(lookup_cs(&ctx, &c, h(0, 7)).is_some());
    assert_eq!(stored_client(&ctx, &c).latest_height, h(0, 10));
}

#[test]
fn misbehaviour_freezes_without_writing_consensus() {
    let c = cid();
    let mut ctx = MemoryContext::new(ts(1000), h(0, 10));
    let state = client(h(0, 5), 100_000, 200_000);
    let cs = ConsensusState::new(vec![9, 9], ts(900), vec![4, 4]);
    initialise(&state, &mut ctx, &c, Envelope::ConsensusState(cs)).unwrap();

    update_on_misbehaviour(&state, &mut ctx, &c, Envelope::Misbehaviour).unwrap();

    let frozen = stored_client(&ctx, &c);
    assert_eq!(frozen.frozen_height, Some(h(0, 1)));
    assert_eq!(frozen.latest_height, state.latest_height);
    // the archive is unchanged: still exactly the initialised state
    assert!(lookup_cs(&ctx, &c, h(0, 5)).is_some());
    let heights = ctx.consensus_state_heights(&c).unwrap();
    assert_eq!(heights, vec![h(0, 5)]);
}

#[test]
fn upgrade_merges_parameters_and_stores_sentinel() {
    let c = cid();
    let mut ctx = MemoryContext::new(ts(5000), h(0, 20));
    let current = client(h(0, 10), 100, 200);
    let upgraded = ClientState {
        chain_id: "chain-new".to_string(),
        trust_level: TrustLevel { numerator: 2, denominator: 3 },
        trusting_period: Duration::from_nanos(7),
        unbonding_period: Duration::from_nanos(300),
        max_clock_drift: Duration::from_nanos(9),
        latest_height: h(1, 1),
        frozen_height: None,
        proof_specs: vec![0x22],
        upgrade_path: vec!["next".to_string()],
        allow_update: AllowUpdate { after_expiry: true, after_misbehaviour: true },
    };
    let upgraded_cons = ConsensusState::new(vec![7, 7], ts(4800), vec![8, 8]);

    let new_latest = update_on_upgrade(
        &current,
        &mut ctx,
        &c,
        Envelope::ClientState(upgraded),
        Envelope::ConsensusState(upgraded_cons),
    )
    .unwrap();
    assert_eq!(new_latest, h(1, 1));

    // chain-chosen parameters from the upgraded state, client-chosen ones
    // from the current client
    let merged = stored_client(&ctx, &c);
    assert_eq!(merged.chain_id, "chain-new".to_string());
    assert_eq!(merged.trust_level, TrustLevel { numerator: 1, denominator: 3 });
    assert_eq!(merged.trusting_period, Duration::from_nanos(100));
    assert_eq!(merged.unbonding_period, Duration::from_nanos(300));
    assert_eq!(merged.max_clock_drift, Duration::from_nanos(1));
    assert_eq!(merged.latest_height, h(1, 1));
    assert_eq!(merged.frozen_height, None);
    assert_eq!(merged.proof_specs, vec![0x22]);
    assert_eq!(merged.upgrade_path, vec!["next".to_string()]);
    assert_eq!(
        merged.allow_update,
        AllowUpdate { after_expiry: false, after_misbehaviour: false }
    );

    // the sentinel consensus state carries the literal root bytes and the
    // old chain's last block time and validator hash
    let sentinel = lookup_cs(&ctx, &c, h(1, 1)).unwrap();
    assert_eq!(sentinel.root, "sentinel_root".as_bytes().to_vec());
    assert_eq!(sentinel.timestamp, ts(4800));
    assert_eq!(sentinel.next_validators_hash, vec![8, 8]);
    let meta = ctx.update_meta(&c, h(1, 1)).unwrap();
    assert_eq!(
        meta,
        UpdateMeta { host_timestamp: ts(5000), host_height: h(0, 20) }
    );
}

#[test]
fn duplicate_update_of_expired_header_is_idempotent() {
    // the header's consensus state is already expired when submitted: the
    // second call re-prunes and re-inserts it, and the store ends exactly
    // as after the first call
    let c = cid();
    let mut ctx = MemoryContext::new(ts(1000), h(0, 10));
    let state = client(h(0, 5), 100, 200);
    let old_header = header(h(0, 2), 100);
    update_state(&state, &mut ctx, &c, Envelope::Header(old_header)).unwrap();
    let meta_first = ctx.update_meta(&c, h(0, 2)).unwrap();

    let old_header = header(h(0, 2), 100);
    update_state(&state, &mut ctx, &c, Envelope::Header(old_header)).unwrap();
    assert_eq!(ctx.update_meta(&c, h(0, 2)).unwrap(), meta_first);
    let stored = lookup_cs(&ctx, &c, h(0, 2)).unwrap();
    assert_eq!(stored.timestamp, ts(100));
    assert_eq!(ctx.consensus_state_heights(&c).unwrap(), vec![h(0, 2)]);
}

#[test]
fn pruned_height_stays_out_until_resubmitted() {
    let c = cid();
    let mut ctx = MemoryContext::new(ts(150), h(0, 1));
    let state = client(h(0, 1), 100, 200);
    update_state(&state, &mut ctx, &c, Envelope::Header(header(h(0, 1), 100))).unwrap();

    ctx.set_host_timestamp(ts(260));
    update_state(&state, &mut ctx, &c, Envelope::Header(header(h(0, 4), 260))).unwrap();
    assert!(lookup_cs(&ctx, &c, h(0, 1)).is_none());

    // a further update at another height does not resurrect it
    update_state(&state, &mut ctx, &c, Envelope::Header(header(h(0, 5), 261))).unwrap();
    assert!(lookup_cs(&ctx, &c, h(0, 1)).is_none());

    // only a header at exactly that height brings it back
    update_state(&state, &mut ctx, &c, Envelope::Header(header(h(0, 1), 100))).unwrap();
    assert!(lookup_cs(&ctx, &c, h(0, 1)).is_some());
}

#[test]
fn latest_height_is_non_decreasing() {
    let c = cid();
    let mut ctx = MemoryContext::new(ts(1000), h(0, 10));
    let mut state = client(h(0, 5), 100_000, 200_000);
    let mut previous = state.latest_height;
    for (height, t) in [(h(0, 6), 930), (h(0, 9), 960), (h(0, 7), 940), (h(0, 12), 990)] {
        update_state(&state, &mut ctx, &c, Envelope::Header(header(height, t))).unwrap();
        state = stored_client(&ctx, &c);
        assert!(
            previous.revision_number < state.latest_height.revision_number
                || (previous.revision_number == state.latest_height.revision_number
                    && previous.revision_height <= state.latest_height.revision_height)
        );
        previous = state.latest_height;
    }
    assert_eq!(state.latest_height, h(0, 12));
}

#[test]
fn initialise_rejects_wrong_payload_kind() {
    let c = cid();
    let mut ctx = MemoryContext::new(ts(1000), h(0, 10));
    let state = client(h(0, 5), 100, 200);
    let r = initialise(&state, &mut ctx, &c, Envelope::Header(header(h(0, 5), 900)));
    assert_eq!(r, Err(ClientError::Decode));
    assert!(ctx.client_state(&c).is_none());
}

#[test]
fn update_state_rejects_wrong_payload_kind() {
    let c = cid();
    let mut ctx = MemoryContext::new(ts(1000), h(0, 10));
    let state = client(h(0, 5), 100, 200);
    let r = update_state(&state, &mut ctx, &c, Envelope::Misbehaviour);
    assert_eq!(r, Err(ClientError::Decode));
}

#[test]
fn upgrade_rejects_wrong_payload_kinds() {
    let c = cid();
    let mut ctx = MemoryContext::new(ts(1000), h(0, 10));
    let state = client(h(0, 5), 100, 200);
    let cons = ConsensusState::new(vec![7], ts(900), vec![8]);
    let r = update_on_upgrade(
        &state,
        &mut ctx,
        &c,
        Envelope::ConsensusState(cons),
        Envelope::Misbehaviour,
    );
    assert_eq!(r, Err(ClientError::Decode));
}

#[test]
fn upgrade_rejects_invalid_merged_parameters() {
    // the merged state would have trusting period 100 against unbonding
    // period 50, violating the client invariants
    let c = cid();
    let mut ctx = MemoryContext::new(ts(1000), h(0, 10));
    let current = client(h(0, 10), 100, 200);
    let upgraded = ClientState {
        chain_id: "chain-new".to_string(),
        trust_level: TrustLevel { numerator: 1, denominator: 3 },
        trusting_period: Duration::from_nanos(1),
        unbonding_period: Duration::from_nanos(50),
        max_clock_drift: Duration::from_nanos(1),
        latest_height: h(1, 1),
        frozen_height: None,
        proof_specs: vec![],
        upgrade_path: vec![],
        allow_update: AllowUpdate { after_expiry: false, after_misbehaviour: false },
    };
    let upgraded_cons = ConsensusState::new(vec![7], ts(900), vec![8]);
    let r = update_on_upgrade(
        &current,
        &mut ctx,
        &c,
        Envelope::ClientState(upgraded),
        Envelope::ConsensusState(upgraded_cons),
    );
    assert_eq!(r, Err(ClientError::InvalidClientState));
    assert!(ctx.client_state(&c).is_none());
}

#[test]
fn unrepresentable_host_time_fails_pruning() {
    let c = cid();
    let mut ctx = MemoryContext::new(ts(150), h(0, 1));
    let state = client(h(0, 1), 100, 200);
    update_state(&state, &mut ctx, &c, Envelope::Header(header(h(0, 1), 100))).unwrap();

    // the zero instant has no Tendermint representation
    ctx.set_host_timestamp(ts(0));
    let r = update_state(&state, &mut ctx, &c, Envelope::Header(header(h(0, 2), 120)));
    assert_eq!(r, Err(ClientError::InvalidTimestamp));
}

#[test]
fn overflowing_expiry_fails_pruning() {
    let c = cid();
    let mut ctx = MemoryContext::new(ts(150), h(0, 1));
    let state = client(h(0, 1), 100, 200);
    let far_future = ConsensusState::new(vec![1], ts(u64::MAX - 10), vec![2]);
    let path = ClientConsensusStatePath::new(c.clone(), 0, 1);
    ctx.store_consensus_state(path, Envelope::ConsensusState(far_future)).unwrap();
    let r = update_state(&state, &mut ctx, &c, Envelope::Header(header(h(0, 2), 120)));
    assert_eq!(r, Err(ClientError::Overflow));
}

#[test]
fn malformed_stored_blob_fails_pruning() {
    let c = cid();
    let mut ctx = MemoryContext::new(ts(150), h(0, 1));
    let state = client(h(0, 1), 100, 200);
    let path = ClientConsensusStatePath::new(c.clone(), 0, 1);
    ctx.store_consensus_state(path, Envelope::Misbehaviour).unwrap();
    let r = prune_oldest_consensus_state(&state, &mut ctx, &c);
    assert_eq!(r, Err(ClientError::Decode));
}

#[test]
fn missing_consensus_state_reports_not_found() {
    let c = cid();
    let ctx = MemoryContext::new(ts(150), h(0, 1));
    let path = ClientConsensusStatePath::new(c.clone(), 0, 3);
    assert!(matches!(ctx.consensus_state(&path), Err(ContextError::NotFound)));
}

#[test]
fn pruning_an_empty_archive_succeeds() {
    let c = cid();
    let mut ctx = MemoryContext::new(ts(5), h(0, 1));
    let state = client(h(0, 1), 100, 200);
    assert_eq!(prune_oldest_consensus_state(&state, &mut ctx, &c), Ok(()));
}

#[test]
fn unconvertible_host_time_fails_pruning_even_on_an_empty_archive() {
    // the host clock is converted before the sweep, so the zero instant is
    // rejected whether or not anything is stored
    let c = cid();
    let mut ctx = MemoryContext::new(ts(0), h(0, 1));
    let state = client(h(0, 1), 100, 200);
    assert_eq!(
        prune_oldest_consensus_state(&state, &mut ctx, &c),
        Err(ClientError::InvalidTimestamp)
    );
}

#[test]
fn pruning_sweeps_in_height_order_regardless_of_insertion_order() {
    let c = cid();
    let mut ctx = MemoryContext::new(ts(260), h(0, 1));
    let state = client(h(0, 1), 100, 200);
    for (height, t) in [(h(0, 3), 200u64), (h(0, 1), 100), (h(0, 2), 150)] {
        let cs = ConsensusState::new(vec![1], ts(t), vec![2]);
        let path = ClientConsensusStatePath::new(c.clone(), height.revision_number,
            height.revision_height);
        ctx.store_consensus_state(path, Envelope::ConsensusState(cs)).unwrap();
    }
    prune_oldest_consensus_state(&state, &mut ctx, &c).unwrap();
    assert!(lookup_cs(&ctx, &c, h(0, 1)).is_none());
    assert!(lookup_cs(&ctx, &c, h(0, 2)).is_none());
    assert!(lookup_cs(&ctx, &c, h(0, 3)).is_some());
}

#[test]
fn pruning_stops_at_the_first_fresh_state_even_across_revisions() {
    // heights are swept in lexicographic order, so a fresh state of an
    // earlier revision shields an expired one of a later revision: the
    // sweep deliberately stops early rather than scanning the whole
    // archive
    let c = cid();
    let mut ctx = MemoryContext::new(ts(1000), h(0, 1));
    let state = client(h(0, 1), 100, 200);
    for (height, t) in [(h(0, 5), 950u64), (h(1, 1), 100)] {
        let cs = ConsensusState::new(vec![1], ts(t), vec![2]);
        let path = ClientConsensusStatePath::new(c.clone(), height.revision_number,
            height.revision_height);
        ctx.store_consensus_state(path, Envelope::ConsensusState(cs)).unwrap();
    }
    prune_oldest_consensus_state(&state, &mut ctx, &c).unwrap();
    assert!(lookup_cs(&ctx, &c, h(0, 5)).is_some());
    assert!(lookup_cs(&ctx, &c, h(1, 1)).is_some());
}

#[test]
fn invalid_parameters_are_rejected_by_the_constructor() {
    // trusting period not below the unbonding period
    let r = ClientState::new(
        "chain-old".to_string(),
        TrustLevel { numerator: 1, denominator: 3 },
        Duration::from_nanos(200),
        Duration::from_nanos(200),
        Duration::from_nanos(1),
        h(0, 5),
        vec![],
        vec![],
        AllowUpdate { after_expiry: false, after_misbehaviour: false },
    );
    assert!(matches!(r, Err(ClientError::InvalidClientState)));

    // a trust level below one third
    let r = ClientState::new(
        "chain-old".to_string(),
        TrustLevel { numerator: 1, denominator: 4 },
        Duration::from_nanos(100),
        Duration::from_nanos(200),
        Duration::from_nanos(1),
        h(0, 5),
        vec![],
        vec![],
        AllowUpdate { after_expiry: false, after_misbehaviour: false },
    );
    assert!(matches!(r, Err(ClientError::InvalidClientState)));
}
