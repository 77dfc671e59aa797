//! Exercises the in-memory host context: lookups, neighbour queries, and
//! the write surface.

use ibc_client_tendermint::consensus_state::ConsensusState;
use ibc_client_tendermint::context::CommonContext;
use ibc_client_tendermint::context::ExecutionContext;
use ibc_client_tendermint::context::ValidationContext;
use ibc_client_tendermint::envelope::Envelope;
use ibc_client_tendermint::height::Height;
use ibc_client_tendermint::path::ClientConsensusStatePath;
use ibc_client_tendermint::path::ClientId;
use ibc_client_tendermint::store::MemoryContext;
use ibc_client_tendermint::time::Timestamp;

fn cid() -> ClientId {
    ClientId::new("07-tendermint-0".to_string())
}

fn h(rn: u64, rh: u64) -> Height {
    Height::new(rn, rh)
}

fn store_cs(ctx: &mut MemoryContext, c: &ClientId, height: Height, tag: u8) {
    let cs = ConsensusState::new(vec![tag], Timestamp::from_nanos(100), vec![tag]);
    let path = ClientConsensusStatePath::new(c.clone(), height.revision_number,
        height.revision_height);
    ctx.store_consensus_state(path, Envelope::ConsensusState(cs)).unwrap();
}

fn root_of(env: Envelope) -> Vec<u8> {
    env.try_into_consensus_state().unwrap().root
}

#[test]
fn neighbour_queries_find_the_closest_stored_heights() {
    let c = cid();
    let mut ctx = MemoryContext::new(Timestamp::from_nanos(50), h(0, 1));
    store_cs(&mut ctx, &c, h(0, 2), 2);
    store_cs(&mut ctx, &c, h(0, 5), 5);
    store_cs(&mut ctx, &c, h(1, 1), 11);

    let next = ctx.next_consensus_state(&c, &h(0, 3)).unwrap().unwrap();
    assert_eq!(root_of(next), vec![5]);
    let next = ctx.next_consensus_state(&c, &h(0, 5)).unwrap().unwrap();
    assert_eq!(root_of(next), vec![11]);
    assert!(ctx.next_consensus_state(&c, &h(1, 1)).unwrap().is_none());

    let prev = ctx.prev_consensus_state(&c, &h(0, 5)).unwrap().unwrap();
    assert_eq!(root_of(prev), vec![2]);
    let prev = ctx.prev_consensus_state(&c, &h(1, 1)).unwrap().unwrap();
    assert_eq!(root_of(prev), vec![5]);
    assert!(ctx.prev_consensus_state(&c, &h(0, 2)).unwrap().is_none());
}

#[test]
fn stores_replace_and_deletes_remove() {
    let c = cid();
    let mut ctx = MemoryContext::new(Timestamp::from_nanos(50), h(0, 1));
    store_cs(&mut ctx, &c, h(0, 2), 2);
    store_cs(&mut ctx, &c, h(0, 2), 9);

    let path = ClientConsensusStatePath::new(c.clone(), 0, 2);
    let stored = ctx.consensus_state(&path).unwrap();
    assert_eq!(root_of(stored), vec![9]);
    let heights = ctx.consensus_state_heights(&c).unwrap();
    assert_eq!(heights, vec![h(0, 2)]);

    let path = ClientConsensusStatePath::new(c.clone(), 0, 2);
    ctx.delete_consensus_state(path).unwrap();
    let path = ClientConsensusStatePath::new(c.clone(), 0, 2);
    assert!(ctx.consensus_state(&path).is_err());
    assert!(ctx.consensus_state_heights(&c).unwrap().is_empty());
}

#[test]
fn heights_of_different_clients_stay_apart() {
    let c = cid();
    let other = ClientId::new("07-tendermint-1".to_string());
    let mut ctx = MemoryContext::new(Timestamp::from_nanos(50), h(0, 1));
    store_cs(&mut ctx, &c, h(0, 2), 2);
    store_cs(&mut ctx, &other, h(0, 3), 3);

    assert_eq!(ctx.consensus_state_heights(&c).unwrap(), vec![h(0, 2)]);
    assert_eq!(ctx.consensus_state_heights(&other).unwrap(), vec![h(0, 3)]);
    let path = ClientConsensusStatePath::new(c.clone(), 0, 3);
    assert!(ctx.consensus_state(&path).is_err());
}
