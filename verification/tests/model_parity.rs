//! Checks the library's heights and timestamps against the ibc ecosystem
//! crates they model.

use ibc_client_tendermint::height::Height;
use ibc_client_tendermint::time::Duration;
use ibc_client_tendermint::time::Timestamp;
use ibc_core_client_types::Height as IbcHeight;
use ibc_primitives::Timestamp as IbcTimestamp;

#[test]
fn height_order_matches_ibc() {
    let samples = [(0u64, 1u64), (0, 5), (0, 7), (1, 1), (1, 5), (2, 3)];
    for &(rn_a, rh_a) in samples.iter() {
        for &(rn_b, rh_b) in samples.iter() {
            let a = Height::new(rn_a, rh_a);
            let b = Height::new(rn_b, rh_b);
            let ia = IbcHeight::new(rn_a, rh_a).unwrap();
            let ib = IbcHeight::new(rn_b, rh_b).unwrap();
            assert_eq!(a.lt(&b), ia < ib);
            assert_eq!(a.le(&b), ia <= ib);
        }
    }
}

#[test]
fn frozen_marker_matches_ibc_min_height() {
    let marker = IbcHeight::min(0);
    assert_eq!(marker.revision_number(), 0);
    assert_eq!(marker.revision_height(), 1);
    let ours = Height::min(0);
    assert_eq!(ours.revision_number, 0);
    assert_eq!(ours.revision_height, 1);
}

#[test]
fn timestamp_nanoseconds_round_trip() {
    let theirs = IbcTimestamp::from_nanoseconds(123_456_789);
    assert_eq!(theirs.nanoseconds(), 123_456_789);
    let ours = Timestamp::from_nanos(123_456_789);
    assert_eq!(ours.nanos, 123_456_789);
}

#[test]
fn timestamp_addition_matches_ibc() {
    let theirs = (IbcTimestamp::from_nanoseconds(1_000)
        + core::time::Duration::from_nanos(100))
    .unwrap();
    let ours = Timestamp::from_nanos(1_000).checked_add(Duration::from_nanos(100)).unwrap();
    assert_eq!(theirs.nanoseconds(), ours.nanos);
}
