use vstd::prelude::*;

use crate::client_state::spec_height_max;
use crate::client_state::spec_with_header;
use crate::client_state::ClientStateView;
use crate::context::UpdateMeta;
use crate::envelope::EnvelopeView;
use crate::execution::spec_env_expired;
use crate::execution::spec_is_stop;
use crate::execution::spec_prefix_expired;
use crate::execution::spec_prune_archive;
use crate::execution::spec_prune_metas;
use crate::execution::spec_prune_ok;
use crate::execution::spec_pruned_away;
use crate::execution::spec_stop_entry_ok;
use crate::execution::spec_update_archive;
use crate::execution::spec_update_clients;
use crate::execution::spec_update_metas;
use crate::header::HeaderView;
use crate::height::Height;
use crate::time::Duration;
use crate::time::Timestamp;

verus! {

/// A surviving entry always has a fresh entry at or below it: pruning
/// deletes exactly the archive prefix in which every state has expired.
proof fn lemma_survivor_has_fresh_floor(m: Map<(Seq<char>, Height), EnvelopeView>,
    cid: Seq<char>, trusting: Duration, now: Timestamp, x: Height)
    requires
        spec_prune_archive(m, cid, trusting, now).contains_key((cid, x)),
    ensures
        exists|y: Height|
            {
                &&& y.spec_le(x)
                &&& #[trigger] spec_prune_archive(m, cid, trusting, now).contains_key((cid, y))
                &&& !spec_env_expired(m[(cid, y)], trusting, now)
            },
{
    assert(!spec_prefix_expired(m, cid, trusting, now, x));
    let y = choose|y: Height|
        #[trigger] m.contains_key((cid, y)) && y.spec_le(x) && !spec_env_expired(m[(cid, y)],
        trusting, now);
    assert(!spec_prefix_expired(m, cid, trusting, now, y));
    assert(spec_prune_archive(m, cid, trusting, now).contains_key((cid, y)));
}

/// Idempotence of `update_state`: once a header has been applied, applying
/// the very same header again, from the same client state and at the same
/// host clock and height, succeeds and leaves the whole store — archive,
/// update metadata and client records — exactly as the first application
/// left it. By the contract of `update_state`, both calls then return the
/// singleton list of the header's height. The hypotheses are what the
/// first call itself needs: its sweep ran to completion — which includes a
/// host clock with a Tendermint representation — and the expiry of the
/// header's own consensus state does not overflow.
pub proof fn lemma_update_state_idempotent(m: Map<(Seq<char>, Height), EnvelopeView>, mm: Map<(
    Seq<char>, Height), UpdateMeta>, cm: Map<Seq<char>, EnvelopeView>, c: ClientStateView,
    cid: Seq<char>, h: HeaderView, now: Timestamp, hh: Height)
    requires
        spec_prune_ok(m, cid, c.trusting_period, now),
        h.timestamp.nanos + c.trusting_period.nanos <= u64::MAX,
    ensures
        spec_prune_ok(spec_update_archive(m, cid, c.trusting_period, now, h), cid,
            c.trusting_period, now),
        spec_update_archive(spec_update_archive(m, cid, c.trusting_period, now, h), cid,
            c.trusting_period, now, h) == spec_update_archive(m, cid, c.trusting_period, now, h),
        spec_update_metas(spec_update_metas(mm, m, cid, c.trusting_period, now, hh, h),
            spec_update_archive(m, cid, c.trusting_period, now, h), cid, c.trusting_period, now,
            hh, h) == spec_update_metas(mm, m, cid, c.trusting_period, now, hh, h),
        spec_update_clients(spec_update_clients(cm, m, cid, c.trusting_period, now, c, h),
            spec_update_archive(m, cid, c.trusting_period, now, h), cid, c.trusting_period, now,
            c, h) == spec_update_clients(cm, m, cid, c.trusting_period, now, c, h),
{
    let tr = c.trusting_period;
    let pm = spec_prune_archive(m, cid, tr, now);
    let key = (cid, h.height);
    let m1 = spec_update_archive(m, cid, tr, now, h);
    let pm1 = spec_prune_archive(m1, cid, tr, now);

    // every first-sweep survivor survives the second sweep as well, since
    // its fresh floor is still present with the same value
    assert forall|x: Height| #[trigger] pm.contains_key((cid, x)) implies pm1.contains_key(
        (cid, x)) && pm1[(cid, x)] == pm[(cid, x)] by {
        lemma_survivor_has_fresh_floor(m, cid, tr, now, x);
        let y = choose|y: Height|
            {
                &&& y.spec_le(x)
                &&& #[trigger] spec_prune_archive(m, cid, tr, now).contains_key((cid, y))
                &&& !spec_env_expired(m[(cid, y)], tr, now)
            };
        assert(m1.contains_key((cid, y)) && m1[(cid, y)] == m[(cid, y)]);
        assert(!spec_prefix_expired(m1, cid, tr, now, x));
    }

    // the header's height is present after the first call, and its entry
    // survives the second sweep unless it alone forms an expired prefix;
    // either way the second call's archive equals the first call's
    assert(m1.contains_key(key));
    if pm1.contains_key(key) {
        assert(spec_update_archive(m1, cid, tr, now, h) =~= m1) by {
            assert forall|k: (Seq<char>, Height)| #[trigger] m1.contains_key(k)
                implies pm1.contains_key(k) && pm1[k] == m1[k] by {
                if k.0 == cid {
                    if k.1 == h.height {
                    } else {
                        assert(pm.contains_key(k));
                    }
                } else {
                    assert(!spec_prefix_not_cid(m1, cid, tr, now, k));
                }
            }
        }
    } else {
        assert(spec_update_archive(m1, cid, tr, now, h) =~= m1) by {
            assert forall|k: (Seq<char>, Height)| #[trigger] m1.contains_key(k) && k != key
                implies pm1.contains_key(k) && pm1[k] == m1[k] by {
                if k.0 == cid {
                    assert(pm.contains_key(k));
                } else {
                    assert(!spec_prefix_not_cid(m1, cid, tr, now, k));
                }
            }
        }
    }

    assert(spec_prune_ok(m1, cid, tr, now)) by {
        assert forall|s: Height| #[trigger] spec_is_stop(m1, cid, tr, now, s)
            implies spec_stop_entry_ok(m1[(cid, s)], tr) by {
            if s == h.height && !pm.contains_key(key) {
                // the stop entry is the header's own consensus state
                assert(m1[key] == EnvelopeView::ConsensusState(
                    crate::consensus_state::spec_consensus_from_header(h)));
            } else {
                // the stop entry already stood in the unpruned archive and
                // was the first sweep's stop as well
                assert(pm.contains_key((cid, s)));
                assert(m.contains_key((cid, s)));
                assert(spec_is_stop(m, cid, tr, now, s)) by {
                    assert forall|h2: Height|
                        #[trigger] m.contains_key((cid, h2)) && h2.spec_lt(s)
                            implies spec_env_expired(m[(cid, h2)], tr, now) by {
                        if !spec_prefix_expired(m, cid, tr, now, h2) {
                            assert(pm.contains_key((cid, h2)));
                            assert(m1.contains_key((cid, h2)) && m1[(cid, h2)] == m[(cid, h2)]);
                        } else {
                            assert(m.contains_key((cid, h2)) && h2.spec_le(h2));
                        }
                    }
                }
                assert(m.contains_key((cid, s)));
            }
        }
    }

    // the metadata of the second call equals the first call's: the only
    // entry the second sweep can delete is the header's own, and it is
    // re-stamped with the same host clock and height
    let mm1 = spec_update_metas(mm, m, cid, tr, now, hh, h);
    let pmm1 = spec_prune_metas(mm1, m1, cid, tr, now);
    assert forall|k: (Seq<char>, Height)| #[trigger] mm1.contains_key(k) && k != key
        implies pmm1.contains_key(k) && pmm1[k] == mm1[k] by {
        if k.0 == cid && m1.contains_key(k) {
            assert(pm.contains_key(k) || k == key);
            assert(pm1.contains_key(k));
            assert(!spec_prefix_expired(m1, cid, tr, now, k.1));
        }
    }
    if pm1.contains_key(key) {
        assert(spec_update_metas(mm1, m1, cid, tr, now, hh, h) =~= mm1) by {
            assert forall|k: (Seq<char>, Height)| #[trigger] mm1.contains_key(k)
                implies pmm1.contains_key(k) && pmm1[k] == mm1[k] by {
                if k == key {
                    assert(!spec_prefix_expired(m1, cid, tr, now, k.1));
                }
            }
        }
    } else {
        // the header's entry alone was deleted and is stamped again
        assert(!pm.contains_key(key));
        assert(mm1.contains_key(key) && mm1[key] == (UpdateMeta {
            host_timestamp: now,
            host_height: hh,
        }));
        assert(spec_update_metas(mm1, m1, cid, tr, now, hh, h) =~= mm1);
    }

    // the client record is rewritten only when the header's entry is
    // absent after pruning, and rewriting it twice writes the same record
    let cm1 = spec_update_clients(cm, m, cid, tr, now, c, h);
    if pm1.contains_key(key) {
        assert(spec_update_clients(cm1, m1, cid, tr, now, c, h) == cm1);
    } else {
        assert(spec_update_clients(cm1, m1, cid, tr, now, c, h) =~= cm1) by {
            assert(!pm.contains_key(key));
        }
    }
}

/// A helper naming the deleted-for-another-client condition, so that the
/// extensionality proofs above can instantiate it.
spec fn spec_prefix_not_cid(m: Map<(Seq<char>, Height), EnvelopeView>, cid: Seq<char>,
    trusting: Duration, now: Timestamp, k: (Seq<char>, Height)) -> bool {
    k.0 == cid && spec_prefix_expired(m, cid, trusting, now, k.1)
}

/// Prune freshness: on an archive whose stored states all decode and whose
/// block timestamps rise with the height — which holds of any archive
/// within one chain revision — every consensus state that survives a
/// completed sweep is fresh: its expiry lies strictly beyond the host
/// clock. Across a revision bump the timestamp hypothesis can fail, and
/// then the early-exit sweep may retain an expired state above the stop
/// height.
pub proof fn lemma_prune_freshness(m: Map<(Seq<char>, Height), EnvelopeView>, cid: Seq<char>,
    trusting: Duration, now: Timestamp)
    requires
        forall|h: Height| #[trigger] m.contains_key((cid, h)) ==> m[(cid, h)] is ConsensusState,
        forall|h1: Height, h2: Height|
            #[trigger] m.contains_key((cid, h1)) && #[trigger] m.contains_key((cid, h2))
                && h1.spec_le(h2) ==> m[(cid, h1)]->ConsensusState_0.timestamp.nanos <= m[(cid,
            h2)]->ConsensusState_0.timestamp.nanos,
    ensures
        forall|h: Height| #[trigger]
            spec_prune_archive(m, cid, trusting, now).contains_key((cid, h)) ==> m[(cid,
            h)]->ConsensusState_0.timestamp.nanos + trusting.nanos > now.nanos,
{
    assert forall|h: Height| #[trigger]
        spec_prune_archive(m, cid, trusting, now).contains_key((cid, h)) implies m[(cid,
        h)]->ConsensusState_0.timestamp.nanos + trusting.nanos > now.nanos by {
        lemma_survivor_has_fresh_floor(m, cid, trusting, now, h);
        let y = choose|y: Height|
            {
                &&& y.spec_le(h)
                &&& #[trigger] spec_prune_archive(m, cid, trusting, now).contains_key((cid, y))
                &&& !spec_env_expired(m[(cid, y)], trusting, now)
            };
        assert(m.contains_key((cid, y)));
    }
}

/// No resurrection: the only archive key a call to `update_state` may make
/// present is the submitted header's own height. Every other key either
/// survives the sweep with its value unchanged, or is gone until some
/// later call submits a header at exactly that height.
pub proof fn lemma_no_resurrection(m: Map<(Seq<char>, Height), EnvelopeView>, cid: Seq<char>,
    trusting: Duration, now: Timestamp, h: HeaderView)
    ensures
        forall|k: (Seq<char>, Height)| #[trigger]
            spec_update_archive(m, cid, trusting, now, h).contains_key(k) ==> m.contains_key(k)
                || k == (cid, h.height),
        forall|k: (Seq<char>, Height)|
            spec_pruned_away(m, cid, trusting, now, k.1) && k.0 == cid && k.1 != h.height ==> !(
            #[trigger] spec_update_archive(m, cid, trusting, now, h).contains_key(k)),
{
}

/// Latest-height monotonicity: incorporating a header never lowers the
/// client's latest height — it raises it to the header's height exactly
/// when the header lies above it, and a historical fill-in leaves it
/// untouched. Over any sequence of `update_state` calls, each of which
/// stores `spec_with_header` of the state it was handed, the stored latest
/// height is therefore non-decreasing.
pub proof fn lemma_latest_height_monotonic(c: ClientStateView, h: HeaderView)
    ensures
        c.latest_height.spec_le(spec_with_header(c, h).latest_height),
        spec_with_header(c, h).latest_height == spec_height_max(c.latest_height, h.height),
        h.height.spec_le(c.latest_height) ==> spec_with_header(c, h).latest_height
            == c.latest_height,
        c.latest_height.spec_le(h.height) ==> spec_with_header(c, h).latest_height == h.height,
{
}

} // verus!
