//! Dispatch of one message to its targets.
//!
//! A message goes out in one of three modes: to one named peer, to a selection
//! of peers that are expected to relay it further, or to the nearest
//! neighbours. Once the targets are known, each of them is dealt with on its
//! own: a reachable target gets one request to the transport; an unreachable
//! one has the message stashed for it where store-and-forward is switched on,
//! and is passed over where it is not. What happens to one target never keeps
//! the message from the targets after it.

use crate::config::DhtConfig;
use crate::outbound::{copy_of, offer, DhtOutboundRequest, SendStatus};
use crate::peer::{reachable_in, NodeId, Peer, PeerDirectory};
use crate::saf::{deadline, queued, stashed_all, SafStore, StashOutcome, StoredMessageView};
use crate::selector::{
    candidate_ids, candidates, closest, closest_peers, select, selection,
};
use tokio::sync::mpsc::Sender;
use vstd::prelude::*;

verus! {

/// How far a message is to go.
#[derive(Clone, Copy, Debug, PartialEq, Eq, Structural)]
pub enum PropagationMode {
    /// To this peer and no other.
    Direct(NodeId),
    /// To a selection of peers, as many as the propagation factor says.
    Propagate,
    /// To the nearest neighbours, as many as the broadcast factor says.
    Broadcast,
}

/// What was done with the message for one target.
#[derive(Clone, Copy, Debug, PartialEq, Eq, Structural)]
pub enum Disposition {
    /// A request was offered to the transport, which answered with this status.
    Transport(SendStatus),
    /// The target is unreachable; the message was stashed for it.
    Stored(StashOutcome),
    /// The target is unreachable and nothing is kept for it.
    Dropped,
}

/// One target with what was done for it.
#[derive(Clone, Copy, Debug, PartialEq, Eq, Structural)]
pub struct TargetOutcome {
    pub peer: NodeId,
    pub disposition: Disposition,
}

/// What a dispatch did, target by target, in the order of the targets.
#[derive(Debug)]
pub struct DispatchReport {
    pub outcomes: Vec<TargetOutcome>,
}

/// The targets of a message in the given mode. A peer named for a direct
/// send is the target whether or not the directory knows it.
pub open spec fn targets_for(
    mode: PropagationMode,
    peers: Seq<Peer>,
    local: NodeId,
    config: DhtConfig,
    exclude: Seq<NodeId>,
    draws: Seq<u64>,
) -> Seq<NodeId> {
    match mode {
        PropagationMode::Direct(peer) => seq![peer],
        PropagationMode::Propagate => selection(
            candidates(peers, exclude),
            local,
            config.propagation_factor,
            config.spec_mix(),
            draws,
        ),
        PropagationMode::Broadcast => closest(
            candidates(peers, exclude),
            local,
            config.broadcast_factor as nat,
        ),
    }
}

/// The message as it is stashed for `target`.
pub open spec fn kept_for(target: NodeId, envelope: Seq<u8>, ttl: u64, now: u64) -> StoredMessageView {
    StoredMessageView {
        destination: target,
        envelope,
        stored_at: now,
        expires_at: deadline(now, ttl),
    }
}

/// The stashes that a dispatch asks for: one for each unreachable target, in
/// the order of the targets.
pub open spec fn stash_run(
    targets: Seq<NodeId>,
    peers: Seq<Peer>,
    envelope: Seq<u8>,
    ttl: u64,
    now: u64,
) -> Seq<StoredMessageView>
    decreases targets.len(),
{
    if targets.len() == 0 {
        Seq::empty()
    } else if reachable_in(peers, targets.last()) {
        stash_run(targets.drop_last(), peers, envelope, ttl, now)
    } else {
        stash_run(targets.drop_last(), peers, envelope, ttl, now).push(
            kept_for(targets.last(), envelope, ttl, now),
        )
    }
}

/// What is done for an unreachable target when the store holds `kept`.
pub open spec fn fate_of_unreachable(
    kept: Seq<StoredMessageView>,
    enabled: bool,
    capacity: usize,
    target: NodeId,
) -> Disposition {
    if !enabled || capacity == 0 {
        Disposition::Dropped
    } else if queued(kept, target).len() >= capacity {
        Disposition::Stored(StashOutcome::StoredAfterEviction)
    } else {
        Disposition::Stored(StashOutcome::Stored)
    }
}

/// Whether the outcome recorded for the target at position `i` is what the
/// dispatch owes it, given the store `kept` as it was before the dispatch.
pub open spec fn outcome_fits(
    outcome: TargetOutcome,
    i: int,
    targets: Seq<NodeId>,
    peers: Seq<Peer>,
    kept: Seq<StoredMessageView>,
    enabled: bool,
    capacity: usize,
    envelope: Seq<u8>,
    ttl: u64,
    now: u64,
) -> bool {
    &&& outcome.peer == targets[i]
    &&& if reachable_in(peers, targets[i]) {
        outcome.disposition is Transport
    } else {
        outcome.disposition == fate_of_unreachable(
            stashed_all(kept, enabled, capacity, stash_run(targets.take(i), peers, envelope, ttl, now)),
            enabled,
            capacity,
            targets[i],
        )
    }
}

/// Works out the targets of a message in the given mode.
pub fn resolve_targets(
    mode: PropagationMode,
    directory: &PeerDirectory,
    local: &NodeId,
    config: &DhtConfig,
    exclude: &Vec<NodeId>,
    draws: &Vec<u64>,
) -> (targets: Vec<NodeId>)
    requires
        directory.wf(),
    ensures
        targets@ == targets_for(mode, directory@, *local, *config, exclude@, draws@),
{
    match mode {
        PropagationMode::Direct(peer) => {
            let mut targets: Vec<NodeId> = Vec::new();
            targets.push(peer);
            proof {
                assert(targets@ == seq![peer]);
            }
            targets
        },
        PropagationMode::Propagate => {
            let mix = config.mix();
            select(directory, local, config.propagation_factor, &mix, exclude, draws)
        },
        PropagationMode::Broadcast => {
            let c = candidate_ids(directory, exclude);
            closest_peers(&c, local, config.broadcast_factor)
        },
    }
}

/// Deals with `envelope` for each target in turn: one request to the
/// transport for a reachable target, one stash for an unreachable one where
/// store-and-forward keeps messages, nothing otherwise. The report names
/// every target once, in order, with what was done for it.
pub fn dispatch(
    targets: &Vec<NodeId>,
    envelope: &Vec<u8>,
    directory: &PeerDirectory,
    saf: &mut SafStore,
    tx: &Sender<DhtOutboundRequest>,
    ttl: u64,
    now: u64,
) -> (report: DispatchReport)
    requires
        directory.wf(),
        old(saf).wf(),
    ensures
        final(saf).wf(),
        final(saf).spec_enabled() == old(saf).spec_enabled(),
        final(saf).spec_capacity() == old(saf).spec_capacity(),
        final(saf)@ == stashed_all(
            old(saf)@,
            old(saf).spec_enabled(),
            old(saf).spec_capacity(),
            stash_run(targets@, directory@, envelope@, ttl, now),
        ),
        report.outcomes@.len() == targets@.len(),
        forall|i: int|
            0 <= i < targets@.len() ==> outcome_fits(
                #[trigger] report.outcomes@[i],
                i,
                targets@,
                directory@,
                old(saf)@,
                old(saf).spec_enabled(),
                old(saf).spec_capacity(),
                envelope@,
                ttl,
                now,
            ),
{
    let ghost kept = saf@;
    let ghost enabled = saf.spec_enabled();
    let ghost capacity = saf.spec_capacity();
    let mut outcomes: Vec<TargetOutcome> = Vec::new();
    let mut i: usize = 0;
    proof {
        assert(targets@.take(0) == Seq::<NodeId>::empty());
    }
    while i < targets.len()
        invariant
            i <= targets.len(),
            directory.wf(),
            saf.wf(),
            saf.spec_enabled() == enabled,
            saf.spec_capacity() == capacity,
            saf@ == stashed_all(
                kept,
                enabled,
                capacity,
                stash_run(targets@.take(i as int), directory@, envelope@, ttl, now),
            ),
            outcomes@.len() == i,
            forall|k: int|
                0 <= k < i ==> outcome_fits(
                    #[trigger] outcomes@[k],
                    k,
                    targets@,
                    directory@,
                    kept,
                    enabled,
                    capacity,
                    envelope@,
                    ttl,
                    now,
                ),
        decreases targets.len() - i,
    {
        let target = targets[i];
        proof {
            assert(targets@.take(i + 1).drop_last() == targets@.take(i as int));
            assert(targets@.take(i + 1).last() == target);
            let run = stash_run(targets@.take(i as int), directory@, envelope@, ttl, now);
            assert(run.push(kept_for(target, envelope@, ttl, now)).drop_last() == run);
        }
        let ghost so_far = outcomes@;
        let disposition = if directory.is_reachable(target) {
            let request = DhtOutboundRequest { destination: target, envelope: copy_of(envelope) };
            Disposition::Transport(offer(tx, request))
        } else if saf.is_enabled() && saf.capacity() > 0 {
            Disposition::Stored(saf.stash(target, copy_of(envelope), ttl, now))
        } else {
            Disposition::Dropped
        };
        outcomes.push(TargetOutcome { peer: target, disposition });
        proof {
            assert forall|k: int| 0 <= k < i + 1 implies outcome_fits(
                #[trigger] outcomes@[k],
                k,
                targets@,
                directory@,
                kept,
                enabled,
                capacity,
                envelope@,
                ttl,
                now,
            ) by {
                if k < i {
                    assert(outcomes@[k] == so_far[k]);
                }
            }
        }
        i += 1;
    }
    proof {
        assert(targets@.take(i as int) == targets@);
    }
    DispatchReport { outcomes }
}

} // verus!
