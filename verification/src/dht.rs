//! The coordinator of the DHT layer.
//!
//! It owns the fingerprint cache, the store-and-forward store and the table
//! of discovery requests, and it is the one place through which messages
//! leave the node. Every message takes the same way: its fingerprint is
//! observed in the cache; if the message has been seen too often it stops
//! there; otherwise its targets are worked out and the message is dispatched
//! to them.
//!
//! The coordinator does not run anything by itself. Whoever drives it tells it
//! of the events in its life (tasks spawned, shutdown asked for, tasks gone),
//! calls its maintenance functions when their timers fire, and hands it the
//! current time and the current picture of the peers with every call.

use crate::config::{fault_of, ConfigurationError, DhtConfig};
use crate::dedup::{
    digest_of, hits, lemma_observed, observed, trimmed, DedupCache, DedupEntry,
    MessageFingerprint,
};
use crate::discovery::{
    awaited, begun, in_flight, lapsed, overdue, position_of, DiscoveryError, DiscoveryRequest,
    DiscoveryTable,
};
use crate::dispatcher::{
    dispatch, outcome_fits, resolve_targets, stash_run, targets_for, DispatchReport,
    PropagationMode,
};
use crate::outbound::DhtOutboundRequest;
use crate::peer::{NodeId, Peer, PeerDirectory};
use crate::saf::{
    contents, delivery, live, others, stashed_all, SafStore, StoredMessageView,
};
use tokio::sync::mpsc::Sender;
use vstd::prelude::*;

verus! {

/// Where the coordinator stands in its life.
#[derive(Clone, Copy, Debug, PartialEq, Eq, Structural)]
pub enum DhtState {
    Uninitialized,
    Initializing,
    Running,
    ShuttingDown,
    Stopped,
}

/// What can happen to the coordinator as a whole.
#[derive(Clone, Copy, Debug, PartialEq, Eq, Structural)]
pub enum LifecycleEvent {
    /// Initialization was asked for.
    Initialize,
    /// The background tasks have been spawned.
    TasksSpawned,
    /// The shutdown signal was raised.
    ShutdownSignal,
    /// Every background task has seen the signal and has ended.
    TasksExited,
}

/// Why the coordinator turned a call down.
#[derive(Clone, Copy, Debug, PartialEq, Eq, Structural)]
pub enum DhtError {
    /// The coordinator is not running yet.
    NotInitialized,
    /// The coordinator is shutting down or has stopped.
    ShuttingDown,
    /// The event does not fit the state the coordinator is in.
    InvalidTransition,
    /// A discovery could not be started.
    Discovery(DiscoveryError),
}

/// The state that follows `state` on `event`, where the event fits the state.
pub open spec fn step(state: DhtState, event: LifecycleEvent) -> Option<DhtState> {
    match (state, event) {
        (DhtState::Uninitialized, LifecycleEvent::Initialize) => Some(DhtState::Initializing),
        (DhtState::Initializing, LifecycleEvent::TasksSpawned) => Some(DhtState::Running),
        (DhtState::Running, LifecycleEvent::ShutdownSignal) => Some(DhtState::ShuttingDown),
        (DhtState::ShuttingDown, LifecycleEvent::TasksExited) => Some(DhtState::Stopped),
        _ => None,
    }
}

/// The place of a state in the coordinator's life.
pub open spec fn rank(state: DhtState) -> nat {
    match state {
        DhtState::Uninitialized => 0,
        DhtState::Initializing => 1,
        DhtState::Running => 2,
        DhtState::ShuttingDown => 3,
        DhtState::Stopped => 4,
    }
}

/// The state after a run of events, the earliest first. An event that does
/// not fit leaves the state as it is.
pub open spec fn state_after(state: DhtState, events: Seq<LifecycleEvent>) -> DhtState
    decreases events.len(),
{
    if events.len() == 0 {
        state
    } else {
        let before = state_after(state, events.drop_last());
        match step(before, events.last()) {
            Some(next) => next,
            None => before,
        }
    }
}

/// Why a call is turned down in `state`, if it is: messages are dealt with
/// while the coordinator is running and at no other time.
pub open spec fn refusal(state: DhtState) -> Option<DhtError> {
    match state {
        DhtState::Uninitialized | DhtState::Initializing => Some(DhtError::NotInitialized),
        DhtState::Running => None,
        DhtState::ShuttingDown | DhtState::Stopped => Some(DhtError::ShuttingDown),
    }
}

/// A transition leads to the state next in line: none is skipped, and none
/// leads back.
pub proof fn law_transitions_go_one_step(state: DhtState, event: LifecycleEvent)
    ensures
        step(state, event) matches Some(next) ==> rank(next) == rank(state) + 1,
{
}

/// Whatever events arrive, the coordinator moves forward one state at a
/// time: after each event it is where it was or one state further, so that
/// a state is reached only through all the states before it.
pub proof fn law_no_state_is_skipped(state: DhtState, events: Seq<LifecycleEvent>)
    ensures
        rank(state) <= rank(state_after(state, events)) <= rank(state) + events.len(),
        events.len() > 0 ==> rank(state_after(state, events.drop_last())) <= rank(
            state_after(state, events),
        ) <= rank(state_after(state, events.drop_last())) + 1,
    decreases events.len(),
{
    if events.len() > 0 {
        law_no_state_is_skipped(state, events.drop_last());
    }
}

/// What became of a message handed to the coordinator.
#[derive(Debug)]
pub enum Propagation {
    /// The message has been seen more often than allowed: nothing was sent.
    Suppressed { hit_count: usize },
    /// The message was dispatched to its targets.
    Dispatched(DispatchReport),
}

/// The coordinator.
pub struct Dht {
    state: DhtState,
    config: DhtConfig,
    node_id: NodeId,
    outbound_tx: Sender<DhtOutboundRequest>,
    dedup: DedupCache,
    saf: SafStore,
    discoveries: DiscoveryTable,
}

impl Dht {
    pub closed spec fn spec_state(&self) -> DhtState {
        self.state
    }

    pub closed spec fn spec_config(&self) -> DhtConfig {
        self.config
    }

    /// The identifier of this node.
    pub closed spec fn spec_node_id(&self) -> NodeId {
        self.node_id
    }

    /// The channel on which requests go to the transport.
    pub closed spec fn spec_outbound_tx(&self) -> Sender<DhtOutboundRequest> {
        self.outbound_tx
    }

    /// The fingerprint cache.
    pub closed spec fn cache(&self) -> DedupCache {
        self.dedup
    }

    /// The store-and-forward store.
    pub closed spec fn store(&self) -> SafStore {
        self.saf
    }

    /// The discovery requests in flight.
    pub closed spec fn pending(&self) -> DiscoveryTable {
        self.discoveries
    }

    /// The coordinator's invariant: its parts are well formed and set up as
    /// the configuration says.
    pub open spec fn wf(&self) -> bool {
        &&& self.spec_config().spec_is_valid()
        &&& self.cache().wf()
        &&& self.cache().spec_capacity() == self.spec_config().dedup_cache_capacity
        &&& self.cache().spec_allowed_occurrences()
            == self.spec_config().dedup_allowed_message_occurrences
        &&& self.cache().spec_max_age() == self.spec_config().dedup_cache_max_age
        &&& self.store().wf()
        &&& self.store().spec_enabled() == self.spec_config().saf_config.auto_request
        &&& self.store().spec_capacity() == self.spec_config().saf_config.msg_storage_capacity
        &&& self.pending().wf()
    }

    /// Everything but the state, the cache, the store and the discovery table
    /// is the same in `self` and `other`.
    pub open spec fn same_setup(&self, other: &Dht) -> bool {
        &&& self.spec_config() == other.spec_config()
        &&& self.spec_node_id() == other.spec_node_id()
        &&& self.spec_outbound_tx() == other.spec_outbound_tx()
    }

    /// A coordinator that has not been initialized, with an empty cache, an
    /// empty store and no discovery in flight. A configuration that is not
    /// usable is turned down.
    pub fn new(config: DhtConfig, node_id: NodeId, outbound_tx: Sender<DhtOutboundRequest>) -> (result:
        Result<Dht, ConfigurationError>)
        ensures
            match fault_of(config) {
                Some(fault) => result == Err::<Dht, ConfigurationError>(fault),
                None => {
                    &&& result matches Ok(dht)
                    &&& dht.wf()
                    &&& dht.spec_state() == DhtState::Uninitialized
                    &&& dht.spec_config() == config
                    &&& dht.spec_node_id() == node_id
                    &&& dht.spec_outbound_tx() == outbound_tx
                    &&& dht.cache()@ == Seq::<DedupEntry>::empty()
                    &&& dht.store()@ == Seq::<StoredMessageView>::empty()
                    &&& dht.pending()@ == Seq::<DiscoveryRequest>::empty()
                    &&& dht.pending().spec_next_id() == 0
                },
            },
    {
        match config.validate() {
            Err(fault) => {
                return Err(fault);
            },
            Ok(()) => {},
        }
        let dedup = DedupCache::new(
            config.dedup_cache_capacity,
            config.dedup_allowed_message_occurrences,
            config.dedup_cache_max_age,
        );
        let saf = SafStore::new(config.saf_config.auto_request, config.saf_config.msg_storage_capacity);
        Ok(
            Dht {
                state: DhtState::Uninitialized,
                config,
                node_id,
                outbound_tx,
                dedup,
                saf,
                discoveries: DiscoveryTable::new(),
            },
        )
    }

    pub fn state(&self) -> (s: DhtState)
        ensures
            s == self.spec_state(),
    {
        self.state
    }

    pub fn is_running(&self) -> (b: bool)
        ensures
            b == (self.spec_state() == DhtState::Running),
    {
        match self.state {
            DhtState::Running => true,
            _ => false,
        }
    }

    pub fn config(&self) -> (c: &DhtConfig)
        ensures
            *c == self.spec_config(),
    {
        &self.config
    }

    pub fn node_id(&self) -> (id: NodeId)
        ensures
            id == self.spec_node_id(),
    {
        self.node_id
    }

    /// The fingerprint cache, to look into.
    pub fn dedup_cache(&self) -> (c: &DedupCache)
        ensures
            *c == self.cache(),
    {
        &self.dedup
    }

    /// The store-and-forward store, to look into.
    pub fn saf_store(&self) -> (s: &SafStore)
        ensures
            *s == self.store(),
    {
        &self.saf
    }

    /// The table of discovery requests, to look into.
    pub fn discoveries(&self) -> (t: &DiscoveryTable)
        ensures
            *t == self.pending(),
    {
        &self.discoveries
    }

    /// Takes note of an event in the coordinator's life. An event that fits
    /// the state moves the coordinator to the next state; any other is turned
    /// down and changes nothing.
    pub fn handle_event(&mut self, event: LifecycleEvent) -> (result: Result<DhtState, DhtError>)
        ensures
            final(self).same_setup(old(self)),
            final(self).cache() == old(self).cache(),
            final(self).store() == old(self).store(),
            final(self).pending() == old(self).pending(),
            result == (match step(old(self).spec_state(), event) {
                Some(next) => Ok::<DhtState, DhtError>(next),
                None => Err::<DhtState, DhtError>(DhtError::InvalidTransition),
            }),
            result matches Ok(next) ==> final(self).spec_state() == next,
            result is Err ==> final(self).spec_state() == old(self).spec_state(),
    {
        let next = match (self.state, event) {
            (DhtState::Uninitialized, LifecycleEvent::Initialize) => DhtState::Initializing,
            (DhtState::Initializing, LifecycleEvent::TasksSpawned) => DhtState::Running,
            (DhtState::Running, LifecycleEvent::ShutdownSignal) => DhtState::ShuttingDown,
            (DhtState::ShuttingDown, LifecycleEvent::TasksExited) => DhtState::Stopped,
            _ => {
                return Err(DhtError::InvalidTransition);
            },
        };
        self.state = next;
        Ok(next)
    }
}

/// What the coordinator owes a message in the given mode: the relation
/// between the coordinator before (`pre`) and after (`post`) and the result.
///
/// Outside the running state the message is turned down and nothing
/// changes. Otherwise the message's fingerprint is observed at `now`. If it
/// has then been seen more often than allowed, the message is suppressed and
/// the store stays as it is. If not, the targets are those of the mode, every
/// unreachable one of them has the message stashed for it, and the report
/// names every target with what was done for it.
pub open spec fn relayed(
    pre: Dht,
    post: Dht,
    mode: PropagationMode,
    envelope: Seq<u8>,
    exclude: Seq<NodeId>,
    peers: Seq<Peer>,
    draws: Seq<u64>,
    now: u64,
    result: Result<Propagation, DhtError>,
) -> bool {
    let fingerprint = MessageFingerprint { digest: digest_of(envelope) };
    let targets = targets_for(
        mode,
        peers,
        pre.spec_node_id(),
        pre.spec_config(),
        exclude,
        draws,
    );
    let ttl = pre.spec_config().saf_config.msg_validity;
    &&& post.same_setup(&pre)
    &&& post.spec_state() == pre.spec_state()
    &&& post.pending() == pre.pending()
    &&& match refusal(pre.spec_state()) {
        Some(error) => {
            &&& result == Err::<Propagation, DhtError>(error)
            &&& post.cache() == pre.cache()
            &&& post.store() == pre.store()
        },
        None => {
            &&& post.cache()@ == observed(pre.cache()@, fingerprint, now)
            &&& if hits(post.cache()@, fingerprint)
                > pre.spec_config().dedup_allowed_message_occurrences {
                &&& result matches Ok(Propagation::Suppressed { hit_count })
                &&& hit_count == hits(post.cache()@, fingerprint)
                &&& post.store() == pre.store()
            } else {
                &&& result matches Ok(Propagation::Dispatched(report))
                &&& post.store()@ == stashed_all(
                    pre.store()@,
                    pre.store().spec_enabled(),
                    pre.store().spec_capacity(),
                    stash_run(targets, peers, envelope, ttl, now),
                )
                &&& report.outcomes@.len() == targets.len()
                &&& forall|i: int|
                    0 <= i < targets.len() ==> outcome_fits(
                        #[trigger] report.outcomes@[i],
                        i,
                        targets,
                        peers,
                        pre.store()@,
                        pre.store().spec_enabled(),
                        pre.store().spec_capacity(),
                        envelope,
                        ttl,
                        now,
                    )
            }
        },
    }
}

/// A flood is stopped after the allowed number of occurrences: a running
/// coordinator dispatches a message exactly while the message has been seen
/// fewer times than allowed before, and suppresses it from then on, leaving
/// the store alone. (A counter that has reached `usize::MAX` counts no
/// further, so the law speaks of counters below it.)
pub proof fn law_repeats_are_suppressed(
    pre: Dht,
    post: Dht,
    mode: PropagationMode,
    envelope: Seq<u8>,
    exclude: Seq<NodeId>,
    peers: Seq<Peer>,
    draws: Seq<u64>,
    now: u64,
    result: Result<Propagation, DhtError>,
)
    requires
        pre.wf(),
        pre.spec_state() == DhtState::Running,
        relayed(pre, post, mode, envelope, exclude, peers, draws, now, result),
        hits(pre.cache()@, MessageFingerprint { digest: digest_of(envelope) }) < usize::MAX,
    ensures
        result is Ok,
        (result->Ok_0 is Dispatched) <==> hits(
            pre.cache()@,
            MessageFingerprint { digest: digest_of(envelope) },
        ) < pre.spec_config().dedup_allowed_message_occurrences,
        (result->Ok_0 is Suppressed) <==> hits(
            pre.cache()@,
            MessageFingerprint { digest: digest_of(envelope) },
        ) >= pre.spec_config().dedup_allowed_message_occurrences,
        result->Ok_0 is Suppressed ==> post.store() == pre.store(),
        hits(post.cache()@, MessageFingerprint { digest: digest_of(envelope) }) == hits(
            pre.cache()@,
            MessageFingerprint { digest: digest_of(envelope) },
        ) + 1,
{
    lemma_observed(pre.cache()@, MessageFingerprint { digest: digest_of(envelope) }, now);
}

impl Dht {
    /// Why a call is turned down in the present state, if it is.
    fn check_running(&self) -> (verdict: Option<DhtError>)
        ensures
            verdict == refusal(self.spec_state()),
    {
        match self.state {
            DhtState::Uninitialized | DhtState::Initializing => Some(DhtError::NotInitialized),
            DhtState::Running => None,
            DhtState::ShuttingDown | DhtState::Stopped => Some(DhtError::ShuttingDown),
        }
    }

    /// Deals with one message in the given mode, at time `now`, with the
    /// peers as `directory` shows them. `draws` are the random numbers for
    /// the selection; only a propagation uses them.
    pub fn relay(
        &mut self,
        mode: PropagationMode,
        envelope: &Vec<u8>,
        exclude: &Vec<NodeId>,
        directory: &PeerDirectory,
        draws: &Vec<u64>,
        now: u64,
    ) -> (result: Result<Propagation, DhtError>)
        requires
            old(self).wf(),
            directory.wf(),
        ensures
            final(self).wf(),
            relayed(
                *old(self),
                *final(self),
                mode,
                envelope@,
                exclude@,
                directory@,
                draws@,
                now,
                result,
            ),
    {
        match self.check_running() {
            Some(error) => {
                return Err(error);
            },
            None => {},
        }
        let fingerprint = MessageFingerprint::of(envelope);
        let (_, hit_count) = self.dedup.observe(fingerprint, now);
        if !self.dedup.should_propagate(fingerprint) {
            return Ok(Propagation::Suppressed { hit_count });
        }
        let targets = resolve_targets(
            mode,
            directory,
            &self.node_id,
            &self.config,
            exclude,
            draws,
        );
        let report = dispatch(
            &targets,
            envelope,
            directory,
            &mut self.saf,
            &self.outbound_tx,
            self.config.saf_config.msg_validity,
            now,
        );
        Ok(Propagation::Dispatched(report))
    }

    /// Sends a message to one peer.
    pub fn send(
        &mut self,
        destination: NodeId,
        envelope: &Vec<u8>,
        directory: &PeerDirectory,
        now: u64,
    ) -> (result: Result<Propagation, DhtError>)
        requires
            old(self).wf(),
            directory.wf(),
        ensures
            final(self).wf(),
            relayed(
                *old(self),
                *final(self),
                PropagationMode::Direct(destination),
                envelope@,
                Seq::<NodeId>::empty(),
                directory@,
                Seq::<u64>::empty(),
                now,
                result,
            ),
    {
        let nobody: Vec<NodeId> = Vec::new();
        let no_draws: Vec<u64> = Vec::new();
        self.relay(PropagationMode::Direct(destination), envelope, &nobody, directory, &no_draws, now)
    }

    /// Relays a message to a selection of peers that are expected to relay
    /// it further, leaving out the peers in `exclude`.
    pub fn propagate(
        &mut self,
        envelope: &Vec<u8>,
        exclude: &Vec<NodeId>,
        directory: &PeerDirectory,
        draws: &Vec<u64>,
        now: u64,
    ) -> (result: Result<Propagation, DhtError>)
        requires
            old(self).wf(),
            directory.wf(),
        ensures
            final(self).wf(),
            relayed(
                *old(self),
                *final(self),
                PropagationMode::Propagate,
                envelope@,
                exclude@,
                directory@,
                draws@,
                now,
                result,
            ),
    {
        self.relay(PropagationMode::Propagate, envelope, exclude, directory, draws, now)
    }

    /// Sends a message to the nearest neighbours, leaving out the peers in
    /// `exclude`.
    pub fn broadcast(
        &mut self,
        envelope: &Vec<u8>,
        exclude: &Vec<NodeId>,
        directory: &PeerDirectory,
        now: u64,
    ) -> (result: Result<Propagation, DhtError>)
        requires
            old(self).wf(),
            directory.wf(),
        ensures
            final(self).wf(),
            relayed(
                *old(self),
                *final(self),
                PropagationMode::Broadcast,
                envelope@,
                exclude@,
                directory@,
                Seq::<u64>::empty(),
                now,
                result,
            ),
    {
        let no_draws: Vec<u64> = Vec::new();
        self.relay(PropagationMode::Broadcast, envelope, exclude, directory, &no_draws, now)
    }

    /// Announces this node to the network: the announcement goes to the
    /// nearest neighbours, as a broadcast does.
    pub fn join(&mut self, announcement: &Vec<u8>, directory: &PeerDirectory, now: u64) -> (result:
        Result<Propagation, DhtError>)
        requires
            old(self).wf(),
            directory.wf(),
        ensures
            final(self).wf(),
            relayed(
                *old(self),
                *final(self),
                PropagationMode::Broadcast,
                announcement@,
                Seq::<NodeId>::empty(),
                directory@,
                Seq::<u64>::empty(),
                now,
                result,
            ),
    {
        let nobody: Vec<NodeId> = Vec::new();
        let no_draws: Vec<u64> = Vec::new();
        self.relay(PropagationMode::Broadcast, announcement, &nobody, directory, &no_draws, now)
    }

    /// Starts a discovery of `peer`. The request waits for its answer up to
    /// `timeout` seconds from `now`, or as long as the configuration says
    /// when no timeout is given.
    pub fn discover(&mut self, peer: NodeId, timeout: Option<u64>, now: u64) -> (result: Result<
        DiscoveryRequest,
        DhtError,
    >)
        requires
            old(self).wf(),
        ensures
            final(self).wf(),
            final(self).same_setup(old(self)),
            final(self).spec_state() == old(self).spec_state(),
            final(self).cache() == old(self).cache(),
            final(self).store() == old(self).store(),
            match refusal(old(self).spec_state()) {
                Some(error) => result == Err::<DiscoveryRequest, DhtError>(error) && final(self).pending() == old(self).pending(),
                None => {
                    let wait = match timeout {
                        Some(t) => t,
                        None => old(self).spec_config().discovery_request_timeout,
                    };
                    let id = old(self).pending().spec_next_id();
                    &&& final(self).pending()@ == begun(old(self).pending()@, id, peer, wait, now)
                    &&& result == (if id == u64::MAX {
                        Err::<DiscoveryRequest, DhtError>(
                            DhtError::Discovery(DiscoveryError::IdsExhausted),
                        )
                    } else {
                        Ok::<DiscoveryRequest, DhtError>(
                            DiscoveryRequest {
                                correlation_id: id,
                                peer,
                                deadline: crate::saf::deadline(now, wait),
                            },
                        )
                    })
                },
            },
    {
        match self.check_running() {
            Some(error) => {
                return Err(error);
            },
            None => {},
        }
        let wait = match timeout {
            Some(t) => t,
            None => self.config.discovery_request_timeout,
        };
        match self.discoveries.begin(peer, wait, now) {
            Ok(request) => Ok(request),
            Err(error) => Err(DhtError::Discovery(error)),
        }
    }

    /// Takes the answer to the discovery request `correlation_id` that
    /// arrived at `now`, and gives the peer that was found. The request is
    /// no longer in flight afterwards, whatever the result.
    pub fn discovery_response(&mut self, correlation_id: u64, now: u64) -> (result: Result<
        NodeId,
        DiscoveryError,
    >)
        requires
            old(self).wf(),
        ensures
            final(self).wf(),
            final(self).same_setup(old(self)),
            final(self).spec_state() == old(self).spec_state(),
            final(self).cache() == old(self).cache(),
            final(self).store() == old(self).store(),
            final(self).pending().spec_next_id() == old(self).pending().spec_next_id(),
            !in_flight(final(self).pending()@, correlation_id),
            !in_flight(old(self).pending()@, correlation_id) ==> result == Err::<
                NodeId,
                DiscoveryError,
            >(DiscoveryError::UnknownRequest) && final(self).pending()@ == old(self).pending()@,
            in_flight(old(self).pending()@, correlation_id) ==> final(self).pending()@ == old(self).pending()@.remove(position_of(old(self).pending()@, correlation_id)) && result == (
            if lapsed(
                old(self).pending()@[position_of(old(self).pending()@, correlation_id)],
                now,
            ) {
                Err::<NodeId, DiscoveryError>(DiscoveryError::DiscoveryTimeout)
            } else {
                Ok::<NodeId, DiscoveryError>(
                    old(self).pending()@[position_of(old(self).pending()@, correlation_id)].peer,
                )
            }),
    {
        self.discoveries.complete(correlation_id, now)
    }

    /// Gives up the discovery requests whose deadline has passed at `now`
    /// and returns them: each has timed out.
    pub fn discovery_timeouts(&mut self, now: u64) -> (timed_out: Vec<DiscoveryRequest>)
        requires
            old(self).wf(),
        ensures
            final(self).wf(),
            final(self).same_setup(old(self)),
            final(self).spec_state() == old(self).spec_state(),
            final(self).cache() == old(self).cache(),
            final(self).store() == old(self).store(),
            final(self).pending().spec_next_id() == old(self).pending().spec_next_id(),
            timed_out@ == overdue(old(self).pending()@, now),
            final(self).pending()@ == awaited(old(self).pending()@, now),
    {
        self.discoveries.sweep(now)
    }

    /// Hands out what is kept for `peer` and still alive at `now`, oldest
    /// first, and forgets everything kept for that peer. Outside the running
    /// state nothing is handed out and nothing is forgotten.
    pub fn retrieve_stored(&mut self, peer: NodeId, now: u64) -> (result: Result<
        Vec<Vec<u8>>,
        DhtError,
    >)
        requires
            old(self).wf(),
        ensures
            final(self).wf(),
            final(self).same_setup(old(self)),
            final(self).spec_state() == old(self).spec_state(),
            final(self).cache() == old(self).cache(),
            final(self).pending() == old(self).pending(),
            match refusal(old(self).spec_state()) {
                Some(error) => result == Err::<Vec<Vec<u8>>, DhtError>(error) && final(self).store() == old(self).store(),
                None => {
                    &&& result matches Ok(out)
                    &&& contents(out@) == delivery(old(self).store()@, peer, now)
                    &&& final(self).store()@ == others(old(self).store()@, peer)
                },
            },
    {
        match self.check_running() {
            Some(error) => {
                return Err(error);
            },
            None => {},
        }
        Ok(self.saf.retrieve(peer, now))
    }

    /// Trims the fingerprint cache at `now`: afterwards it holds no more
    /// entries than its capacity, and none older than the age ceiling.
    /// Returns the number of entries removed.
    pub fn trim_dedup_cache(&mut self, now: u64) -> (evicted: usize)
        requires
            old(self).wf(),
        ensures
            final(self).wf(),
            final(self).same_setup(old(self)),
            final(self).spec_state() == old(self).spec_state(),
            final(self).store() == old(self).store(),
            final(self).pending() == old(self).pending(),
            final(self).cache()@ == trimmed(
                old(self).cache()@,
                old(self).spec_config().dedup_cache_capacity,
                old(self).spec_config().dedup_cache_max_age,
                now,
            ),
            final(self).cache()@.len() <= old(self).spec_config().dedup_cache_capacity,
            final(self).cache()@.len() + evicted == old(self).cache()@.len(),
    {
        self.dedup.trim(now)
    }

    /// Forgets the stored messages whose deadline has passed at `now`.
    /// Returns the number of messages forgotten.
    pub fn expire_stored(&mut self, now: u64) -> (dropped: usize)
        requires
            old(self).wf(),
        ensures
            final(self).wf(),
            final(self).same_setup(old(self)),
            final(self).spec_state() == old(self).spec_state(),
            final(self).cache() == old(self).cache(),
            final(self).pending() == old(self).pending(),
            final(self).store()@ == live(old(self).store()@, now),
            dropped + final(self).store()@.len() == old(self).store()@.len(),
    {
        self.saf.expire(now)
    }
}

} // verus!
