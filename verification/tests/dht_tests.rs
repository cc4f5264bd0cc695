use comms_dht::builder::{DhtBuilder, DhtInitializationError};
use comms_dht::config::{ConfigurationError, DbConnectionUrl, DhtConfig, DhtProtocolVersion};
use comms_dht::dht::{Dht, DhtError, DhtState, LifecycleEvent, Propagation};
use comms_dht::discovery::{DiscoveryError, DiscoveryRequest, DiscoveryTable};
use comms_dht::dispatcher::{
    dispatch, resolve_targets, Disposition, PropagationMode, TargetOutcome,
};
use comms_dht::outbound::{copy_of, DhtOutboundRequest, SendStatus};
use comms_dht::peer::{NodeId, PeerDirectory};
use comms_dht::saf::{SafStore, StashOutcome};
use tokio::sync::mpsc::error::TryRecvError;
use tokio::sync::mpsc::{channel, Receiver};

fn id(value: u128) -> NodeId {
    NodeId::new(value)
}

fn running(config: DhtConfig, buffer: usize) -> (Dht, Receiver<DhtOutboundRequest>) {
    let (tx, rx) = channel(buffer);
    let mut builder = DhtBuilder::new();
    builder.with_config(config).with_outbound_sender(tx);
    let mut dht = builder.build(id(0)).unwrap();
    assert_eq!(dht.state(), DhtState::Initializing);
    assert_eq!(dht.handle_event(LifecycleEvent::TasksSpawned), Ok(DhtState::Running));
    (dht, rx)
}

fn outcomes_of(result: Result<Propagation, DhtError>) -> Vec<TargetOutcome> {
    match result {
        Ok(Propagation::Dispatched(report)) => report.outcomes,
        other => panic!("not dispatched: {:?}", other),
    }
}

fn received(rx: &mut Receiver<DhtOutboundRequest>) -> Vec<(NodeId, Vec<u8>)> {
    let mut all = Vec::new();
    while let Ok(request) = rx.try_recv() {
        all.push((request.destination, request.envelope));
    }
    all
}

#[test]
fn build_without_outbound_sender_fails() {
    let mut builder = DhtBuilder::new();
    assert!(!builder.has_outbound_sender());
    match builder.build(id(1)) {
        Err(error) => assert_eq!(
            error,
            DhtInitializationError::Configuration(ConfigurationError::MissingOutboundSender)
        ),
        Ok(_) => panic!("built without a sender"),
    }
}

#[test]
fn build_with_outbound_sender_gives_a_handle_that_can_run() {
    let (tx, _rx) = channel::<DhtOutboundRequest>(4);
    let mut builder = DhtBuilder::new();
    builder.with_outbound_sender(tx);
    assert!(builder.has_outbound_sender());
    let mut dht = builder.build(id(1)).unwrap();
    assert_eq!(dht.state(), DhtState::Initializing);
    assert_eq!(dht.node_id(), id(1));
    assert!(!dht.is_running());
    assert_eq!(dht.handle_event(LifecycleEvent::TasksSpawned), Ok(DhtState::Running));
    assert!(dht.is_running());
    assert!(dht.dedup_cache().is_empty());
    assert!(dht.saf_store().is_empty());
    assert_eq!(dht.discoveries().len(), 0);
    // the sender has moved into the coordinator
    assert!(!builder.has_outbound_sender());
    assert!(builder.build(id(1)).is_err());
}

#[test]
fn build_turns_down_tunables_that_are_not_usable() {
    let (tx, _rx) = channel::<DhtOutboundRequest>(4);
    let mut builder = DhtBuilder::new();
    builder.with_dedup_cache_capacity(0).with_dedup_discard_hit_count(0);
    // the missing sender is named first
    assert_eq!(
        builder.build(id(1)).err(),
        Some(DhtInitializationError::Configuration(ConfigurationError::MissingOutboundSender))
    );
    builder.with_outbound_sender(tx);
    assert_eq!(
        builder.build(id(1)).err(),
        Some(DhtInitializationError::Configuration(ConfigurationError::ZeroDedupCacheCapacity))
    );
    builder.with_dedup_cache_capacity(1);
    assert_eq!(
        builder.build(id(1)).err(),
        Some(DhtInitializationError::Configuration(ConfigurationError::ZeroAllowedOccurrences))
    );
    // the builder has kept the sender through the failures
    assert!(builder.has_outbound_sender());
    builder.with_dedup_discard_hit_count(1);
    assert!(builder.build(id(1)).is_ok());
    assert!(!builder.has_outbound_sender());

    let mut config = DhtConfig::default();
    assert_eq!(config.validate(), Ok(()));
    config.dedup_allowed_message_occurrences = 0;
    assert_eq!(config.validate(), Err(ConfigurationError::ZeroAllowedOccurrences));
    let (tx, _rx) = channel::<DhtOutboundRequest>(4);
    assert_eq!(Dht::new(config, id(1), tx).err(), Some(ConfigurationError::ZeroAllowedOccurrences));
}

#[test]
fn builder_setters_override_single_tunables() {
    let mut builder = DhtBuilder::new();
    builder
        .mainnet()
        .with_protocol_version(DhtProtocolVersion::v1())
        .set_auto_store_and_forward_requests(false)
        .with_database_url(DbConnectionUrl::File("dht.db".to_string()))
        .with_dedup_cache_trim_interval(7)
        .with_dedup_cache_capacity(11)
        .with_dedup_discard_hit_count(13)
        .with_num_random_nodes(17)
        .with_num_neighbouring_nodes(19)
        .with_propagation_factor(23)
        .with_broadcast_factor(29)
        .with_discovery_timeout(31)
        .enable_auto_join();
    let config = builder.config();
    assert_eq!(config.protocol_version, DhtProtocolVersion { major: 1 });
    assert!(!config.saf_config.auto_request);
    assert!(matches!(&config.database_url, DbConnectionUrl::File(path) if path == "dht.db"));
    assert_eq!(config.dedup_cache_trim_interval, 7);
    assert_eq!(config.dedup_cache_capacity, 11);
    assert_eq!(config.dedup_allowed_message_occurrences, 13);
    assert_eq!(config.num_random_nodes, 17);
    assert_eq!(config.num_neighbouring_nodes, 19);
    assert_eq!(config.saf_config.num_neighbouring_nodes, 19);
    assert_eq!(config.propagation_factor, 23);
    assert_eq!(config.broadcast_factor, 29);
    assert_eq!(config.discovery_request_timeout, 31);
    assert!(config.auto_join);
    // what was not overridden is the profile's
    assert_eq!(config.saf_config.msg_storage_capacity, 100);
    assert_eq!(config.dedup_cache_max_age, 86400);

    builder.local_test();
    assert_eq!(builder.config().propagation_factor, 2);
    assert!(!builder.config().auto_join);
    builder.testnet();
    assert_eq!(builder.config().propagation_factor, 4);
    let fresh = DhtBuilder::default();
    assert_eq!(fresh.config().propagation_factor, 4);
    assert!(!fresh.has_outbound_sender());
}

#[test]
fn profiles_fix_distinct_baselines() {
    let t = DhtConfig::default_testnet();
    assert_eq!(
        (t.propagation_factor, t.broadcast_factor, t.num_random_nodes, t.num_neighbouring_nodes),
        (4, 8, 4, 8)
    );
    assert_eq!(
        (
            t.dedup_cache_capacity,
            t.dedup_cache_trim_interval,
            t.dedup_allowed_message_occurrences,
            t.discovery_request_timeout
        ),
        (2500, 300, 1, 120)
    );
    assert!(t.saf_config.auto_request);
    assert_eq!((t.saf_config.msg_storage_capacity, t.saf_config.msg_validity), (50, 10800));
    let m = DhtConfig::default_mainnet();
    assert_eq!(
        (m.propagation_factor, m.broadcast_factor, m.num_random_nodes, m.num_neighbouring_nodes),
        (6, 12, 6, 12)
    );
    assert_eq!(
        (
            m.dedup_cache_capacity,
            m.dedup_cache_trim_interval,
            m.dedup_allowed_message_occurrences,
            m.discovery_request_timeout
        ),
        (10000, 600, 3, 180)
    );
    let l = DhtConfig::default_local_test();
    assert_eq!(
        (l.propagation_factor, l.broadcast_factor, l.num_random_nodes, l.num_neighbouring_nodes),
        (2, 4, 2, 4)
    );
    assert_eq!(
        (
            l.dedup_cache_capacity,
            l.dedup_cache_trim_interval,
            l.dedup_allowed_message_occurrences,
            l.discovery_request_timeout
        ),
        (100, 30, 1, 15)
    );
    assert!(!l.saf_config.auto_request);
    assert!(t.is_valid() && m.is_valid() && l.is_valid());
    assert_eq!(DhtConfig::default().propagation_factor, 4);
    assert_eq!(DhtProtocolVersion::latest(), DhtProtocolVersion::v2());
    let copy = m.clone();
    assert_eq!(copy.dedup_cache_capacity, 10000);
    assert_eq!(m.mix().num_random_nodes, 6);
    let mut invalid = DhtConfig::default();
    invalid.dedup_cache_capacity = 0;
    assert!(!invalid.is_valid());
    invalid.dedup_cache_capacity = 1;
    invalid.dedup_allowed_message_occurrences = 0;
    assert!(!invalid.is_valid());
}

#[test]
fn propagate_sends_once_to_each_peer_and_suppresses_the_repeat() {
    // allowed occurrences 1, propagation factor 2
    let (mut dht, mut rx) = running(DhtConfig::default_local_test(), 8);
    let (a, b) = (id(0x10), id(0x20));
    let mut dir = PeerDirectory::new();
    dir.record(a, true);
    dir.record(b, true);
    let m = b"message m".to_vec();

    let outcomes = outcomes_of(dht.propagate(&m, &vec![], &dir, &vec![], 100));
    assert_eq!(
        outcomes,
        vec![
            TargetOutcome { peer: a, disposition: Disposition::Transport(SendStatus::Accepted) },
            TargetOutcome { peer: b, disposition: Disposition::Transport(SendStatus::Accepted) },
        ]
    );
    assert_eq!(received(&mut rx), vec![(a, m.clone()), (b, m.clone())]);
    assert_eq!(dht.dedup_cache().len(), 1);

    match dht.propagate(&m, &vec![], &dir, &vec![], 101) {
        Ok(Propagation::Suppressed { hit_count }) => assert_eq!(hit_count, 2),
        other => panic!("not suppressed: {:?}", other),
    }
    assert_eq!(rx.try_recv().err(), Some(TryRecvError::Empty));
}

#[test]
fn without_store_and_forward_an_unreachable_peer_gets_nothing() {
    let (mut dht, mut rx) = running(DhtConfig::default_local_test(), 8);
    let c = id(0x30);
    let mut dir = PeerDirectory::new();
    dir.record(c, false);
    let outcomes = outcomes_of(dht.propagate(&b"m".to_vec(), &vec![], &dir, &vec![], 5));
    assert_eq!(outcomes, vec![TargetOutcome { peer: c, disposition: Disposition::Dropped }]);
    assert!(dht.saf_store().is_empty());
    assert!(received(&mut rx).is_empty());
}

#[test]
fn with_store_and_forward_an_unreachable_peer_has_the_message_kept() {
    let mut config = DhtConfig::default_local_test();
    config.saf_config.auto_request = true;
    config.saf_config.msg_validity = 10;
    let (mut dht, mut rx) = running(config, 8);
    let (a, c) = (id(0x10), id(0x30));
    let mut dir = PeerDirectory::new();
    dir.record(c, false);
    dir.record(a, true);
    let m = b"m".to_vec();
    let outcomes = outcomes_of(dht.propagate(&m, &vec![], &dir, &vec![], 5));
    assert_eq!(
        outcomes,
        vec![
            TargetOutcome { peer: a, disposition: Disposition::Transport(SendStatus::Accepted) },
            TargetOutcome { peer: c, disposition: Disposition::Stored(StashOutcome::Stored) },
        ]
    );
    assert_eq!(received(&mut rx), vec![(a, m.clone())]);
    assert_eq!(dht.saf_store().pending_for(c), 1);
    assert_eq!(dht.expire_stored(15), 0);
    assert_eq!(dht.retrieve_stored(c, 15), Ok(vec![m.clone()]));
    assert_eq!(dht.retrieve_stored(c, 15), Ok(vec![]));

    // a direct send to a peer the directory does not know is kept as well
    let unknown = id(0x99);
    let outcomes = outcomes_of(dht.send(unknown, &b"direct".to_vec(), &dir, 20));
    assert_eq!(
        outcomes,
        vec![TargetOutcome { peer: unknown, disposition: Disposition::Stored(StashOutcome::Stored) }]
    );
    assert_eq!(dht.expire_stored(31), 1);
    assert_eq!(dht.retrieve_stored(unknown, 31), Ok(vec![]));
}

#[test]
fn a_failed_send_does_not_keep_the_message_from_the_other_targets() {
    let mut config = DhtConfig::default_local_test();
    config.broadcast_factor = 3;
    let (mut dht, mut rx) = running(config, 1);
    let mut dir = PeerDirectory::new();
    dir.record(id(1), true);
    dir.record(id(2), true);
    dir.record(id(3), true);
    let outcomes = outcomes_of(dht.broadcast(&b"m".to_vec(), &vec![], &dir, 1));
    assert_eq!(
        outcomes,
        vec![
            TargetOutcome { peer: id(1), disposition: Disposition::Transport(SendStatus::Accepted) },
            TargetOutcome { peer: id(2), disposition: Disposition::Transport(SendStatus::Full) },
            TargetOutcome { peer: id(3), disposition: Disposition::Transport(SendStatus::Full) },
        ]
    );
    assert_eq!(received(&mut rx).len(), 1);
    drop(rx);
    let outcomes = outcomes_of(dht.broadcast(&b"n".to_vec(), &vec![id(2)], &dir, 2));
    assert_eq!(
        outcomes,
        vec![
            TargetOutcome { peer: id(1), disposition: Disposition::Transport(SendStatus::Closed) },
            TargetOutcome { peer: id(3), disposition: Disposition::Transport(SendStatus::Closed) },
        ]
    );
}

#[test]
fn broadcast_and_join_go_to_the_nearest_neighbours() {
    let mut config = DhtConfig::default_local_test();
    config.broadcast_factor = 2;
    let (mut dht, mut rx) = running(config, 8);
    let mut dir = PeerDirectory::new();
    for v in [8u128, 1, 4, 2] {
        dir.record(id(v), true);
    }
    outcomes_of(dht.broadcast(&b"b".to_vec(), &vec![], &dir, 1));
    assert_eq!(received(&mut rx), vec![(id(1), b"b".to_vec()), (id(2), b"b".to_vec())]);
    outcomes_of(dht.join(&b"hello".to_vec(), &dir, 1));
    assert_eq!(received(&mut rx), vec![(id(1), b"hello".to_vec()), (id(2), b"hello".to_vec())]);
    // an empty directory is nothing to do, not a fault
    let empty = PeerDirectory::new();
    assert!(outcomes_of(dht.broadcast(&b"c".to_vec(), &vec![], &empty, 1)).is_empty());
}

#[test]
fn operations_outside_the_running_state_are_turned_down() {
    let (tx, mut rx) = channel::<DhtOutboundRequest>(4);
    let mut dht = Dht::new(DhtConfig::default_local_test(), id(0), tx).unwrap();
    let mut dir = PeerDirectory::new();
    dir.record(id(1), true);
    let m = b"m".to_vec();
    assert_eq!(dht.state(), DhtState::Uninitialized);
    assert!(matches!(dht.propagate(&m, &vec![], &dir, &vec![], 1), Err(DhtError::NotInitialized)));
    assert_eq!(dht.handle_event(LifecycleEvent::Initialize), Ok(DhtState::Initializing));
    assert!(matches!(dht.send(id(1), &m, &dir, 1), Err(DhtError::NotInitialized)));
    assert!(matches!(dht.broadcast(&m, &vec![], &dir, 1), Err(DhtError::NotInitialized)));
    assert!(matches!(dht.join(&m, &dir, 1), Err(DhtError::NotInitialized)));
    assert_eq!(dht.discover(id(1), None, 1), Err(DhtError::NotInitialized));
    assert_eq!(dht.retrieve_stored(id(1), 1), Err(DhtError::NotInitialized));
    assert!(dht.dedup_cache().is_empty());
    assert_eq!(dht.handle_event(LifecycleEvent::TasksSpawned), Ok(DhtState::Running));
    assert!(dht.propagate(&m, &vec![], &dir, &vec![], 1).is_ok());
    assert_eq!(dht.handle_event(LifecycleEvent::ShutdownSignal), Ok(DhtState::ShuttingDown));
    assert!(matches!(
        dht.propagate(&b"n".to_vec(), &vec![], &dir, &vec![], 2),
        Err(DhtError::ShuttingDown)
    ));
    assert_eq!(dht.discover(id(1), None, 1), Err(DhtError::ShuttingDown));
    assert_eq!(dht.handle_event(LifecycleEvent::TasksExited), Ok(DhtState::Stopped));
    assert!(matches!(dht.send(id(1), &m, &dir, 3), Err(DhtError::ShuttingDown)));
    assert_eq!(received(&mut rx).len(), 1);
}

#[test]
fn no_transition_skips_a_state() {
    let events = [
        LifecycleEvent::Initialize,
        LifecycleEvent::TasksSpawned,
        LifecycleEvent::ShutdownSignal,
        LifecycleEvent::TasksExited,
    ];
    let states = [
        DhtState::Uninitialized,
        DhtState::Initializing,
        DhtState::Running,
        DhtState::ShuttingDown,
        DhtState::Stopped,
    ];
    for reached in 0..states.len() {
        for (e, event) in events.iter().enumerate() {
            let (tx, _rx) = channel::<DhtOutboundRequest>(1);
            let mut dht = Dht::new(DhtConfig::default(), id(0), tx).unwrap();
            for step in 0..reached {
                assert_eq!(dht.handle_event(events[step]), Ok(states[step + 1]));
            }
            assert_eq!(dht.state(), states[reached]);
            let result = dht.handle_event(*event);
            if e == reached {
                assert_eq!(result, Ok(states[reached + 1]));
                assert_eq!(dht.state(), states[reached + 1]);
            } else {
                assert_eq!(result, Err(DhtError::InvalidTransition));
                assert_eq!(dht.state(), states[reached]);
            }
        }
    }
}

#[test]
fn maintenance_trims_the_cache_to_its_capacity() {
    let mut config = DhtConfig::default_local_test();
    config.dedup_cache_capacity = 2;
    config.dedup_allowed_message_occurrences = 1;
    let (mut dht, _rx) = running(config, 8);
    let dir = PeerDirectory::new();
    for i in 0..5u8 {
        assert!(dht.propagate(&vec![i], &vec![], &dir, &vec![], i as u64).is_ok());
    }
    assert_eq!(dht.dedup_cache().len(), 5);
    assert_eq!(dht.trim_dedup_cache(5), 3);
    assert_eq!(dht.dedup_cache().len(), 2);
    assert!(dht.dedup_cache().len() <= dht.config().dedup_cache_capacity);
}

#[test]
fn discovery_requests_end_with_an_answer_or_a_timeout() {
    let (mut dht, _rx) = running(DhtConfig::default_local_test(), 8);
    let first = dht.discover(id(7), Some(10), 100).unwrap();
    assert_eq!(first, DiscoveryRequest { correlation_id: 0, peer: id(7), deadline: 110 });
    // without a timeout the configured one applies (15 s in this profile)
    let second = dht.discover(id(8), None, 100).unwrap();
    assert_eq!(second, DiscoveryRequest { correlation_id: 1, peer: id(8), deadline: 115 });
    let third = dht.discover(id(9), Some(1), 100).unwrap();
    assert_eq!(dht.discoveries().len(), 3);
    assert!(dht.discoveries().is_in_flight(1));
    assert_eq!(dht.discoveries().request_at(2), third);

    assert_eq!(dht.discovery_response(0, 110), Ok(id(7)));
    assert_eq!(dht.discovery_response(0, 110), Err(DiscoveryError::UnknownRequest));
    assert_eq!(dht.discovery_response(99, 110), Err(DiscoveryError::UnknownRequest));
    // an answer after the deadline counts as none
    assert_eq!(dht.discovery_response(2, 102), Err(DiscoveryError::DiscoveryTimeout));
    assert!(dht.discovery_timeouts(115).is_empty());
    assert_eq!(dht.discovery_timeouts(116), vec![second]);
    assert_eq!(dht.discoveries().len(), 0);
    // never retried from here
    assert!(dht.discovery_timeouts(1000).is_empty());
}

#[test]
fn discovery_fails_when_no_correlation_id_is_left() {
    let mut table = DiscoveryTable::with_first_id(u64::MAX - 1);
    assert_eq!(table.next_id(), u64::MAX - 1);
    let last = table.begin(id(1), 10, 0).unwrap();
    assert_eq!(last.correlation_id, u64::MAX - 1);
    assert_eq!(table.begin(id(2), 10, 0), Err(DiscoveryError::IdsExhausted));
    assert_eq!(table.len(), 1);
    assert_eq!(table.next_id(), u64::MAX);
    assert_eq!(table.complete(last.correlation_id, 5), Ok(id(1)));
}

#[test]
fn discovery_table_stands_alone() {
    let mut table = DiscoveryTable::new();
    let r = table.begin(id(1), u64::MAX, 5).unwrap();
    assert_eq!(r.deadline, u64::MAX);
    assert!(table.sweep(u64::MAX).is_empty());
    assert_eq!(table.complete(r.correlation_id, u64::MAX), Ok(id(1)));
    assert_eq!(table.len(), 0);
}

#[test]
fn dispatch_reports_every_target_in_order() {
    let (tx, mut rx) = channel::<DhtOutboundRequest>(8);
    let mut saf = SafStore::new(true, 1);
    let mut dir = PeerDirectory::new();
    dir.record(id(1), true);
    dir.record(id(2), false);
    let targets = vec![id(2), id(1), id(2), id(3)];
    let envelope = b"e".to_vec();
    let report = dispatch(&targets, &envelope, &dir, &mut saf, &tx, 10, 0);
    assert_eq!(
        report.outcomes,
        vec![
            TargetOutcome { peer: id(2), disposition: Disposition::Stored(StashOutcome::Stored) },
            TargetOutcome { peer: id(1), disposition: Disposition::Transport(SendStatus::Accepted) },
            TargetOutcome {
                peer: id(2),
                disposition: Disposition::Stored(StashOutcome::StoredAfterEviction)
            },
            TargetOutcome { peer: id(3), disposition: Disposition::Stored(StashOutcome::Stored) },
        ]
    );
    assert_eq!(received(&mut rx), vec![(id(1), envelope.clone())]);
    assert_eq!(saf.len(), 2);
    assert_eq!(copy_of(&envelope), envelope);

    let config = DhtConfig::default_local_test();
    assert_eq!(
        resolve_targets(PropagationMode::Direct(id(9)), &dir, &id(0), &config, &vec![], &vec![]),
        vec![id(9)]
    );
    assert_eq!(
        resolve_targets(PropagationMode::Broadcast, &dir, &id(0), &config, &vec![id(1)], &vec![]),
        vec![id(2)]
    );
}
