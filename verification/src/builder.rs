//! Step-by-step construction of the coordinator.
//!
//! A builder starts from a profile, takes overrides for single tunables, and
//! needs one thing that has no default: the channel on which requests go to
//! the transport. Nothing is checked before `build`.

use crate::config::{
    fault_of, local_test_values, mainnet_values, testnet_values, ConfigurationError,
    DbConnectionUrl, DhtConfig, DhtProtocolVersion, SafConfig,
};
use crate::dedup::DedupEntry;
use crate::dht::{Dht, DhtState, LifecycleEvent};
use crate::discovery::DiscoveryRequest;
use crate::outbound::DhtOutboundRequest;
use crate::peer::NodeId;
use crate::saf::StoredMessageView;
use tokio::sync::mpsc::Sender;
use vstd::prelude::*;

verus! {

/// Why the coordinator could not be initialized.
#[derive(Clone, Copy, Debug, PartialEq, Eq, Structural)]
pub enum DhtInitializationError {
    Configuration(ConfigurationError),
}

/// Collects the configuration and the channel to the transport, and builds
/// the coordinator from them.
#[derive(Debug, Clone)]
pub struct DhtBuilder {
    config: DhtConfig,
    outbound_tx: Option<Sender<DhtOutboundRequest>>,
}

/// What `build` owes: without a channel to the transport it fails, and so
/// it does with tunables that are not usable; otherwise it gives a
/// coordinator that is initializing, set up as `config` says, with nothing in
/// its cache, its store or its discovery table.
pub open spec fn built(
    config: DhtConfig,
    outbound_tx: Option<Sender<DhtOutboundRequest>>,
    node_id: NodeId,
    result: Result<Dht, DhtInitializationError>,
) -> bool {
    match outbound_tx {
        None => result == Err::<Dht, DhtInitializationError>(
            DhtInitializationError::Configuration(ConfigurationError::MissingOutboundSender),
        ),
        Some(tx) => match fault_of(config) {
            Some(fault) => result == Err::<Dht, DhtInitializationError>(
                DhtInitializationError::Configuration(fault),
            ),
            None => {
                &&& result matches Ok(dht)
                &&& dht.wf()
                &&& dht.spec_state() == DhtState::Initializing
                &&& dht.spec_config() == config
                &&& dht.spec_node_id() == node_id
                &&& dht.spec_outbound_tx() == tx
                &&& dht.cache()@ == Seq::<DedupEntry>::empty()
                &&& dht.store()@ == Seq::<StoredMessageView>::empty()
                &&& dht.pending()@ == Seq::<DiscoveryRequest>::empty()
                &&& dht.pending().spec_next_id() == 0
            },
        },
    }
}

impl DhtBuilder {
    /// The configuration collected so far.
    pub closed spec fn spec_config(&self) -> DhtConfig {
        self.config
    }

    /// The channel to the transport, once it has been supplied.
    pub closed spec fn spec_outbound_tx(&self) -> Option<Sender<DhtOutboundRequest>> {
        self.outbound_tx
    }

    /// A builder with the test network's baseline and no channel to the
    /// transport.
    pub fn new() -> (builder: DhtBuilder)
        ensures
            builder.spec_config() == testnet_values(),
            builder.spec_outbound_tx() is None,
    {
        DhtBuilder { config: DhtConfig::default_testnet(), outbound_tx: None }
    }

    /// The configuration collected so far.
    pub fn config(&self) -> (c: &DhtConfig)
        ensures
            *c == self.spec_config(),
    {
        &self.config
    }

    /// Whether the channel to the transport has been supplied.
    pub fn has_outbound_sender(&self) -> (b: bool)
        ensures
            b == (self.spec_outbound_tx() is Some),
    {
        self.outbound_tx.is_some()
    }

    /// Replaces the whole configuration.
    pub fn with_config(&mut self, config: DhtConfig) -> (builder: &mut Self)
        ensures
            builder.spec_config() == config,
            builder.spec_outbound_tx() == old(self).spec_outbound_tx(),
            *final(self) == *final(builder),
    {
        self.config = config;
        self
    }

    /// Goes back to the baseline for tests on one machine.
    pub fn local_test(&mut self) -> (builder: &mut Self)
        ensures
            builder.spec_config() == local_test_values(),
            builder.spec_outbound_tx() == old(self).spec_outbound_tx(),
            *final(self) == *final(builder),
    {
        self.config = DhtConfig::default_local_test();
        self
    }

    /// Goes back to the test network's baseline.
    pub fn testnet(&mut self) -> (builder: &mut Self)
        ensures
            builder.spec_config() == testnet_values(),
            builder.spec_outbound_tx() == old(self).spec_outbound_tx(),
            *final(self) == *final(builder),
    {
        self.config = DhtConfig::default_testnet();
        self
    }

    /// Goes back to the main network's baseline.
    pub fn mainnet(&mut self) -> (builder: &mut Self)
        ensures
            builder.spec_config() == mainnet_values(),
            builder.spec_outbound_tx() == old(self).spec_outbound_tx(),
            *final(self) == *final(builder),
    {
        self.config = DhtConfig::default_mainnet();
        self
    }

    /// Supplies the channel on which requests go to the transport.
    pub fn with_outbound_sender(&mut self, outbound_tx: Sender<DhtOutboundRequest>) -> (builder:
        &mut Self)
        ensures
            builder.spec_config() == old(self).spec_config(),
            builder.spec_outbound_tx() == Some(outbound_tx),
            *final(self) == *final(builder),
    {
        self.outbound_tx = Some(outbound_tx);
        self
    }

    /// Asks for the node to announce itself to its neighbours when it starts.
    pub fn enable_auto_join(&mut self) -> (builder: &mut Self)
        ensures
            builder.spec_config() == (DhtConfig { auto_join: true, ..old(self).spec_config() }),
            builder.spec_outbound_tx() == old(self).spec_outbound_tx(),
            *final(self) == *final(builder),
    {
        self.config.auto_join = true;
        self
    }

    /// Sets the protocol version that the node speaks.
    pub fn with_protocol_version(&mut self, protocol_version: DhtProtocolVersion) -> (builder: &mut Self)
        ensures
            builder.spec_config() == (DhtConfig { protocol_version, ..old(self).spec_config() }),
            builder.spec_outbound_tx() == old(self).spec_outbound_tx(),
            *final(self) == *final(builder),
    {
        self.config.protocol_version = protocol_version;
        self
    }

    /// Switches store-and-forward on or off.
    pub fn set_auto_store_and_forward_requests(&mut self, enabled: bool) -> (builder: &mut Self)
        ensures
            builder.spec_config() == (DhtConfig {
                saf_config: SafConfig { auto_request: enabled, ..old(self).spec_config().saf_config },
                ..old(self).spec_config()
            }),
            builder.spec_outbound_tx() == old(self).spec_outbound_tx(),
            *final(self) == *final(builder),
    {
        self.config.saf_config.auto_request = enabled;
        self
    }

    /// Sets where the node keeps what has to outlive a restart.
    pub fn with_database_url(&mut self, database_url: DbConnectionUrl) -> (builder: &mut Self)
        ensures
            builder.spec_config() == (DhtConfig { database_url, ..old(self).spec_config() }),
            builder.spec_outbound_tx() == old(self).spec_outbound_tx(),
            *final(self) == *final(builder),
    {
        self.config.database_url = database_url;
        self
    }

    /// Sets the seconds between two trims of the fingerprint cache.
    pub fn with_dedup_cache_trim_interval(&mut self, trim_interval: u64) -> (builder: &mut Self)
        ensures
            builder.spec_config() == (DhtConfig { dedup_cache_trim_interval: trim_interval, ..old(self).spec_config() }),
            builder.spec_outbound_tx() == old(self).spec_outbound_tx(),
            *final(self) == *final(builder),
    {
        self.config.dedup_cache_trim_interval = trim_interval;
        self
    }

    /// Sets the number of fingerprints that a trim leaves at most.
    pub fn with_dedup_cache_capacity(&mut self, capacity: usize) -> (builder: &mut Self)
        ensures
            builder.spec_config() == (DhtConfig { dedup_cache_capacity: capacity, ..old(self).spec_config() }),
            builder.spec_outbound_tx() == old(self).spec_outbound_tx(),
            *final(self) == *final(builder),
    {
        self.config.dedup_cache_capacity = capacity;
        self
    }

    /// Sets how often a message may be seen and still be relayed.
    pub fn with_dedup_discard_hit_count(&mut self, max_hit_count: usize) -> (builder: &mut Self)
        ensures
            builder.spec_config() == (DhtConfig {
                dedup_allowed_message_occurrences: max_hit_count,
                ..old(self).spec_config()
            }),
            builder.spec_outbound_tx() == old(self).spec_outbound_tx(),
            *final(self) == *final(builder),
    {
        self.config.dedup_allowed_message_occurrences = max_hit_count;
        self
    }

    /// Sets the upper bound on the peers a selection picks at random.
    pub fn with_num_random_nodes(&mut self, n: usize) -> (builder: &mut Self)
        ensures
            builder.spec_config() == (DhtConfig { num_random_nodes: n, ..old(self).spec_config() }),
            builder.spec_outbound_tx() == old(self).spec_outbound_tx(),
            *final(self) == *final(builder),
    {
        self.config.num_random_nodes = n;
        self
    }

    /// Sets the number of neighbouring peers, for selections and for
    /// store-and-forward alike.
    pub fn with_num_neighbouring_nodes(&mut self, n: usize) -> (builder: &mut Self)
        ensures
            builder.spec_config() == (DhtConfig {
                num_neighbouring_nodes: n,
                saf_config: SafConfig {
                    num_neighbouring_nodes: n,
                    ..old(self).spec_config().saf_config
                },
                ..old(self).spec_config()
            }),
            builder.spec_outbound_tx() == old(self).spec_outbound_tx(),
            *final(self) == *final(builder),
    {
        self.config.num_neighbouring_nodes = n;
        self.config.saf_config.num_neighbouring_nodes = n;
        self
    }

    /// Sets the number of peers a propagated message is relayed to.
    pub fn with_propagation_factor(&mut self, propagation_factor: usize) -> (builder: &mut Self)
        ensures
            builder.spec_config() == (DhtConfig { propagation_factor, ..old(self).spec_config() }),
            builder.spec_outbound_tx() == old(self).spec_outbound_tx(),
            *final(self) == *final(builder),
    {
        self.config.propagation_factor = propagation_factor;
        self
    }

    /// Sets the number of neighbours a broadcast message is sent to.
    pub fn with_broadcast_factor(&mut self, broadcast_factor: usize) -> (builder: &mut Self)
        ensures
            builder.spec_config() == (DhtConfig { broadcast_factor, ..old(self).spec_config() }),
            builder.spec_outbound_tx() == old(self).spec_outbound_tx(),
            *final(self) == *final(builder),
    {
        self.config.broadcast_factor = broadcast_factor;
        self
    }

    /// Sets the seconds after which an unanswered discovery is given up.
    pub fn with_discovery_timeout(&mut self, timeout: u64) -> (builder: &mut Self)
        ensures
            builder.spec_config() == (DhtConfig { discovery_request_timeout: timeout, ..old(self).spec_config() }),
            builder.spec_outbound_tx() == old(self).spec_outbound_tx(),
            *final(self) == *final(builder),
    {
        self.config.discovery_request_timeout = timeout;
        self
    }

    /// Builds the coordinator for the node `node_id` and starts its
    /// initialization. The channel to the transport moves into the
    /// coordinator, so that a second `build` without a new channel fails.
    /// Where `build` fails the builder stays as it is.
    pub fn build(&mut self, node_id: NodeId) -> (result: Result<Dht, DhtInitializationError>)
        ensures
            final(self).spec_config() == old(self).spec_config(),
            final(self).spec_outbound_tx() == (if result is Ok {
                None
            } else {
                old(self).spec_outbound_tx()
            }),
            built(old(self).spec_config(), old(self).spec_outbound_tx(), node_id, result),
    {
        if self.outbound_tx.is_none() {
            return Err(
                DhtInitializationError::Configuration(ConfigurationError::MissingOutboundSender),
            );
        }
        match self.config.validate() {
            Err(fault) => {
                return Err(DhtInitializationError::Configuration(fault));
            },
            Ok(()) => {},
        }
        let made = match self.outbound_tx.take() {
            Some(outbound_tx) => Dht::new(self.config.clone(), node_id, outbound_tx),
            None => Err(ConfigurationError::MissingOutboundSender),
        };
        match made {
            Ok(mut dht) => {
                let _ = dht.handle_event(LifecycleEvent::Initialize);
                Ok(dht)
            },
            Err(fault) => Err(DhtInitializationError::Configuration(fault)),
        }
    }
}

impl Default for DhtBuilder {
    fn default() -> (builder: DhtBuilder)
        ensures
            builder.spec_config() == testnet_values(),
            builder.spec_outbound_tx() is None,
    {
        DhtBuilder::new()
    }
}

/// Building is repeatable: two builds from equal configurations and equal
/// channels, for the same node, both succeed or both fail with the same
/// error, and where they succeed the coordinators have equal configurations,
/// are in the same state and are equally empty.
pub proof fn law_equal_overrides_build_equal_coordinators(
    config: DhtConfig,
    outbound_tx: Option<Sender<DhtOutboundRequest>>,
    node_id: NodeId,
    first: Result<Dht, DhtInitializationError>,
    second: Result<Dht, DhtInitializationError>,
)
    requires
        built(config, outbound_tx, node_id, first),
        built(config, outbound_tx, node_id, second),
    ensures
        first is Ok == second is Ok,
        first is Err ==> first == second,
        first is Ok ==> {
            &&& first->Ok_0.spec_config() == second->Ok_0.spec_config()
            &&& first->Ok_0.spec_state() == second->Ok_0.spec_state()
            &&& first->Ok_0.spec_node_id() == second->Ok_0.spec_node_id()
            &&& first->Ok_0.cache()@ == second->Ok_0.cache()@
            &&& first->Ok_0.store()@ == second->Ok_0.store()@
            &&& first->Ok_0.pending()@ == second->Ok_0.pending()@
        },
        first is Ok <==> outbound_tx is Some && config.spec_is_valid(),
{
}

} // verus!
