//! The tunables of the DHT layer and the three profiles that give them their
//! baseline values.
//!
//! All times are whole seconds.

use crate::selector::NodeSelectionMix;
use vstd::prelude::*;

verus! {

/// Version of the DHT wire protocol that the node speaks.
#[derive(Clone, Copy, Debug, PartialEq, Eq, Structural)]
pub struct DhtProtocolVersion {
    pub major: u32,
}

impl DhtProtocolVersion {
    pub fn v1() -> (v: DhtProtocolVersion)
        ensures
            v.major == 1,
    {
        DhtProtocolVersion { major: 1 }
    }

    pub fn v2() -> (v: DhtProtocolVersion)
        ensures
            v.major == 2,
    {
        DhtProtocolVersion { major: 2 }
    }

    /// The newest version this library speaks.
    pub fn latest() -> (v: DhtProtocolVersion)
        ensures
            v.major == 2,
    {
        DhtProtocolVersion { major: 2 }
    }
}

/// Where the node keeps what has to outlive a restart.
#[derive(Debug)]
pub enum DbConnectionUrl {
    /// In memory, private to this node.
    Memory,
    /// In memory, shared under a name.
    MemoryShared(String),
    /// In a file at this path.
    File(String),
}

impl Clone for DbConnectionUrl {
    fn clone(&self) -> (copy: Self)
        ensures
            copy == *self,
    {
        match self {
            DbConnectionUrl::Memory => DbConnectionUrl::Memory,
            DbConnectionUrl::MemoryShared(name) => DbConnectionUrl::MemoryShared(name.clone()),
            DbConnectionUrl::File(path) => DbConnectionUrl::File(path.clone()),
        }
    }
}

/// Tunables of store-and-forward.
#[derive(Clone, Copy, Debug, PartialEq, Eq, Structural)]
pub struct SafConfig {
    /// Whether messages for unreachable peers are kept at all.
    pub auto_request: bool,
    /// Number of neighbouring peers that store-and-forward works with.
    pub num_neighbouring_nodes: usize,
    /// Number of messages kept for one destination at most.
    pub msg_storage_capacity: usize,
    /// Seconds for which a stored message stays alive.
    pub msg_validity: u64,
}

/// The tunables of the DHT layer.
#[derive(Debug)]
pub struct DhtConfig {
    pub protocol_version: DhtProtocolVersion,
    /// Number of peers a propagated message is relayed to.
    pub propagation_factor: usize,
    /// Number of neighbours a broadcast message is sent to.
    pub broadcast_factor: usize,
    /// Upper bound on the peers a selection picks at random.
    pub num_random_nodes: usize,
    /// Upper bound on the peers a selection takes for being nearest.
    pub num_neighbouring_nodes: usize,
    /// Number of fingerprints that a trim leaves at most.
    pub dedup_cache_capacity: usize,
    /// Seconds between two trims of the fingerprint cache.
    pub dedup_cache_trim_interval: u64,
    /// How often a message may be seen and still be relayed.
    pub dedup_allowed_message_occurrences: usize,
    /// Seconds after which a fingerprint that was not seen again is dropped
    /// by a trim, however much room the cache has.
    pub dedup_cache_max_age: u64,
    pub saf_config: SafConfig,
    /// Seconds after which an unanswered discovery request is given up.
    pub discovery_request_timeout: u64,
    /// Whether the node announces itself to its neighbours when it starts.
    pub auto_join: bool,
    pub database_url: DbConnectionUrl,
}

impl Clone for DhtConfig {
    fn clone(&self) -> (copy: Self)
        ensures
            copy == *self,
    {
        DhtConfig {
            protocol_version: self.protocol_version,
            propagation_factor: self.propagation_factor,
            broadcast_factor: self.broadcast_factor,
            num_random_nodes: self.num_random_nodes,
            num_neighbouring_nodes: self.num_neighbouring_nodes,
            dedup_cache_capacity: self.dedup_cache_capacity,
            dedup_cache_trim_interval: self.dedup_cache_trim_interval,
            dedup_allowed_message_occurrences: self.dedup_allowed_message_occurrences,
            dedup_cache_max_age: self.dedup_cache_max_age,
            saf_config: self.saf_config,
            discovery_request_timeout: self.discovery_request_timeout,
            auto_join: self.auto_join,
            database_url: self.database_url.clone(),
        }
    }
}

/// The baseline of the test network.
pub open spec fn testnet_values() -> DhtConfig {
    DhtConfig {
        protocol_version: DhtProtocolVersion { major: 2 },
        propagation_factor: 4,
        broadcast_factor: 8,
        num_random_nodes: 4,
        num_neighbouring_nodes: 8,
        dedup_cache_capacity: 2500,
        dedup_cache_trim_interval: 300,
        dedup_allowed_message_occurrences: 1,
        dedup_cache_max_age: 86400,
        saf_config: SafConfig {
            auto_request: true,
            num_neighbouring_nodes: 8,
            msg_storage_capacity: 50,
            msg_validity: 10800,
        },
        discovery_request_timeout: 120,
        auto_join: false,
        database_url: DbConnectionUrl::Memory,
    }
}

/// The baseline of the main network: wider fan-out, a larger cache and more
/// patience than on the test network.
pub open spec fn mainnet_values() -> DhtConfig {
    DhtConfig {
        protocol_version: DhtProtocolVersion { major: 2 },
        propagation_factor: 6,
        broadcast_factor: 12,
        num_random_nodes: 6,
        num_neighbouring_nodes: 12,
        dedup_cache_capacity: 10000,
        dedup_cache_trim_interval: 600,
        dedup_allowed_message_occurrences: 3,
        dedup_cache_max_age: 86400,
        saf_config: SafConfig {
            auto_request: true,
            num_neighbouring_nodes: 12,
            msg_storage_capacity: 100,
            msg_validity: 21600,
        },
        discovery_request_timeout: 180,
        auto_join: false,
        database_url: DbConnectionUrl::Memory,
    }
}

/// The baseline for tests on one machine: a handful of peers, short
/// intervals, and no store-and-forward.
pub open spec fn local_test_values() -> DhtConfig {
    DhtConfig {
        protocol_version: DhtProtocolVersion { major: 2 },
        propagation_factor: 2,
        broadcast_factor: 4,
        num_random_nodes: 2,
        num_neighbouring_nodes: 4,
        dedup_cache_capacity: 100,
        dedup_cache_trim_interval: 30,
        dedup_allowed_message_occurrences: 1,
        dedup_cache_max_age: 3600,
        saf_config: SafConfig {
            auto_request: false,
            num_neighbouring_nodes: 4,
            msg_storage_capacity: 10,
            msg_validity: 600,
        },
        discovery_request_timeout: 15,
        auto_join: false,
        database_url: DbConnectionUrl::Memory,
    }
}

/// What is wrong with a configuration.
#[derive(Clone, Copy, Debug, PartialEq, Eq, Structural)]
pub enum ConfigurationError {
    /// No channel to the transport was supplied: the coordinator would have
    /// no way to send anything.
    MissingOutboundSender,
    /// The fingerprint cache is given no room at all.
    ZeroDedupCacheCapacity,
    /// No message is allowed to be seen even once.
    ZeroAllowedOccurrences,
}

/// What is wrong with the tunables of `config`, if anything is: the cache
/// must have room for at least one fingerprint, and every message must be
/// allowed at least one occurrence.
pub open spec fn fault_of(config: DhtConfig) -> Option<ConfigurationError> {
    if config.dedup_cache_capacity == 0 {
        Some(ConfigurationError::ZeroDedupCacheCapacity)
    } else if config.dedup_allowed_message_occurrences == 0 {
        Some(ConfigurationError::ZeroAllowedOccurrences)
    } else {
        None
    }
}

impl DhtConfig {
    /// What every usable configuration has: a cache that can hold something,
    /// and at least one occurrence allowed for each message.
    pub open spec fn spec_is_valid(&self) -> bool {
        self.dedup_cache_capacity > 0 && self.dedup_allowed_message_occurrences >= 1
    }

    /// The selection mix that the configuration asks for.
    pub open spec fn spec_mix(&self) -> NodeSelectionMix {
        NodeSelectionMix {
            num_random_nodes: self.num_random_nodes,
            num_neighbouring_nodes: self.num_neighbouring_nodes,
        }
    }

    pub fn default_testnet() -> (c: DhtConfig)
        ensures
            c == testnet_values(),
            c.spec_is_valid(),
    {
        DhtConfig {
            protocol_version: DhtProtocolVersion::latest(),
            propagation_factor: 4,
            broadcast_factor: 8,
            num_random_nodes: 4,
            num_neighbouring_nodes: 8,
            dedup_cache_capacity: 2500,
            dedup_cache_trim_interval: 300,
            dedup_allowed_message_occurrences: 1,
            dedup_cache_max_age: 86400,
            saf_config: SafConfig {
                auto_request: true,
                num_neighbouring_nodes: 8,
                msg_storage_capacity: 50,
                msg_validity: 10800,
            },
            discovery_request_timeout: 120,
            auto_join: false,
            database_url: DbConnectionUrl::Memory,
        }
    }

    pub fn default_mainnet() -> (c: DhtConfig)
        ensures
            c == mainnet_values(),
            c.spec_is_valid(),
    {
        DhtConfig {
            protocol_version: DhtProtocolVersion::latest(),
            propagation_factor: 6,
            broadcast_factor: 12,
            num_random_nodes: 6,
            num_neighbouring_nodes: 12,
            dedup_cache_capacity: 10000,
            dedup_cache_trim_interval: 600,
            dedup_allowed_message_occurrences: 3,
            dedup_cache_max_age: 86400,
            saf_config: SafConfig {
                auto_request: true,
                num_neighbouring_nodes: 12,
                msg_storage_capacity: 100,
                msg_validity: 21600,
            },
            discovery_request_timeout: 180,
            auto_join: false,
            database_url: DbConnectionUrl::Memory,
        }
    }

    pub fn default_local_test() -> (c: DhtConfig)
        ensures
            c == local_test_values(),
            c.spec_is_valid(),
    {
        DhtConfig {
            protocol_version: DhtProtocolVersion::latest(),
            propagation_factor: 2,
            broadcast_factor: 4,
            num_random_nodes: 2,
            num_neighbouring_nodes: 4,
            dedup_cache_capacity: 100,
            dedup_cache_trim_interval: 30,
            dedup_allowed_message_occurrences: 1,
            dedup_cache_max_age: 3600,
            saf_config: SafConfig {
                auto_request: false,
                num_neighbouring_nodes: 4,
                msg_storage_capacity: 10,
                msg_validity: 600,
            },
            discovery_request_timeout: 15,
            auto_join: false,
            database_url: DbConnectionUrl::Memory,
        }
    }

    /// Whether the configuration is usable.
    pub fn is_valid(&self) -> (ok: bool)
        ensures
            ok == self.spec_is_valid(),
    {
        self.dedup_cache_capacity > 0 && self.dedup_allowed_message_occurrences >= 1
    }

    /// Checks the tunables, and says what is wrong with them if anything is.
    pub fn validate(&self) -> (result: Result<(), ConfigurationError>)
        ensures
            result == (match fault_of(*self) {
                Some(fault) => Err::<(), ConfigurationError>(fault),
                None => Ok::<(), ConfigurationError>(()),
            }),
            result is Ok == self.spec_is_valid(),
    {
        if self.dedup_cache_capacity == 0 {
            Err(ConfigurationError::ZeroDedupCacheCapacity)
        } else if self.dedup_allowed_message_occurrences == 0 {
            Err(ConfigurationError::ZeroAllowedOccurrences)
        } else {
            Ok(())
        }
    }

    /// The selection mix that the configuration asks for.
    pub fn mix(&self) -> (m: NodeSelectionMix)
        ensures
            m == self.spec_mix(),
    {
        NodeSelectionMix {
            num_random_nodes: self.num_random_nodes,
            num_neighbouring_nodes: self.num_neighbouring_nodes,
        }
    }
}

impl Default for DhtConfig {
    /// The test network's baseline.
    fn default() -> (c: DhtConfig)
        ensures
            c == testnet_values(),
    {
        DhtConfig::default_testnet()
    }
}

} // verus!
