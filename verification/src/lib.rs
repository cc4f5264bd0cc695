//! Message propagation and store-and-forward core of a peer-to-peer DHT node.
//!
//! For every message that enters or leaves the node, this library decides
//! which peers it is relayed to, keeps messages that were seen before from
//! being relayed again, and keeps messages for peers that cannot be reached
//! until they come back for them.
//!
//! - [`config`] and [`builder`]: the tunables, their profiles, and the
//!   construction of the coordinator.
//! - [`dedup`]: the cache of message fingerprints.
//! - [`peer`] and [`selector`]: the peers that are known, and the choice among
//!   them.
//! - [`saf`]: store-and-forward.
//! - [`outbound`] and [`dispatcher`]: requests to the transport, and the
//!   dispatch of one message to its targets.
//! - [`discovery`]: discovery requests in flight.
//! - [`dht`]: the coordinator that ties these together.
//! - [`contacts`]: the contacts service as its callers see it.
//! - [`logging`] and [`text`]: what is put on record, and how it is written.
//!
//! Nothing in here waits, reads a clock or draws a random number: the time,
//! the random draws and the current picture of the peers come in as
//! arguments, and the only thing that goes out is a request offered to the
//! channel of the transport.

pub mod builder;
pub mod config;
pub mod contacts;
pub mod dedup;
pub mod dht;
pub mod discovery;
pub mod dispatcher;
pub mod logging;
pub mod outbound;
pub mod peer;
pub mod saf;
pub mod selector;
pub mod text;
