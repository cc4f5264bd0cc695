//! The way out of the DHT layer: requests to the transport, handed over on a
//! bounded channel.

use crate::peer::NodeId;
use tokio::sync::mpsc::error::TrySendError;
use tokio::sync::mpsc::Sender;
use vstd::prelude::*;

verus! {

/// A request to the transport to send one message to one peer.
#[derive(Debug)]
pub struct DhtOutboundRequest {
    pub destination: NodeId,
    /// The message as the caller handed it in.
    pub envelope: Vec<u8>,
}

/// What the channel to the transport said to a request.
#[derive(Clone, Copy, Debug, PartialEq, Eq, Structural)]
pub enum SendStatus {
    /// The request is in the channel.
    Accepted,
    /// The channel holds as many requests as it can; the request was not taken.
    Full,
    /// The transport has closed its end; the request was not taken.
    Closed,
}

/// `tokio::sync::mpsc::Sender`, the sending half of tokio's bounded channel.
/// Nothing is known of a value of this type but that it can be handed on.
#[verifier::external_type_specification]
#[verifier::external_body]
#[verifier::reject_recursive_types(T)]
pub struct ExSender<T>(tokio::sync::mpsc::Sender<T>);

/// Offers `request` to the channel without waiting, by
/// `tokio::sync::mpsc::Sender::try_send`. The call returns at once and does
/// not panic. Which status comes back depends on what the channel holds and
/// on whether the receiving half is still there, so nothing is claimed of it.
#[verifier::external_body]
pub(crate) fn offer(tx: &Sender<DhtOutboundRequest>, request: DhtOutboundRequest) -> (status:
    SendStatus) {
    match tx.try_send(request) {
        Ok(()) => SendStatus::Accepted,
        Err(TrySendError::Full(_)) => SendStatus::Full,
        Err(TrySendError::Closed(_)) => SendStatus::Closed,
    }
}

/// A copy of a byte string.
pub fn copy_of(bytes: &Vec<u8>) -> (copy: Vec<u8>)
    ensures
        copy@ == bytes@,
{
    let mut copy: Vec<u8> = Vec::new();
    let mut i: usize = 0;
    while i < bytes.len()
        invariant
            i <= bytes.len(),
            copy@ == bytes@.take(i as int),
        decreases bytes.len() - i,
    {
        copy.push(bytes[i]);
        proof {
            assert(copy@ == bytes@.take(i + 1));
        }
        i += 1;
    }
    proof {
        assert(bytes@.take(i as int) == bytes@);
    }
    copy
}

} // verus!
