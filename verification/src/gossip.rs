//! Status codes of the C interface of the gossip node: what publishing and
//! receiving a message report.

use vstd::prelude::*;

use crate::ffi::copy_to_buffer;

verus! {

/// How publishing a message ended.
#[derive(Debug, Clone, Copy, PartialEq, Eq, Structural)]
pub enum PublishOutcome {
    /// The message was published.
    Published,
    /// Too few peers are subscribed to the topic.
    InsufficientPeers,
    /// The message is larger than the network accepts.
    MessageTooLarge,
    /// Publishing failed in another way.
    Failed,
}

/// Returned when too few peers are subscribed.
pub const DNET_PUBLISH_ERR_INSUFFICIENT_PEERS: i32 = -1;
/// Returned when the message is too large.
pub const DNET_PUBLISH_ERR_MSG_TOO_LARGE: i32 = -2;
/// Returned for any other failure.
pub const DNET_PUBLISH_ERR_UNHANDLED: i32 = -3;

/// The status code of a publication: zero on success, non-zero on error.
pub fn publish_status(outcome: PublishOutcome) -> (r: i32)
    ensures
        r == match outcome {
            PublishOutcome::Published => 0,
            PublishOutcome::InsufficientPeers => DNET_PUBLISH_ERR_INSUFFICIENT_PEERS,
            PublishOutcome::MessageTooLarge => DNET_PUBLISH_ERR_MSG_TOO_LARGE,
            PublishOutcome::Failed => DNET_PUBLISH_ERR_UNHANDLED,
        },
{
    match outcome {
        PublishOutcome::Published => 0,
        PublishOutcome::InsufficientPeers => DNET_PUBLISH_ERR_INSUFFICIENT_PEERS,
        PublishOutcome::MessageTooLarge => DNET_PUBLISH_ERR_MSG_TOO_LARGE,
        PublishOutcome::Failed => DNET_PUBLISH_ERR_UNHANDLED,
    }
}

/// How waiting for a message ended.
#[derive(Debug)]
pub enum ReceiveOutcome {
    /// A message arrived with these bytes.
    Message(Vec<u8>),
    /// The receiving channel is closed.
    Closed,
    /// No message arrived in time.
    TimedOut,
}

/// Returned when no message could be handed over.
pub const DNET_RECEIVE_ERR: i32 = -1;

/// Hands a received message to the caller's buffer and gives the status
/// code: the number of bytes received on success, and -1 otherwise (no
/// message in time, the channel closed, or a buffer too small for the
/// message, which is then dropped). The buffer changes only when bytes are
/// copied.
pub fn receive_status(outcome: &ReceiveOutcome, buf: &mut [u8]) -> (r: i32)
    ensures
        match outcome {
            ReceiveOutcome::Message(data) => if data@.len() <= old(buf)@.len() {
                r == data@.len() as i32 && final(buf)@ == data@ + old(buf)@.skip(data@.len() as int)
            } else {
                r == DNET_RECEIVE_ERR && final(buf)@ == old(buf)@
            },
            _ => r == DNET_RECEIVE_ERR && final(buf)@ == old(buf)@,
        },
{
    match outcome {
        ReceiveOutcome::Message(data) => copy_to_buffer(data.as_slice(), buf),
        ReceiveOutcome::Closed => DNET_RECEIVE_ERR,
        ReceiveOutcome::TimedOut => DNET_RECEIVE_ERR,
    }
}

} // verus!
