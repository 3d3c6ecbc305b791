//! The feed worker's decisions: each received payload is decoded and handed
//! to the interface; a closed interface ends the worker cleanly, and a
//! payload that does not decode ends it with an error.
use vstd::prelude::*;

use crate::codec::{decode, decoding, DecodeError};
use crate::message::MessageType;

verus! {

/// Why a worker ended early.
#[derive(Clone, Copy, Debug, PartialEq, Eq, Structural)]
pub enum WorkerError {
    /// A payload could not be decoded.
    Decode(DecodeError),
    /// Sending or receiving on the transport failed.
    Transport,
}

/// What the feed worker does next.
#[derive(Debug, PartialEq, Eq)]
pub enum FeedAction {
    /// Hand this message to the interface.
    Deliver(MessageType),
    /// Block for the next topic and payload.
    Receive,
    /// End the worker with this result.
    Exit(Result<(), WorkerError>),
}

/// A payload has arrived (its topic only served to filter it): deliver the
/// message that it decodes to, or end the worker with the decoding error.
pub fn feed_on_payload(payload: &str) -> (r: FeedAction)
    ensures
        match decoding(payload@) {
            Ok(m) => r is Deliver && (r->Deliver_0)@ == m,
            Err(e) => r == FeedAction::Exit(Err(WorkerError::Decode(e))),
        },
{
    match decode(payload) {
        Ok(m) => FeedAction::Deliver(m),
        Err(e) => FeedAction::Exit(Err(WorkerError::Decode(e))),
    }
}

/// A payload arrived that is not text: it cannot be read as a message, and
/// the worker ends with that error.
pub fn feed_on_invalid_text() -> (r: FeedAction)
    ensures
        r == FeedAction::Exit(Err(WorkerError::Decode(DecodeError::MalformedPayload))),
{
    FeedAction::Exit(Err(WorkerError::Decode(DecodeError::MalformedPayload)))
}

/// A delivery was attempted. Where the interface has gone, the worker ends
/// cleanly: that is how a session's end reaches it, and no error.
pub fn feed_on_delivery(delivered: bool) -> (r: FeedAction)
    ensures
        delivered ==> r == FeedAction::Receive,
        !delivered ==> r == FeedAction::Exit(Ok(())),
{
    if delivered {
        FeedAction::Receive
    } else {
        FeedAction::Exit(Ok(()))
    }
}

/// The transport failed: the worker ends with that error.
pub fn feed_on_transport_failure() -> (r: FeedAction)
    ensures
        r == FeedAction::Exit(Err(WorkerError::Transport)),
{
    FeedAction::Exit(Err(WorkerError::Transport))
}

} // verus!
