//! The queue between two stages: a `flume` channel that carries audio
//! messages, in the order sent, from one stage to the next.

use vstd::prelude::*;
use crate::message::AudioMessage;
use crate::stage::{StopCause, Verdict};

verus! {

/// `flume::Sender`: the sending end of a channel. Carried, never looked
/// into.
#[verifier::external_type_specification]
#[verifier::external_body]
#[verifier::reject_recursive_types(T)]
pub struct ExSender<T>(flume::Sender<T>);

/// What became of a message offered to the next stage.
#[derive(Clone, Copy, Debug, PartialEq, Eq, Hash, Structural)]
pub enum SendOutcome {
    /// The message is in the queue.
    Delivered,
    /// The queue is bounded and full; the message was not taken.
    Full,
    /// Every receiver is gone; the message was not taken.
    Disconnected,
}

impl SendOutcome {
    /// What the outcome asks of the sending stage.
    pub open spec fn verdict_spec(self) -> Verdict {
        match self {
            SendOutcome::Delivered => Verdict::Continue,
            SendOutcome::Full => Verdict::Stop(StopCause::ChannelFull),
            SendOutcome::Disconnected => Verdict::Stop(StopCause::ChannelClosed),
        }
    }

    /// What the outcome asks of the sending stage: a queue that does not
    /// take a message stops the stage that feeds it.
    pub fn verdict(self) -> (verdict: Verdict)
        ensures
            verdict == self.verdict_spec(),
    {
        match self {
            SendOutcome::Delivered => Verdict::Continue,
            SendOutcome::Full => Verdict::Stop(StopCause::ChannelFull),
            SendOutcome::Disconnected => Verdict::Stop(StopCause::ChannelClosed),
        }
    }
}

/// Offers `message` to the next stage with `flume::Sender::try_send`, which
/// never waits.
///
/// Trusted, and nothing is claimed of the outcome: it depends on the other
/// end of the channel.
#[verifier::external_body]
pub(crate) fn offer(queue: &flume::Sender<AudioMessage>, message: AudioMessage) -> SendOutcome {
    match queue.try_send(message) {
        Ok(()) => SendOutcome::Delivered,
        Err(flume::TrySendError::Full(_)) => SendOutcome::Full,
        Err(flume::TrySendError::Disconnected(_)) => SendOutcome::Disconnected,
    }
}

} // verus!
