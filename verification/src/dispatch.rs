//! The dispatch stage: every message that comes out of the mixing stage and
//! fits a frame is framed and sent to the peer it is addressed to. A message
//! too long for a frame is skipped.
//!
//! Audio that could not be sent is dropped, never sent again: by the time a
//! second try would arrive it would be stale. A send that fails for one peer
//! does not hold up the messages that follow. Only the loss of the socket
//! or of the queue from the mixing stage stops the stage.

use vstd::prelude::*;
use crate::codec::{audio_header, encode, encode_spec, EncodeError, MAX_PAYLOAD_LEN};
use crate::message::{views, AudioMessage, AudioMessageView};
use crate::peer::PeerAddress;
use crate::stage::{after_all, lemma_continue_keeps_running, StageState, StopCause, Verdict};

verus! {

/// One frame and the peer it is to be sent to.
#[derive(Clone, Debug, PartialEq, Eq)]
pub struct Transmission {
    /// The bytes of the datagram.
    pub frame: Vec<u8>,
    /// The peer the datagram goes to.
    pub to: PeerAddress,
}

/// Mathematical value of a [`Transmission`].
pub ghost struct TransmissionView {
    pub frame: Seq<u8>,
    pub to: PeerAddress,
}

impl View for Transmission {
    type V = TransmissionView;

    open spec fn view(&self) -> TransmissionView {
        TransmissionView { frame: self.frame@, to: self.to }
    }
}

/// What the dispatch stage wakes up to.
#[derive(Clone, Debug, PartialEq, Eq)]
pub enum DispatchEvent {
    /// A message has come from the mixing stage.
    Outbound(AudioMessage),
    /// The queue from the mixing stage is closed and empty.
    Disconnected,
    /// The stage is asked to stop.
    Shutdown,
}

/// What the dispatch stage does about an event.
#[derive(Clone, Debug, PartialEq, Eq)]
pub enum DispatchAction {
    /// Send this frame to this peer, once.
    Transmit(Transmission),
    /// Drop the message, for the reason given, and go on.
    Skip(EncodeError),
    /// Stop.
    Halt(StopCause),
}

/// Mathematical value of a [`DispatchAction`].
pub ghost enum DispatchActionView {
    Transmit(TransmissionView),
    Skip(EncodeError),
    Halt(StopCause),
}

impl View for DispatchAction {
    type V = DispatchActionView;

    open spec fn view(&self) -> DispatchActionView {
        match self {
            DispatchAction::Transmit(transmission) => DispatchActionView::Transmit(transmission@),
            DispatchAction::Skip(e) => DispatchActionView::Skip(*e),
            DispatchAction::Halt(cause) => DispatchActionView::Halt(*cause),
        }
    }
}

/// Why the operating system refused a send, as far as the stage tells the
/// reasons apart.
#[derive(Clone, Copy, Debug, PartialEq, Eq, Hash, Structural)]
pub enum SendFault {
    /// The socket is not connected.
    NotConnected,
    /// The socket is broken: what it wrote to is gone.
    BrokenPipe,
    /// Anything else: the peer cannot be reached, the network refused the
    /// frame, the moment was wrong.
    Other,
}

/// How one send on the socket ended.
#[derive(Clone, Copy, Debug, PartialEq, Eq, Hash, Structural)]
pub enum SendResult {
    /// The frame was handed to the network.
    Sent,
    /// This send failed and the socket is still good: the peer cannot be
    /// reached, or the network refused this frame.
    Failed,
    /// The socket is closed or can no longer be used.
    SocketClosed,
}

/// How handling one message ended.
#[derive(Clone, Copy, Debug, PartialEq, Eq, Hash, Structural)]
pub enum DispatchReport {
    /// The frame was sent.
    Transmitted,
    /// The frame could not be sent to its peer and was dropped.
    Undelivered,
    /// The message did not fit a frame and was dropped.
    Unframed(EncodeError),
    /// The stage must stop.
    Stopped(StopCause),
}

impl DispatchReport {
    /// What the report asks of the stage.
    pub open spec fn verdict_spec(self) -> Verdict {
        match self {
            DispatchReport::Stopped(cause) => Verdict::Stop(cause),
            _ => Verdict::Continue,
        }
    }

    /// What the report asks of the stage: a message that was dropped, for
    /// whatever reason, never stops it.
    pub fn verdict(self) -> (verdict: Verdict)
        ensures
            verdict == self.verdict_spec(),
    {
        match self {
            DispatchReport::Stopped(cause) => Verdict::Stop(cause),
            _ => Verdict::Continue,
        }
    }
}

/// The transmission that carries `message`: its frame, for its peer.
pub open spec fn transmission_of(message: AudioMessageView) -> Result<
    TransmissionView,
    EncodeError,
> {
    match encode_spec(message.payload) {
        Ok(frame) => Ok(TransmissionView { frame, to: message.peer_address }),
        Err(e) => Err(e),
    }
}

/// The transmissions that carry `messages`, in their order; a message that
/// does not fit a frame has none.
pub open spec fn transmissions_of(messages: Seq<AudioMessageView>) -> Seq<TransmissionView> {
    messages.filter_map(
        |message: AudioMessageView|
            match transmission_of(message) {
                Ok(transmission) => Some(transmission),
                Err(_) => None,
            },
    )
}

/// The views of a sequence of transmissions.
pub open spec fn transmission_views(transmissions: Seq<Transmission>) -> Seq<TransmissionView> {
    transmissions.map_values(|transmission: Transmission| transmission@)
}

/// The action that answers `event`.
pub open spec fn plan_dispatch_spec(event: DispatchEvent) -> DispatchActionView {
    match event {
        DispatchEvent::Outbound(message) => match transmission_of(message@) {
            Ok(transmission) => DispatchActionView::Transmit(transmission),
            Err(e) => DispatchActionView::Skip(e),
        },
        DispatchEvent::Disconnected => DispatchActionView::Halt(StopCause::ChannelClosed),
        DispatchEvent::Shutdown => DispatchActionView::Halt(StopCause::Shutdown),
    }
}

/// What the answer of the socket to one send means: the number of bytes
/// written means sent; a fault of the socket itself means that the socket is
/// lost; any other fault means that this one send failed.
pub open spec fn send_result_spec(outcome: Result<usize, SendFault>) -> SendResult {
    match outcome {
        Ok(_) => SendResult::Sent,
        Err(SendFault::NotConnected) => SendResult::SocketClosed,
        Err(SendFault::BrokenPipe) => SendResult::SocketClosed,
        Err(SendFault::Other) => SendResult::Failed,
    }
}

/// The report on a frame whose send ended in `result`.
pub open spec fn settle_dispatch_spec(result: SendResult) -> DispatchReport {
    match result {
        SendResult::Sent => DispatchReport::Transmitted,
        SendResult::Failed => DispatchReport::Undelivered,
        SendResult::SocketClosed => DispatchReport::Stopped(StopCause::SocketClosed),
    }
}

/// The report on `event`, where `result` is how the send ended if the event
/// led to one.
pub open spec fn dispatch_report(event: DispatchEvent, result: SendResult) -> DispatchReport {
    match plan_dispatch_spec(event) {
        DispatchActionView::Transmit(_) => settle_dispatch_spec(result),
        DispatchActionView::Skip(e) => DispatchReport::Unframed(e),
        DispatchActionView::Halt(cause) => DispatchReport::Stopped(cause),
    }
}

/// Frames `message` for the peer it is addressed to.
pub fn frame_for(message: &AudioMessage) -> (r: Result<Transmission, EncodeError>)
    ensures
        match r {
            Ok(transmission) => transmission_of(message@) == Ok::<TransmissionView, EncodeError>(
                transmission@,
            ),
            Err(e) => transmission_of(message@) == Err::<TransmissionView, EncodeError>(e),
        },
{
    match encode(message) {
        Ok(frame) => Ok(Transmission { frame, to: message.peer_address }),
        Err(e) => Err(e),
    }
}

/// Frames each of `messages` for its peer, in their order, and leaves out
/// those that do not fit a frame.
pub fn frame_all(messages: &Vec<AudioMessage>) -> (out: Vec<Transmission>)
    ensures
        transmission_views(out@) == transmissions_of(views(messages@)),
{
    let mut out: Vec<Transmission> = Vec::new();
    let mut i: usize = 0;
    while i < messages.len()
        invariant
            i <= messages.len(),
            transmission_views(out@) =~= transmissions_of(views(messages@).take(i as int)),
        decreases messages.len() - i,
    {
        proof {
            let done = views(messages@).take(i as int);
            let done_now = views(messages@).take(i + 1);
            assert(done_now.drop_last() =~= done);
        }
        match frame_for(&messages[i]) {
            Ok(transmission) => {
                out.push(transmission);
            },
            Err(_) => {},
        }
        i += 1;
    }
    assert(views(messages@).take(i as int) =~= views(messages@));
    out
}

/// Decides what to do about `event`.
///
/// A message is framed and is to be sent to its peer; one that does not fit
/// a frame is skipped. The loss of the queue from the mixing stage and a
/// request to stop halt the stage.
pub fn plan_dispatch(event: &DispatchEvent) -> (action: DispatchAction)
    ensures
        action@ == plan_dispatch_spec(*event),
{
    match event {
        DispatchEvent::Outbound(message) => match frame_for(message) {
            Ok(transmission) => DispatchAction::Transmit(transmission),
            Err(e) => DispatchAction::Skip(e),
        },
        DispatchEvent::Disconnected => DispatchAction::Halt(StopCause::ChannelClosed),
        DispatchEvent::Shutdown => DispatchAction::Halt(StopCause::Shutdown),
    }
}

/// Tells a send that failed from a socket that is lost.
///
/// The socket is given up only where the fault is the socket's own: it is
/// not connected, or it is broken. Every other fault is the fault of one
/// send to one peer.
pub fn send_result(outcome: Result<usize, SendFault>) -> (result: SendResult)
    ensures
        result == send_result_spec(outcome),
{
    match outcome {
        Ok(_) => SendResult::Sent,
        Err(SendFault::NotConnected) => SendResult::SocketClosed,
        Err(SendFault::BrokenPipe) => SendResult::SocketClosed,
        Err(SendFault::Other) => SendResult::Failed,
    }
}

/// Reports on a frame that was handed to the socket: a send that failed is
/// a frame lost, and only a socket that is gone stops the stage.
pub fn settle_dispatch(result: SendResult) -> (report: DispatchReport)
    ensures
        report == settle_dispatch_spec(result),
        report.verdict_spec() is Stop <==> result == SendResult::SocketClosed,
{
    match result {
        SendResult::Sent => DispatchReport::Transmitted,
        SendResult::Failed => DispatchReport::Undelivered,
        SendResult::SocketClosed => DispatchReport::Stopped(StopCause::SocketClosed),
    }
}

/// The verdicts of a run of the stage over `messages`, where `results[i]` is
/// how the send for `messages[i]` ended, if there was one.
pub open spec fn dispatch_verdicts(messages: Seq<AudioMessage>, results: Seq<SendResult>) -> Seq<
    Verdict,
>
    recommends
        messages.len() == results.len(),
{
    Seq::new(
        messages.len(),
        |i: int| dispatch_report(DispatchEvent::Outbound(messages[i]), results[i]).verdict_spec(),
    )
}

/// A fault of one peer does not stall the stage. Whatever the messages, and
/// however many of their sends fail, as long as the socket itself is not
/// lost the stage is running when each of them comes in and is still running
/// after the last. And what the stage does about a message does not depend
/// on how the sends before it ended: a message that fits a frame is handed
/// to the socket with its own frame, for its own peer; one that does not fit
/// is skipped.
pub proof fn lemma_failed_sends_do_not_stall(messages: Seq<AudioMessage>, results: Seq<SendResult>)
    requires
        messages.len() == results.len(),
        forall|i: int| 0 <= i < results.len() ==> results[i] != SendResult::SocketClosed,
    ensures
        after_all(StageState::Running, dispatch_verdicts(messages, results))
            == StageState::Running,
        forall|i: int|
            0 <= i <= messages.len() ==> after_all(
                StageState::Running,
                #[trigger] dispatch_verdicts(messages, results).take(i),
            ) == StageState::Running,
        forall|i: int|
            0 <= i < messages.len() ==> #[trigger] plan_dispatch_spec(
                DispatchEvent::Outbound(messages[i]),
            ) == if messages[i]@.payload.len() <= MAX_PAYLOAD_LEN {
                DispatchActionView::Transmit(
                    TransmissionView {
                        frame: audio_header() + messages[i]@.payload,
                        to: messages[i]@.peer_address,
                    },
                )
            } else {
                DispatchActionView::Skip(EncodeError::PayloadTooLarge)
            },
{
    let verdicts = dispatch_verdicts(messages, results);
    lemma_continue_keeps_running(verdicts);
    assert forall|i: int| 0 <= i <= messages.len() implies after_all(
        StageState::Running,
        #[trigger] verdicts.take(i),
    ) == StageState::Running by {
        lemma_continue_keeps_running(verdicts.take(i));
    }
}

} // verus!
