//! The ingestion stage: every datagram that arrives is read, and what is an
//! audio message goes on to the mixing stage, tagged with its sender.
//!
//! A datagram that cannot be read is dropped and the stage goes on. Only the
//! loss of the socket or of the queue to the mixing stage stops it.

use vstd::prelude::*;
use crate::channel::{offer, SendOutcome};
use crate::codec::{decode, decode_spec, has_audio_header, payload_of, DecodeError};
use crate::message::{AudioMessage, AudioMessageView};
use crate::peer::PeerAddress;
use crate::schema::payload_well_formed;
use crate::stage::{StopCause, Verdict};

verus! {

/// The content of one datagram and the peer that sent it.
#[derive(Clone, Debug, PartialEq, Eq)]
pub struct Datagram {
    /// The bytes as they came off the socket.
    pub bytes: Vec<u8>,
    /// The peer that sent them.
    pub from: PeerAddress,
}

/// Mathematical value of a [`Datagram`].
pub ghost struct DatagramView {
    pub bytes: Seq<u8>,
    pub from: PeerAddress,
}

impl View for Datagram {
    type V = DatagramView;

    open spec fn view(&self) -> DatagramView {
        DatagramView { bytes: self.bytes@, from: self.from }
    }
}

impl DatagramView {
    /// What the datagram means: an audio message from its sender, or the
    /// reason it is dropped.
    pub open spec fn decoded(self) -> Result<AudioMessageView, DecodeError> {
        decode_spec(self.bytes, self.from)
    }
}

/// What the ingestion stage wakes up to.
#[derive(Clone, Debug, PartialEq, Eq)]
pub enum IngestEvent {
    /// A datagram has arrived.
    Received(Datagram),
    /// Reading from the socket has failed.
    SocketClosed,
    /// The stage is asked to stop.
    Shutdown,
}

/// What the ingestion stage does about an event.
#[derive(Clone, Debug, PartialEq, Eq)]
pub enum IngestAction {
    /// Hand the message to the mixing stage.
    Forward(AudioMessage),
    /// Drop the datagram, for the reason given, and go on.
    Discard(DecodeError),
    /// Stop.
    Halt(StopCause),
}

/// Mathematical value of an [`IngestAction`].
pub ghost enum IngestActionView {
    Forward(AudioMessageView),
    Discard(DecodeError),
    Halt(StopCause),
}

impl View for IngestAction {
    type V = IngestActionView;

    open spec fn view(&self) -> IngestActionView {
        match self {
            IngestAction::Forward(message) => IngestActionView::Forward(message@),
            IngestAction::Discard(e) => IngestActionView::Discard(*e),
            IngestAction::Halt(cause) => IngestActionView::Halt(*cause),
        }
    }
}

/// How handling one event ended.
#[derive(Clone, Copy, Debug, PartialEq, Eq, Hash, Structural)]
pub enum IngestReport {
    /// The message is on its way to the mixing stage.
    Forwarded,
    /// The datagram was dropped, for the reason given.
    Dropped(DecodeError),
    /// The stage must stop.
    Stopped(StopCause),
}

impl IngestReport {
    /// What the report asks of the stage.
    pub open spec fn verdict_spec(self) -> Verdict {
        match self {
            IngestReport::Forwarded => Verdict::Continue,
            IngestReport::Dropped(_) => Verdict::Continue,
            IngestReport::Stopped(cause) => Verdict::Stop(cause),
        }
    }

    /// What the report asks of the stage: a dropped datagram never stops it.
    pub fn verdict(self) -> (verdict: Verdict)
        ensures
            verdict == self.verdict_spec(),
    {
        match self {
            IngestReport::Forwarded => Verdict::Continue,
            IngestReport::Dropped(_) => Verdict::Continue,
            IngestReport::Stopped(cause) => Verdict::Stop(cause),
        }
    }
}

/// The action that answers `event`.
pub open spec fn plan_ingest_spec(event: IngestEvent) -> IngestActionView {
    match event {
        IngestEvent::Received(datagram) => match datagram@.decoded() {
            Ok(message) => IngestActionView::Forward(message),
            Err(e) => IngestActionView::Discard(e),
        },
        IngestEvent::SocketClosed => IngestActionView::Halt(StopCause::SocketClosed),
        IngestEvent::Shutdown => IngestActionView::Halt(StopCause::Shutdown),
    }
}

/// The report on a message that was offered to the mixing stage with
/// `outcome`.
pub open spec fn settle_ingest_spec(outcome: SendOutcome) -> IngestReport {
    match outcome {
        SendOutcome::Delivered => IngestReport::Forwarded,
        SendOutcome::Full => IngestReport::Stopped(StopCause::ChannelFull),
        SendOutcome::Disconnected => IngestReport::Stopped(StopCause::ChannelClosed),
    }
}

/// Decides what to do about `event`.
///
/// A datagram is decoded: an audio message is forwarded, tagged with the
/// datagram's sender; anything else is discarded with the reason. The loss
/// of the socket and a request to stop halt the stage.
pub fn plan_ingest(event: &IngestEvent) -> (action: IngestAction)
    ensures
        action@ == plan_ingest_spec(*event),
{
    match event {
        IngestEvent::Received(datagram) => match decode(datagram.bytes.as_slice(), datagram.from) {
            Ok(message) => IngestAction::Forward(message),
            Err(e) => IngestAction::Discard(e),
        },
        IngestEvent::SocketClosed => IngestAction::Halt(StopCause::SocketClosed),
        IngestEvent::Shutdown => IngestAction::Halt(StopCause::Shutdown),
    }
}

/// Reports on a message that was offered to the mixing stage: a queue that
/// is full or has lost its receiver stops the stage.
pub fn settle_ingest(outcome: SendOutcome) -> (report: IngestReport)
    ensures
        report == settle_ingest_spec(outcome),
        report.verdict_spec() == outcome.verdict_spec(),
{
    match outcome {
        SendOutcome::Delivered => IngestReport::Forwarded,
        SendOutcome::Full => IngestReport::Stopped(StopCause::ChannelFull),
        SendOutcome::Disconnected => IngestReport::Stopped(StopCause::ChannelClosed),
    }
}

/// Handles one event: decides with [`plan_ingest`], offers a message that is
/// to be forwarded to `queue`, and reports with [`settle_ingest`].
///
/// Whether the queue takes the message is decided at its other end.
/// Whatever it does: a datagram that does not decode is reported as dropped,
/// with its reason, and never stops the stage; a datagram that decodes is
/// reported as forwarded unless the queue is full or closed; and the stage
/// is stopped by nothing but the socket, the queue or a request.
pub fn ingest(queue: &flume::Sender<AudioMessage>, event: &IngestEvent) -> (report: IngestReport)
    ensures
        match plan_ingest_spec(*event) {
            IngestActionView::Forward(_) => report == IngestReport::Forwarded || report
                == IngestReport::Stopped(StopCause::ChannelFull) || report
                == IngestReport::Stopped(StopCause::ChannelClosed),
            IngestActionView::Discard(e) => report == IngestReport::Dropped(e),
            IngestActionView::Halt(cause) => report == IngestReport::Stopped(cause),
        },
        plan_ingest_spec(*event) is Discard ==> report.verdict_spec() == Verdict::Continue,
{
    match plan_ingest(event) {
        IngestAction::Forward(message) => {
            let outcome = offer(queue, message);
            settle_ingest(outcome)
        },
        IngestAction::Discard(e) => IngestReport::Dropped(e),
        IngestAction::Halt(cause) => IngestReport::Stopped(cause),
    }
}

/// Only audio frames pass ingestion. What is forwarded came in a datagram
/// that starts with the magic and the audio message type and whose payload
/// is readable audio; and the message forwarded is that payload, whole,
/// tagged with the sender of the datagram.
pub proof fn lemma_only_audio_frames_are_forwarded(event: IngestEvent)
    requires
        plan_ingest_spec(event) is Forward,
    ensures
        event matches IngestEvent::Received(datagram) && has_audio_header(datagram@.bytes)
            && payload_well_formed(payload_of(datagram@.bytes)) && plan_ingest_spec(event)
            == IngestActionView::Forward(
            AudioMessageView {
                peer_address: datagram.from,
                payload: payload_of(datagram@.bytes),
                sequence_hint: None,
            },
        ),
{
}

} // verus!
