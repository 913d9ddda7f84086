//! The unit of audio that moves between the stages.

use vstd::prelude::*;
use crate::peer::PeerAddress;

verus! {

/// One decoded audio fragment, tagged with the peer it came from or goes to.
///
/// A message is owned by one stage at a time: it is moved, never shared.
/// The payload is schema-encoded audio that the pipeline carries unread.
#[derive(Clone, Debug, PartialEq, Eq)]
pub struct AudioMessage {
    /// Origin of an inbound message, destination of an outbound one.
    pub peer_address: PeerAddress,
    /// Schema-encoded audio.
    pub payload: Vec<u8>,
    /// Position of the fragment in its stream, where the sender is known to
    /// count; carried along, never acted on.
    pub sequence_hint: Option<u64>,
}

/// Mathematical value of an [`AudioMessage`].
pub ghost struct AudioMessageView {
    pub peer_address: PeerAddress,
    pub payload: Seq<u8>,
    pub sequence_hint: Option<u64>,
}

impl View for AudioMessage {
    type V = AudioMessageView;

    open spec fn view(&self) -> AudioMessageView {
        AudioMessageView {
            peer_address: self.peer_address,
            payload: self.payload@,
            sequence_hint: self.sequence_hint,
        }
    }
}

impl AudioMessageView {
    /// The same audio, addressed to `peer`.
    pub open spec fn addressed_to(self, peer: PeerAddress) -> AudioMessageView {
        AudioMessageView { peer_address: peer, ..self }
    }
}

impl AudioMessage {
    /// A message from or for `peer_address` with no sequence hint.
    pub fn new(peer_address: PeerAddress, payload: Vec<u8>) -> (message: AudioMessage)
        ensures
            message@ == (AudioMessageView {
                peer_address,
                payload: payload@,
                sequence_hint: None,
            }),
    {
        AudioMessage { peer_address, payload, sequence_hint: None }
    }

    /// A copy of this message addressed to `peer`.
    pub fn addressed_to(&self, peer: PeerAddress) -> (copy: AudioMessage)
        ensures
            copy@ == self@.addressed_to(peer),
    {
        let payload = self.payload.clone();
        AudioMessage { peer_address: peer, payload, sequence_hint: self.sequence_hint }
    }
}

/// The views of a sequence of messages.
pub open spec fn views(messages: Seq<AudioMessage>) -> Seq<AudioMessageView> {
    messages.map_values(|message: AudioMessage| message@)
}

} // verus!
