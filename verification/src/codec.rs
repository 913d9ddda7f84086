//! The wire frame: three bytes of magic, one byte of message type, then the
//! payload.
//!
//! | offset | size     | field        |
//! |--------|----------|--------------|
//! | 0      | 3        | magic `123`  |
//! | 3      | 1        | message type |
//! | 4      | the rest | payload      |

use vstd::prelude::*;
use vstd::slice::{slice_subrange, slice_to_vec};
use crate::message::{AudioMessage, AudioMessageView};
use crate::peer::PeerAddress;
use crate::schema::{payload_is_well_formed, payload_well_formed};

verus! {

/// First byte of every frame, the character `1`.
pub const MAGIC_0: u8 = 0x31;

/// Second byte of every frame, the character `2`.
pub const MAGIC_1: u8 = 0x32;

/// Third byte of every frame, the character `3`.
pub const MAGIC_2: u8 = 0x33;

/// The message type of an audio packet, the only type in use.
pub const AUDIO_PACKET: u8 = 1;

/// Bytes of magic at the start of a frame.
pub const MAGIC_LEN: usize = 3;

/// Bytes before the payload: magic and message type.
pub const HEADER_LEN: usize = 4;

/// The largest frame that is sent or expected in one datagram.
pub const MAX_DATAGRAM_LEN: usize = 1024;

/// The largest payload that fits a frame of [`MAX_DATAGRAM_LEN`] bytes.
pub const MAX_PAYLOAD_LEN: usize = 1020;

/// Why a datagram was not taken as an audio message.
#[derive(Clone, Copy, Debug, PartialEq, Eq, Hash, Structural)]
pub enum DecodeError {
    /// The first three bytes are not the magic, or are not all there.
    BadMagic,
    /// The magic is right, but the message type is not one in use, or the
    /// frame ends before it.
    UnknownType,
    /// The header is right, but the payload is not readable audio.
    MalformedPayload,
}

/// Why a message was not framed.
#[derive(Clone, Copy, Debug, PartialEq, Eq, Hash, Structural)]
pub enum EncodeError {
    /// The payload is longer than [`MAX_PAYLOAD_LEN`]: the frame would not
    /// fit one datagram. Nothing is cut off to make it fit.
    PayloadTooLarge,
}

/// The three bytes of magic.
pub open spec fn magic() -> Seq<u8> {
    seq![MAGIC_0, MAGIC_1, MAGIC_2]
}

/// The four bytes that start every audio frame.
pub open spec fn audio_header() -> Seq<u8> {
    seq![MAGIC_0, MAGIC_1, MAGIC_2, AUDIO_PACKET]
}

/// Whether `bytes` starts with the magic.
pub open spec fn has_magic(bytes: Seq<u8>) -> bool {
    bytes.len() >= MAGIC_LEN && bytes.subrange(0, MAGIC_LEN as int) == magic()
}

/// The message type of a frame, if the frame is long enough to hold one.
pub open spec fn message_type(bytes: Seq<u8>) -> Option<u8> {
    if bytes.len() >= HEADER_LEN {
        Some(bytes[3])
    } else {
        None
    }
}

/// Whether `bytes` starts with the header of an audio packet.
pub open spec fn has_audio_header(bytes: Seq<u8>) -> bool {
    has_magic(bytes) && message_type(bytes) == Some(AUDIO_PACKET)
}

/// What follows the header.
pub open spec fn payload_of(bytes: Seq<u8>) -> Seq<u8>
    recommends
        bytes.len() >= HEADER_LEN,
{
    bytes.subrange(HEADER_LEN as int, bytes.len() as int)
}

/// What the header of `bytes` says: the payload of an audio packet, or the
/// reason there is none.
pub open spec fn split_frame_spec(bytes: Seq<u8>) -> Result<Seq<u8>, DecodeError> {
    if !has_magic(bytes) {
        Err(DecodeError::BadMagic)
    } else if message_type(bytes) != Some(AUDIO_PACKET) {
        Err(DecodeError::UnknownType)
    } else {
        Ok(payload_of(bytes))
    }
}

/// The message that a payload from `from` becomes, given whether the payload
/// is readable audio.
pub open spec fn message_of_payload_spec(
    payload: Seq<u8>,
    from: PeerAddress,
    well_formed: bool,
) -> Result<AudioMessageView, DecodeError> {
    if well_formed {
        Ok(AudioMessageView { peer_address: from, payload, sequence_hint: None })
    } else {
        Err(DecodeError::MalformedPayload)
    }
}

/// What a datagram from `from` means: an audio message, or the reason it is
/// dropped.
pub open spec fn decode_spec(bytes: Seq<u8>, from: PeerAddress) -> Result<
    AudioMessageView,
    DecodeError,
> {
    match split_frame_spec(bytes) {
        Err(e) => Err(e),
        Ok(payload) => message_of_payload_spec(payload, from, payload_well_formed(payload)),
    }
}

/// The frame that carries `payload`, or the reason there is none.
pub open spec fn encode_spec(payload: Seq<u8>) -> Result<Seq<u8>, EncodeError> {
    if payload.len() <= MAX_PAYLOAD_LEN {
        Ok(audio_header() + payload)
    } else {
        Err(EncodeError::PayloadTooLarge)
    }
}

/// The message type that a frame names, if the frame is long enough to name
/// one. The magic is not looked at.
pub fn message_type_of(bytes: &[u8]) -> (r: Option<u8>)
    ensures
        r == message_type(bytes@),
{
    if bytes.len() >= HEADER_LEN {
        Some(bytes[3])
    } else {
        None
    }
}

/// Checks the header of a frame and hands out its payload.
///
/// The magic is checked first; a frame too short to hold it has bad magic. A
/// frame with the right magic that ends before the message type has no type
/// in use.
pub fn split_frame(bytes: &[u8]) -> (r: Result<&[u8], DecodeError>)
    ensures
        match r {
            Ok(payload) => split_frame_spec(bytes@) == Ok::<Seq<u8>, DecodeError>(payload@),
            Err(e) => split_frame_spec(bytes@) == Err::<Seq<u8>, DecodeError>(e),
        },
{
    if bytes.len() < MAGIC_LEN || bytes[0] != MAGIC_0 || bytes[1] != MAGIC_1 || bytes[2]
        != MAGIC_2 {
        assert(!has_magic(bytes@)) by {
            if bytes@.len() >= MAGIC_LEN {
                let head = bytes@.subrange(0, MAGIC_LEN as int);
                assert(head[0] != magic()[0] || head[1] != magic()[1] || head[2] != magic()[2]);
            }
        }
        return Err(DecodeError::BadMagic);
    }
    assert(bytes@.subrange(0, MAGIC_LEN as int) =~= magic());
    match message_type_of(bytes) {
        Some(AUDIO_PACKET) => Ok(slice_subrange(bytes, HEADER_LEN, bytes.len())),
        _ => Err(DecodeError::UnknownType),
    }
}

/// Makes the message of a payload whose header was accepted, once it is known
/// whether the payload is readable audio.
pub fn message_of_payload(payload: &[u8], from: PeerAddress, well_formed: bool) -> (r: Result<
    AudioMessage,
    DecodeError,
>)
    ensures
        match r {
            Ok(message) => message_of_payload_spec(payload@, from, well_formed) == Ok::<
                AudioMessageView,
                DecodeError,
            >(message@),
            Err(e) => message_of_payload_spec(payload@, from, well_formed) == Err::<
                AudioMessageView,
                DecodeError,
            >(e),
        },
{
    if well_formed {
        Ok(AudioMessage::new(from, slice_to_vec(payload)))
    } else {
        Err(DecodeError::MalformedPayload)
    }
}

/// Reads one datagram from `from`.
///
/// Returns the audio message it carries, or the first thing wrong with it:
/// the magic, then the message type, then the payload. The input is only
/// read; a buffer of any length and content gets an answer.
pub fn decode(bytes: &[u8], from: PeerAddress) -> (r: Result<AudioMessage, DecodeError>)
    ensures
        match r {
            Ok(message) => decode_spec(bytes@, from) == Ok::<AudioMessageView, DecodeError>(
                message@,
            ),
            Err(e) => decode_spec(bytes@, from) == Err::<AudioMessageView, DecodeError>(e),
        },
        !has_magic(bytes@) ==> r == Err::<AudioMessage, DecodeError>(DecodeError::BadMagic),
        has_magic(bytes@) && message_type(bytes@) != Some(AUDIO_PACKET) ==> r == Err::<
            AudioMessage,
            DecodeError,
        >(DecodeError::UnknownType),
{
    match split_frame(bytes) {
        Err(e) => Err(e),
        Ok(payload) => {
            let well_formed = payload_is_well_formed(payload);
            message_of_payload(payload, from, well_formed)
        },
    }
}

/// Frames a message for the wire: the magic, the audio message type, then the
/// payload, unchanged and whole.
///
/// A payload longer than [`MAX_PAYLOAD_LEN`] is refused, not cut. The
/// destination and the sequence hint are not part of the frame.
pub fn encode(message: &AudioMessage) -> (r: Result<Vec<u8>, EncodeError>)
    ensures
        match r {
            Ok(frame) => encode_spec(message@.payload) == Ok::<Seq<u8>, EncodeError>(frame@),
            Err(e) => encode_spec(message@.payload) == Err::<Seq<u8>, EncodeError>(e),
        },
{
    if message.payload.len() > MAX_PAYLOAD_LEN {
        return Err(EncodeError::PayloadTooLarge);
    }
    let mut frame: Vec<u8> = Vec::with_capacity(HEADER_LEN + message.payload.len());
    frame.push(MAGIC_0);
    frame.push(MAGIC_1);
    frame.push(MAGIC_2);
    frame.push(AUDIO_PACKET);
    frame.extend_from_slice(message.payload.as_slice());
    assert(frame@ =~= audio_header() + message@.payload);
    Ok(frame)
}

/// Framing round trip. A message whose payload is readable audio and fits a
/// frame is framed, and its frame, read as a datagram from the message's own
/// peer, gives the same peer and the same payload back. The sequence hint is
/// not on the wire: the message read back has none.
pub proof fn lemma_frame_round_trip(message: AudioMessageView)
    requires
        message.payload.len() <= MAX_PAYLOAD_LEN,
        payload_well_formed(message.payload),
    ensures
        encode_spec(message.payload) matches Ok(frame) && decode_spec(frame, message.peer_address)
            == Ok::<AudioMessageView, DecodeError>(
            AudioMessageView { sequence_hint: None, ..message },
        ),
{
    let frame = audio_header() + message.payload;
    assert(frame.subrange(0, MAGIC_LEN as int) =~= magic());
    assert(payload_of(frame) =~= message.payload);
}

/// A datagram that was taken as an audio message is the frame of that
/// message: framing what was decoded gives the datagram back, byte for byte,
/// as long as the datagram is no longer than [`MAX_DATAGRAM_LEN`].
pub proof fn lemma_decoded_frame_is_reproduced(bytes: Seq<u8>, from: PeerAddress)
    requires
        bytes.len() <= MAX_DATAGRAM_LEN,
        decode_spec(bytes, from) is Ok,
    ensures
        decode_spec(bytes, from) matches Ok(message) && message.peer_address == from
            && encode_spec(message.payload) == Ok::<Seq<u8>, EncodeError>(bytes),
{
    assert(bytes =~= audio_header() + payload_of(bytes));
}

/// Bad magic is inert: a buffer that does not start with the magic is never
/// an audio message, whoever sent it and whatever follows.
pub proof fn lemma_bad_magic_is_rejected(bytes: Seq<u8>, from: PeerAddress)
    requires
        !has_magic(bytes),
    ensures
        decode_spec(bytes, from) == Err::<AudioMessageView, DecodeError>(DecodeError::BadMagic),
{
}

/// A frame with the right magic and a message type that is not in use is
/// never an audio message.
pub proof fn lemma_unknown_type_is_rejected(bytes: Seq<u8>, from: PeerAddress)
    requires
        has_magic(bytes),
        message_type(bytes) != Some(AUDIO_PACKET),
    ensures
        decode_spec(bytes, from) == Err::<AudioMessageView, DecodeError>(
            DecodeError::UnknownType,
        ),
{
}

} // verus!
