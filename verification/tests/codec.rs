use rumix::codec::{
    decode, encode, message_of_payload, message_type_of, split_frame, DecodeError, EncodeError,
    AUDIO_PACKET, HEADER_LEN, MAGIC_0, MAGIC_1, MAGIC_2, MAGIC_LEN, MAX_DATAGRAM_LEN,
    MAX_PAYLOAD_LEN,
};
use rumix::message::AudioMessage;
use rumix::peer::PeerAddress;
use rumix::schema::payload_is_well_formed;

fn peer_a() -> PeerAddress {
    PeerAddress::V4 { ip: 0x0A00_0001, port: 9000 }
}

fn peer_b() -> PeerAddress {
    PeerAddress::V6 { ip: 1, port: 7778, flowinfo: 0, scope_id: 0 }
}

/// The smallest buffer with a root table: root offset 8, a vtable of four
/// bytes at 4, an empty table at 8.
fn silence() -> Vec<u8> {
    vec![8, 0, 0, 0, 4, 0, 4, 0, 4, 0, 0, 0]
}

fn framed(payload: &[u8]) -> Vec<u8> {
    let mut frame = vec![b'1', b'2', b'3', 1];
    frame.extend_from_slice(payload);
    frame
}

#[test]
fn wire_constants_have_their_values() {
    assert_eq!([MAGIC_0, MAGIC_1, MAGIC_2], [b'1', b'2', b'3']);
    assert_eq!(AUDIO_PACKET, 1);
    assert_eq!(MAGIC_LEN, 3);
    assert_eq!(HEADER_LEN, 4);
    assert_eq!(MAX_DATAGRAM_LEN, 1024);
    assert_eq!(MAX_PAYLOAD_LEN, 1020);
    assert_eq!(HEADER_LEN + MAX_PAYLOAD_LEN, MAX_DATAGRAM_LEN);
}

#[test]
fn empty_table_is_well_formed() {
    assert!(payload_is_well_formed(&silence()));
}

#[test]
fn built_table_is_well_formed() {
    let mut builder = flatbuffers::FlatBufferBuilder::new();
    let start = builder.start_table();
    builder.push_slot::<u32>(4, 48_000, 0);
    builder.push_slot::<u16>(6, 2, 0);
    let table = builder.end_table(start);
    builder.finish_minimal(table);
    let payload = builder.finished_data().to_vec();
    assert!(payload_is_well_formed(&payload));
    let decoded = decode(&framed(&payload), peer_a());
    assert_eq!(decoded, Ok(AudioMessage::new(peer_a(), payload)));
}

#[test]
fn empty_payload_is_not_well_formed() {
    assert!(!payload_is_well_formed(&[]));
}

#[test]
fn short_payload_is_not_well_formed() {
    assert!(!payload_is_well_formed(&[8, 0, 0]));
}

#[test]
fn root_offset_out_of_bounds_is_not_well_formed() {
    assert!(!payload_is_well_formed(&[64, 0, 0, 0, 4, 0, 4, 0, 4, 0, 0, 0]));
}

#[test]
fn unaligned_root_offset_is_not_well_formed() {
    assert!(!payload_is_well_formed(&[0xFF, 0xFF, 0xFF, 0xFF, 0xFF, 0xFF, 0xFF, 0xFF]));
}

#[test]
fn vtable_out_of_bounds_is_not_well_formed() {
    // the table at 8 points 64 bytes forward for its vtable
    assert!(!payload_is_well_formed(&[8, 0, 0, 0, 4, 0, 4, 0, 0xC0, 0xFF, 0xFF, 0xFF]));
}

#[test]
fn vtable_longer_than_buffer_is_not_well_formed() {
    assert!(!payload_is_well_formed(&[8, 0, 0, 0, 64, 0, 4, 0, 4, 0, 0, 0]));
}

#[test]
fn trailing_bytes_do_not_spoil_a_payload() {
    let mut payload = silence();
    payload.extend_from_slice(&[0, 0, 0, 0]);
    assert!(payload_is_well_formed(&payload));
}

#[test]
fn decode_accepts_audio_frame() {
    let decoded = decode(&framed(&silence()), peer_a());
    assert_eq!(
        decoded,
        Ok(AudioMessage { peer_address: peer_a(), payload: silence(), sequence_hint: None })
    );
}

#[test]
fn decode_tags_message_with_sender() {
    let decoded = decode(&framed(&silence()), peer_b()).unwrap();
    assert_eq!(decoded.peer_address, peer_b());
    assert_ne!(decoded.peer_address, peer_a());
}

#[test]
fn decode_rejects_empty_buffer() {
    assert_eq!(decode(&[], peer_a()), Err(DecodeError::BadMagic));
}

#[test]
fn decode_rejects_buffer_shorter_than_magic() {
    assert_eq!(decode(&[b'1'], peer_a()), Err(DecodeError::BadMagic));
    assert_eq!(decode(&[b'1', b'2'], peer_a()), Err(DecodeError::BadMagic));
}

#[test]
fn decode_rejects_each_wrong_magic_byte() {
    let good = framed(&silence());
    for i in 0..3 {
        let mut bad = good.clone();
        bad[i] = b'9';
        assert_eq!(decode(&bad, peer_a()), Err(DecodeError::BadMagic));
    }
}

#[test]
fn decode_checks_magic_before_type_and_payload() {
    assert_eq!(decode(&[b'3', b'2', b'1', 7, 0xFF], peer_a()), Err(DecodeError::BadMagic));
}

#[test]
fn decode_rejects_magic_without_type() {
    assert_eq!(decode(&[b'1', b'2', b'3'], peer_a()), Err(DecodeError::UnknownType));
}

#[test]
fn decode_rejects_unknown_types() {
    let mut frame = framed(&silence());
    for message_type in [0u8, 2, 3, 0x31, 0xFF] {
        frame[3] = message_type;
        assert_eq!(decode(&frame, peer_a()), Err(DecodeError::UnknownType));
    }
}

#[test]
fn decode_checks_type_before_payload() {
    assert_eq!(decode(&[b'1', b'2', b'3', 2, 0xFF, 0xFF], peer_a()), Err(DecodeError::UnknownType));
}

#[test]
fn decode_rejects_header_without_payload() {
    assert_eq!(decode(&[b'1', b'2', b'3', 1], peer_a()), Err(DecodeError::MalformedPayload));
}

#[test]
fn decode_rejects_corrupted_payload() {
    let mut payload = silence();
    payload[0] = 0xF0;
    assert_eq!(decode(&framed(&payload), peer_a()), Err(DecodeError::MalformedPayload));
}

#[test]
fn decode_leaves_input_untouched() {
    let frame = framed(&silence());
    let copy = frame.clone();
    let _ = decode(&frame, peer_a());
    assert_eq!(frame, copy);
}

#[test]
fn split_frame_hands_out_payload() {
    let frame = framed(&[9, 8, 7]);
    assert_eq!(split_frame(&frame), Ok(&[9u8, 8, 7][..]));
    assert_eq!(split_frame(&[b'1', b'2', b'3', 1]), Ok(&[][..]));
}

#[test]
fn split_frame_reports_header_faults() {
    assert_eq!(split_frame(&[]), Err(DecodeError::BadMagic));
    assert_eq!(split_frame(&[b'1', b'2', b'4', 1]), Err(DecodeError::BadMagic));
    assert_eq!(split_frame(&[b'1', b'2', b'3']), Err(DecodeError::UnknownType));
    assert_eq!(split_frame(&[b'1', b'2', b'3', 0]), Err(DecodeError::UnknownType));
}

#[test]
fn message_of_payload_goes_by_the_verdict() {
    assert_eq!(
        message_of_payload(&[1, 2, 3], peer_a(), true),
        Ok(AudioMessage { peer_address: peer_a(), payload: vec![1, 2, 3], sequence_hint: None })
    );
    assert_eq!(message_of_payload(&[1, 2, 3], peer_a(), false), Err(DecodeError::MalformedPayload));
    assert_eq!(message_of_payload(&silence(), peer_a(), false), Err(DecodeError::MalformedPayload));
}

#[test]
fn encode_writes_header_then_payload() {
    let message = AudioMessage::new(peer_a(), silence());
    assert_eq!(
        encode(&message),
        Ok(vec![0x31, 0x32, 0x33, 0x01, 8, 0, 0, 0, 4, 0, 4, 0, 4, 0, 0, 0])
    );
}

#[test]
fn encode_of_empty_payload_is_the_header() {
    let message = AudioMessage::new(peer_a(), Vec::new());
    assert_eq!(encode(&message), Ok(vec![b'1', b'2', b'3', 1]));
}

#[test]
fn encode_ignores_destination_and_hint() {
    let plain = AudioMessage::new(peer_a(), silence());
    let other =
        AudioMessage { peer_address: peer_b(), payload: silence(), sequence_hint: Some(77) };
    assert_eq!(encode(&plain), encode(&other));
}

#[test]
fn encode_takes_largest_payload() {
    let message = AudioMessage::new(peer_a(), vec![0xAB; 1020]);
    let frame = encode(&message).unwrap();
    assert_eq!(frame.len(), 1024);
    assert_eq!(&frame[..4], &[b'1', b'2', b'3', 1]);
    assert_eq!(&frame[4..], &vec![0xAB; 1020][..]);
}

#[test]
fn encode_refuses_payload_one_byte_too_long() {
    let message = AudioMessage::new(peer_a(), vec![0xAB; 1021]);
    assert_eq!(encode(&message), Err(EncodeError::PayloadTooLarge));
}

#[test]
fn encode_refuses_large_payload() {
    let message = AudioMessage::new(peer_a(), vec![0; 65_536]);
    assert_eq!(encode(&message), Err(EncodeError::PayloadTooLarge));
}

#[test]
fn frame_round_trip() {
    let message = AudioMessage::new(peer_a(), silence());
    let frame = encode(&message).unwrap();
    assert_eq!(decode(&frame, peer_a()), Ok(message));
}

#[test]
fn frame_round_trip_of_padded_payload() {
    let mut payload = silence();
    payload.resize(1020, 0);
    let message = AudioMessage::new(peer_b(), payload);
    let frame = encode(&message).unwrap();
    assert_eq!(frame.len(), 1024);
    assert_eq!(decode(&frame, peer_b()), Ok(message));
}

#[test]
fn frame_round_trip_drops_the_hint() {
    let message =
        AudioMessage { peer_address: peer_a(), payload: silence(), sequence_hint: Some(5) };
    let back = decode(&encode(&message).unwrap(), peer_a()).unwrap();
    assert_eq!(back.peer_address, message.peer_address);
    assert_eq!(back.payload, message.payload);
    assert_eq!(back.sequence_hint, None);
}

#[test]
fn decoded_frame_is_reproduced() {
    let frame = framed(&silence());
    let message = decode(&frame, peer_a()).unwrap();
    assert_eq!(encode(&message), Ok(frame));
}

#[test]
fn message_is_readdressed_with_its_audio() {
    let message =
        AudioMessage { peer_address: peer_a(), payload: silence(), sequence_hint: Some(3) };
    let copy = message.addressed_to(peer_b());
    assert_eq!(
        copy,
        AudioMessage { peer_address: peer_b(), payload: silence(), sequence_hint: Some(3) }
    );
    assert_eq!(message.peer_address, peer_a());
}

#[test]
fn message_type_is_the_fourth_byte() {
    assert_eq!(message_type_of(&[]), None);
    assert_eq!(message_type_of(&[b'1', b'2', b'3']), None);
    assert_eq!(message_type_of(&[b'1', b'2', b'3', 1]), Some(1));
    assert_eq!(message_type_of(&[0, 0, 0, 200, 9]), Some(200));
}
