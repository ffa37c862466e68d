use bytes::BytesMut;
use vpad_core::message::Message;
use vpad_core::message_codec::{
    MessageCodec, MessageCodecError, MALFORMED_MESSAGE, OVERSIZED_STRING, UNSUPPORTED_MESSAGE,
};

fn buffer(bytes: &[u8]) -> BytesMut {
    BytesMut::from(bytes)
}

fn decode_one(bytes: &[u8]) -> (Result<Option<Message>, MessageCodecError>, Vec<u8>) {
    let mut src = buffer(bytes);
    let r = MessageCodec.decode(&mut src);
    (r, src.to_vec())
}

#[test]
fn decodes_one_handshake_frame_and_leaves_nothing() {
    let (r, rest) = decode_one(&[0, 5, 1, 1, b'A', 1, b'B']);
    match r {
        Ok(Some(Message::HandShake { name, platform })) => {
            assert_eq!(name, "A");
            assert_eq!(platform, "B");
        }
        other => panic!("unexpected {:?}", other),
    }
    assert!(rest.is_empty());
}

#[test]
fn incomplete_payload_leaves_the_buffer_unmodified() {
    // the header declares 5 bytes, 3 are there
    let bytes = [0u8, 5, 1, 1, b'A'];
    let (r, rest) = decode_one(&bytes);
    assert!(matches!(r, Ok(None)));
    assert_eq!(rest, bytes.to_vec());
}

#[test]
fn fewer_than_two_bytes_is_incomplete() {
    let (r, rest) = decode_one(&[]);
    assert!(matches!(r, Ok(None)));
    assert!(rest.is_empty());
    let (r, rest) = decode_one(&[0]);
    assert!(matches!(r, Ok(None)));
    assert_eq!(rest, vec![0]);
}

#[test]
fn a_frame_completes_when_its_last_byte_arrives() {
    let frame = [0u8, 4, 7, 64, 127, 1];
    let mut src = BytesMut::new();
    for (i, b) in frame.iter().enumerate() {
        src.extend_from_slice(&[*b]);
        let r = MessageCodec.decode(&mut src);
        if i + 1 < frame.len() {
            assert!(matches!(r, Ok(None)));
            assert_eq!(src.len(), i + 1);
        } else {
            assert!(matches!(
                r,
                Ok(Some(Message::CC { channel: 64, value: 127, channel2: 1 }))
            ));
            assert_eq!(src.len(), 0);
        }
    }
}

#[test]
fn decodes_frames_one_after_another() {
    let mut src = buffer(&[0, 5, 2, 60, 100, 1, 3, 0, 4, 5, 10, 0, 2, 9]);
    assert!(matches!(
        MessageCodec.decode(&mut src),
        Ok(Some(Message::Midi { note: 60, velocity: 100, state: 1, channel: 3 }))
    ));
    assert_eq!(src.to_vec(), vec![0, 4, 5, 10, 0, 2, 9]);
    assert!(matches!(
        MessageCodec.decode(&mut src),
        Ok(Some(Message::PitchWheel { pos: 10, prev_pos: 0, channel: 2 }))
    ));
    assert_eq!(src.to_vec(), vec![9]);
    assert!(matches!(MessageCodec.decode(&mut src), Ok(None)));
    assert_eq!(src.to_vec(), vec![9]);
}

#[test]
fn decodes_an_arp_frame_with_its_16_bit_fields() {
    // dynamic_pct 150 = 0x0096, bpm 300 = 0x012C
    let (r, rest) = decode_one(&[0, 14, 3, 60, 100, 1, 3, 6, 20, 4, 1, 0x00, 0x96, 0x01, 0x2C, 2]);
    assert!(matches!(
        r,
        Ok(Some(Message::Arp {
            note: 60,
            velocity: 100,
            state: 1,
            method: 3,
            rate: 6,
            swing_pct: 20,
            up_note_cnt: 4,
            velocity_automation: 1,
            dynamic_pct: 150,
            bpm: 300,
            channel: 2,
        }))
    ));
    assert!(rest.is_empty());
}

#[test]
fn decodes_a_chord_frame() {
    // bpm 120 = 0x0078 follows the delay
    let (r, _) = decode_one(&[0, 11, 4, 60, 90, 1, 1, 2, 1, 50, 0x00, 0x78, 5]);
    assert!(matches!(
        r,
        Ok(Some(Message::Chord {
            note: 60,
            velocity: 90,
            state: 1,
            bpm: 120,
            chord_type: 1,
            chord_level: 2,
            transpose: 1,
            arp_delay: 50,
            channel: 5,
        }))
    ));
}

#[test]
fn decodes_control_and_track_frames() {
    let (r, _) = decode_one(&[0, 4, 8, 2, 1, 0]);
    assert!(matches!(
        r,
        Ok(Some(Message::ControlMessage { operation: 2, state: 1, auto_close: 0 }))
    ));
    let (r, _) = decode_one(&[0, 4, 9, 3, 2, 100]);
    assert!(matches!(r, Ok(Some(Message::TrackMessage { nth: 3, state: 2, value: 100 }))));
}

#[test]
fn bytes_are_read_as_signed() {
    // 0xFF is -1, 0x80 is -128; 0xFF38 is -200
    let (r, _) = decode_one(&[0, 5, 2, 0xFF, 0x80, 0, 1]);
    assert!(matches!(
        r,
        Ok(Some(Message::Midi { note: -1, velocity: -128, state: 0, channel: 1 }))
    ));
    let (r, _) = decode_one(&[0, 14, 3, 0, 0, 0, 0, 0, 0, 0, 0, 0xFF, 0x38, 0x80, 0x00, 0]);
    assert!(matches!(r, Ok(Some(Message::Arp { dynamic_pct: -200, bpm: -32768, .. }))));
}

#[test]
fn bytes_after_the_last_field_are_ignored() {
    let (r, rest) = decode_one(&[0, 6, 5, 1, 2, 3, 99, 98, 7]);
    assert!(matches!(r, Ok(Some(Message::PitchWheel { pos: 1, prev_pos: 2, channel: 3 }))));
    assert_eq!(rest, vec![7]);
}

#[test]
fn unknown_opcode_is_a_decode_error_and_the_frame_is_consumed() {
    let (r, rest) = decode_one(&[0, 2, 6, 0, 42]);
    match r {
        Err(MessageCodecError::DecodeError(text)) => assert_eq!(text, UNSUPPORTED_MESSAGE),
        other => panic!("unexpected {:?}", other),
    }
    assert_eq!(rest, vec![42]);
    let (r, _) = decode_one(&[0, 1, 0]);
    assert!(matches!(r, Err(MessageCodecError::DecodeError(t)) if t == UNSUPPORTED_MESSAGE));
    let (r, _) = decode_one(&[0, 1, 0xFF]);
    assert!(matches!(r, Err(MessageCodecError::DecodeError(t)) if t == UNSUPPORTED_MESSAGE));
}

#[test]
fn short_fields_are_a_malformed_message() {
    // a note message needs four fields
    let (r, rest) = decode_one(&[0, 4, 2, 60, 100, 1]);
    assert!(matches!(r, Err(MessageCodecError::DecodeError(t)) if t == MALFORMED_MESSAGE));
    assert!(rest.is_empty());
    // an empty payload has no operation code
    let (r, rest) = decode_one(&[0, 0, 1]);
    assert!(matches!(r, Err(MessageCodecError::DecodeError(t)) if t == MALFORMED_MESSAGE));
    assert_eq!(rest, vec![1]);
    // a handshake whose name claims more bytes than the payload has
    let (r, _) = decode_one(&[0, 3, 1, 5, b'A']);
    assert!(matches!(r, Err(MessageCodecError::DecodeError(t)) if t == MALFORMED_MESSAGE));
}

#[test]
fn a_string_that_is_not_utf8_is_a_malformed_message() {
    let (r, _) = decode_one(&[0, 5, 1, 1, 0xFF, 1, b'B']);
    assert!(matches!(r, Err(MessageCodecError::DecodeError(t)) if t == MALFORMED_MESSAGE));
}

#[test]
fn handshake_strings_may_be_empty_or_multibyte() {
    let (r, _) = decode_one(&[0, 3, 1, 0, 0]);
    match r {
        Ok(Some(Message::HandShake { name, platform })) => {
            assert_eq!(name, "");
            assert_eq!(platform, "");
        }
        other => panic!("unexpected {:?}", other),
    }
    let (r, _) = decode_one(&[0, 6, 1, 2, 0xC3, 0xA9, 1, b'x']);
    match r {
        Ok(Some(Message::HandShake { name, platform })) => {
            assert_eq!(name, "é");
            assert_eq!(platform, "x");
        }
        other => panic!("unexpected {:?}", other),
    }
}

#[test]
fn encodes_a_handshake_frame() {
    let mut dst = BytesMut::new();
    let r = MessageCodec.encode(
        Message::HandShake { name: "A".to_string(), platform: "B".to_string() },
        &mut dst,
    );
    assert!(r.is_ok());
    assert_eq!(dst.to_vec(), vec![0, 5, 1, 1, b'A', 1, b'B']);
}

#[test]
fn encode_appends_to_what_is_there() {
    let mut dst = buffer(&[9, 9]);
    let r = MessageCodec.encode(
        Message::HandShake { name: "VPadServer".to_string(), platform: "".to_string() },
        &mut dst,
    );
    assert!(r.is_ok());
    let mut expected = vec![9, 9, 0, 13, 1, 10];
    expected.extend_from_slice(b"VPadServer");
    expected.push(0);
    assert_eq!(dst.to_vec(), expected);
}

#[test]
fn encode_writes_nothing_for_inbound_messages() {
    let mut dst = BytesMut::new();
    let r = MessageCodec.encode(Message::Midi { note: 1, velocity: 2, state: 1, channel: 1 }, &mut dst);
    assert!(r.is_ok());
    assert!(dst.is_empty());
    let r = MessageCodec.encode(Message::TrackMessage { nth: 1, state: 2, value: 3 }, &mut dst);
    assert!(r.is_ok());
    assert!(dst.is_empty());
}

#[test]
fn encode_rejects_a_string_over_255_bytes() {
    let mut dst = buffer(&[7]);
    let r = MessageCodec.encode(
        Message::HandShake { name: "x".repeat(256), platform: "B".to_string() },
        &mut dst,
    );
    assert!(matches!(r, Err(MessageCodecError::EncodeError(t)) if t == OVERSIZED_STRING));
    assert_eq!(dst.to_vec(), vec![7]);
}

#[test]
fn encode_takes_a_string_of_exactly_255_bytes() {
    let mut dst = BytesMut::new();
    let name = "n".repeat(255);
    let platform = "p".repeat(255);
    let r = MessageCodec.encode(
        Message::HandShake { name: name.clone(), platform: platform.clone() },
        &mut dst,
    );
    assert!(r.is_ok());
    // payload: opcode, two length bytes, 510 bytes of text = 513 = 0x0201
    assert_eq!(dst.len(), 515);
    assert_eq!(&dst[0..4], &[2, 1, 1, 255]);
    match MessageCodec.decode(&mut dst) {
        Ok(Some(Message::HandShake { name: n, platform: p })) => {
            assert_eq!(n, name);
            assert_eq!(p, platform);
        }
        other => panic!("unexpected {:?}", other),
    }
    assert!(dst.is_empty());
}

#[test]
fn decode_inverts_encode() {
    let mut buf = BytesMut::new();
    let r = MessageCodec.encode(
        Message::HandShake { name: "VPadServer".to_string(), platform: "Windows x86 Rust".to_string() },
        &mut buf,
    );
    assert!(r.is_ok());
    buf.extend_from_slice(&[1, 2, 3]);
    match MessageCodec.decode(&mut buf) {
        Ok(Some(Message::HandShake { name, platform })) => {
            assert_eq!(name, "VPadServer");
            assert_eq!(platform, "Windows x86 Rust");
        }
        other => panic!("unexpected {:?}", other),
    }
    assert_eq!(buf.to_vec(), vec![1, 2, 3]);
}

#[test]
fn io_errors_become_codec_errors() {
    let e = std::io::Error::new(std::io::ErrorKind::UnexpectedEof, "eof");
    assert!(matches!(MessageCodecError::from(e), MessageCodecError::IOError(_)));
}

#[test]
fn largest_declared_payload_waits_for_all_of_it() {
    assert_eq!(MessageCodec::MAX_SIZE, 65535);
    let mut bytes = vec![0xFF, 0xFF, 2, 1, 2, 3, 4];
    let (r, rest) = decode_one(&bytes);
    assert!(matches!(r, Ok(None)));
    assert_eq!(rest, bytes);
    bytes.resize(2 + 65535, 0);
    let (r, rest) = decode_one(&bytes);
    assert!(matches!(r, Ok(Some(Message::Midi { note: 1, velocity: 2, state: 3, channel: 4 }))));
    assert!(rest.is_empty());
}
