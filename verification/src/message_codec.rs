//! Framing of the wire protocol: a frame is a big-endian 16-bit payload
//! length, then the payload, whose first byte is the operation code.

use crate::constants::{
    ARP_OP, CC_OP, CHORD_OP, CONTROL_OP, HANDSHAKE_OP, MIDI_OP, PITCHWHEEL_OP, TRACK_OP,
};
use crate::message::{Message, MessageView};
use bytes::{Buf, BufMut, BytesMut};
use vstd::prelude::*;
use vstd::utf8::{decode_utf8, encode_utf8, valid_utf8};

verus! {

/// The byte buffer of the `bytes` crate. What it holds is [`buffered`].
#[verifier::external_type_specification]
#[verifier::external_body]
pub struct ExBytesMut(bytes::BytesMut);

/// The error of std's input and output, carried through unread.
#[verifier::external_type_specification]
#[verifier::external_body]
pub struct ExIoError(std::io::Error);

/// The error of `String::from_utf8`, carried through unread.
#[verifier::external_type_specification]
#[verifier::external_body]
pub struct ExFromUtf8Error(std::string::FromUtf8Error);

/// The bytes that a buffer holds, the next one to be read first.
pub uninterp spec fn buffered(buf: BytesMut) -> Seq<u8>;

/// A byte read as a signed 8-bit integer in two's complement.
pub open spec fn byte_to_i8(b: u8) -> i8 {
    if b < 128 {
        b as i8
    } else {
        (b as int - 256) as i8
    }
}

/// The byte that holds a signed 8-bit integer in two's complement.
pub open spec fn i8_to_byte(v: i8) -> u8 {
    if v >= 0 {
        v as u8
    } else {
        (v as int + 256) as u8
    }
}

/// Two bytes read as an unsigned big-endian integer.
pub open spec fn be_u16(hi: u8, lo: u8) -> u16 {
    (hi as int * 256 + lo as int) as u16
}

/// Two bytes read as a signed big-endian integer in two's complement.
pub open spec fn be_i16(hi: u8, lo: u8) -> i16 {
    let u = hi as int * 256 + lo as int;
    if u < 32768 {
        u as i16
    } else {
        (u - 65536) as i16
    }
}

/// The unsigned value whose sixteen bits hold `v` in two's complement.
pub open spec fn i16_bits(v: i16) -> int {
    if v >= 0 {
        v as int
    } else {
        v as int + 65536
    }
}

/// `BytesMut::len`: how many bytes the buffer holds.
#[verifier::external_body]
fn buf_len(buf: &BytesMut) -> (n: usize)
    ensures
        n == buffered(*buf).len(),
{
    buf.len()
}

/// Indexing a `BytesMut` through its `Deref` to a byte slice: the byte at
/// place `i`, the buffer unchanged.
#[verifier::external_body]
fn buf_byte_at(buf: &BytesMut, i: usize) -> (b: u8)
    requires
        i < buffered(*buf).len(),
    ensures
        b == buffered(*buf)[i as int],
{
    buf[i]
}

/// `Buf::advance` on a `BytesMut`: drops the first `cnt` bytes. It panics
/// past the end, which the precondition excludes.
#[verifier::external_body]
fn buf_advance(buf: &mut BytesMut, cnt: usize)
    requires
        cnt <= buffered(*old(buf)).len(),
    ensures
        buffered(*final(buf)) == buffered(*old(buf)).skip(cnt as int),
{
    buf.advance(cnt)
}

/// `BytesMut::split_to`: returns the first `at` bytes and leaves the rest. It
/// panics when `at` exceeds the length, which the precondition excludes.
#[verifier::external_body]
fn buf_split_to(buf: &mut BytesMut, at: usize) -> (head: BytesMut)
    requires
        at <= buffered(*old(buf)).len(),
    ensures
        buffered(head) == buffered(*old(buf)).take(at as int),
        buffered(*final(buf)) == buffered(*old(buf)).skip(at as int),
{
    buf.split_to(at)
}

/// `Buf::get_u8` on a `BytesMut`: takes the first byte off the buffer. It
/// panics on an empty buffer, which the precondition excludes.
#[verifier::external_body]
fn buf_get_u8(buf: &mut BytesMut) -> (b: u8)
    requires
        buffered(*old(buf)).len() >= 1,
    ensures
        b == buffered(*old(buf))[0],
        buffered(*final(buf)) == buffered(*old(buf)).skip(1),
{
    buf.get_u8()
}

/// `Buf::get_i8` on a `BytesMut`: takes the first byte off the buffer and
/// reads it as signed. It panics on an empty buffer, which the precondition
/// excludes.
#[verifier::external_body]
fn buf_get_i8(buf: &mut BytesMut) -> (v: i8)
    requires
        buffered(*old(buf)).len() >= 1,
    ensures
        v == byte_to_i8(buffered(*old(buf))[0]),
        buffered(*final(buf)) == buffered(*old(buf)).skip(1),
{
    buf.get_i8()
}

/// `Buf::get_i16` on a `BytesMut`: takes the first two bytes off the buffer
/// and reads them as a signed big-endian integer. It panics on fewer than two
/// bytes, which the precondition excludes.
#[verifier::external_body]
fn buf_get_i16(buf: &mut BytesMut) -> (v: i16)
    requires
        buffered(*old(buf)).len() >= 2,
    ensures
        v == be_i16(buffered(*old(buf))[0], buffered(*old(buf))[1]),
        buffered(*final(buf)) == buffered(*old(buf)).skip(2),
{
    buf.get_i16()
}

/// `BufMut::put_u8` on a `BytesMut`: appends one byte, growing the buffer as
/// needed.
#[verifier::external_body]
fn buf_put_u8(buf: &mut BytesMut, n: u8)
    ensures
        buffered(*final(buf)) == buffered(*old(buf)).push(n),
{
    buf.put_u8(n)
}

/// `BufMut::put_i8` on a `BytesMut`: appends the byte that holds `n` in two's
/// complement.
#[verifier::external_body]
fn buf_put_i8(buf: &mut BytesMut, n: i8)
    ensures
        buffered(*final(buf)) == buffered(*old(buf)).push(i8_to_byte(n)),
{
    buf.put_i8(n)
}

/// `BufMut::put_u16` on a `BytesMut`: appends the two bytes of `n`, the high
/// one first.
#[verifier::external_body]
fn buf_put_u16(buf: &mut BytesMut, n: u16)
    ensures
        buffered(*final(buf)) == buffered(*old(buf)).push((n / 256) as u8).push((n % 256) as u8),
{
    buf.put_u16(n)
}

/// `String::from_utf8`: succeeds exactly when the bytes are valid UTF-8, and
/// the string then consists of those very bytes.
#[verifier::external_body]
fn string_from_utf8(bytes: Vec<u8>) -> (r: Result<String, std::string::FromUtf8Error>)
    ensures
        r is Ok <==> valid_utf8(bytes@),
        r matches Ok(s) ==> encode_utf8(s@) == bytes@,
{
    String::from_utf8(bytes)
}

/// Why a complete frame could not be turned into a message.
pub const UNSUPPORTED_MESSAGE: &'static str = "Unsupportted Message";

pub const MALFORMED_MESSAGE: &'static str = "Malformed Message";

pub const OVERSIZED_STRING: &'static str = "String field longer than 255 bytes";

/// The codec of the protocol. It keeps no state between frames.
pub struct MessageCodec;

#[derive(Debug)]
pub enum MessageCodecError {
    IOError(std::io::Error),
    DecodeError(&'static str),
    EncodeError(&'static str),
}

impl From<std::io::Error> for MessageCodecError {
    fn from(value: std::io::Error) -> (e: Self) {
        MessageCodecError::IOError(value)
    }
}

impl vstd::std_specs::convert::FromSpecImpl<std::io::Error> for MessageCodecError {
    open spec fn obeys_from_spec() -> bool {
        true
    }

    open spec fn from_spec(value: std::io::Error) -> Self {
        MessageCodecError::IOError(value)
    }
}

/// A string field on the wire: one byte of length, then that many bytes of
/// UTF-8. Gives the string and what follows it, or nothing when the bytes run
/// out or are not UTF-8.
pub open spec fn parse_string(s: Seq<u8>) -> Option<(Seq<char>, Seq<u8>)> {
    if s.len() >= 1 && s[0] as int <= s.len() - 1 && valid_utf8(s.subrange(1, 1 + s[0] as int)) {
        Some((decode_utf8(s.subrange(1, 1 + s[0] as int)), s.skip(1 + s[0] as int)))
    } else {
        None
    }
}

/// The operation codes that stand for a message.
pub open spec fn opcode_is_known(op: i8) -> bool {
    op == HANDSHAKE_OP || op == MIDI_OP || op == ARP_OP || op == CHORD_OP || op == PITCHWHEEL_OP
        || op == CC_OP || op == CONTROL_OP || op == TRACK_OP
}

/// The signed byte at place `i` of the fields.
pub open spec fn field_i8(f: Seq<u8>, i: int) -> i8 {
    byte_to_i8(f[i])
}

/// The signed big-endian 16-bit integer at places `i` and `i + 1`.
pub open spec fn field_i16(f: Seq<u8>, i: int) -> i16 {
    be_i16(f[i], f[i + 1])
}

/// The message that the fields `f` of operation `op` hold; nothing when the
/// code is unknown, the fields are too short or a string is not UTF-8. Bytes
/// after the last field are ignored.
pub open spec fn parse_fields(op: i8, f: Seq<u8>) -> Option<MessageView> {
    if op == HANDSHAKE_OP {
        match parse_string(f) {
            Some((name, rest)) => match parse_string(rest) {
                Some((platform, _)) => Some(MessageView::HandShake { name, platform }),
                None => None,
            },
            None => None,
        }
    } else if op == MIDI_OP && f.len() >= 4 {
        Some(
            MessageView::Midi {
                note: field_i8(f, 0),
                velocity: field_i8(f, 1),
                state: field_i8(f, 2),
                channel: field_i8(f, 3),
            },
        )
    } else if op == ARP_OP && f.len() >= 13 {
        Some(
            MessageView::Arp {
                note: field_i8(f, 0),
                velocity: field_i8(f, 1),
                state: field_i8(f, 2),
                method: field_i8(f, 3),
                rate: field_i8(f, 4),
                swing_pct: field_i8(f, 5),
                up_note_cnt: field_i8(f, 6),
                velocity_automation: field_i8(f, 7),
                dynamic_pct: field_i16(f, 8),
                bpm: field_i16(f, 10),
                channel: field_i8(f, 12),
            },
        )
    } else if op == CHORD_OP && f.len() >= 10 {
        Some(
            MessageView::Chord {
                note: field_i8(f, 0),
                velocity: field_i8(f, 1),
                state: field_i8(f, 2),
                chord_type: field_i8(f, 3),
                chord_level: field_i8(f, 4),
                transpose: field_i8(f, 5),
                arp_delay: field_i8(f, 6),
                bpm: field_i16(f, 7),
                channel: field_i8(f, 9),
            },
        )
    } else if op == PITCHWHEEL_OP && f.len() >= 3 {
        Some(
            MessageView::PitchWheel {
                pos: field_i8(f, 0),
                prev_pos: field_i8(f, 1),
                channel: field_i8(f, 2),
            },
        )
    } else if op == CC_OP && f.len() >= 3 {
        Some(
            MessageView::CC {
                channel: field_i8(f, 0),
                value: field_i8(f, 1),
                channel2: field_i8(f, 2),
            },
        )
    } else if op == CONTROL_OP && f.len() >= 3 {
        Some(
            MessageView::ControlMessage {
                operation: field_i8(f, 0),
                state: field_i8(f, 1),
                auto_close: field_i8(f, 2),
            },
        )
    } else if op == TRACK_OP && f.len() >= 3 {
        Some(
            MessageView::TrackMessage {
                nth: field_i8(f, 0),
                state: field_i8(f, 1),
                value: field_i8(f, 2),
            },
        )
    } else {
        None
    }
}

/// The message that a payload holds: its first byte is the operation code,
/// the rest are the fields.
pub open spec fn parse_payload(p: Seq<u8>) -> Option<MessageView> {
    if p.len() >= 1 {
        parse_fields(byte_to_i8(p[0]), p.skip(1))
    } else {
        None
    }
}

/// The text of the error for a payload that holds no message.
pub open spec fn payload_fault(p: Seq<u8>) -> Seq<char> {
    if p.len() >= 1 && !opcode_is_known(byte_to_i8(p[0])) {
        UNSUPPORTED_MESSAGE@
    } else {
        MALFORMED_MESSAGE@
    }
}

/// Length of the frame at the front of `buf`, header included. Meaningful
/// once two bytes are there.
pub open spec fn frame_len(buf: Seq<u8>) -> int {
    2 + be_u16(buf[0], buf[1]) as int
}

/// A whole frame is buffered: the header and as many bytes as it declares.
pub open spec fn frame_ready(buf: Seq<u8>) -> bool {
    buf.len() >= 2 && frame_len(buf) <= buf.len()
}

/// The payload of the frame at the front of `buf`.
pub open spec fn frame_payload(buf: Seq<u8>) -> Seq<u8> {
    buf.subrange(2, frame_len(buf))
}

/// A string as a field on the wire.
pub open spec fn string_field(s: Seq<char>) -> Seq<u8> {
    seq![encode_utf8(s).len() as u8] + encode_utf8(s)
}

/// The string's UTF-8 form fits the one-byte length prefix.
pub open spec fn string_fits(s: Seq<char>) -> bool {
    encode_utf8(s).len() <= 255
}

/// The two bytes of a signed 16-bit field, the high one first.
pub open spec fn i16_field(v: i16) -> Seq<u8> {
    seq![(i16_bits(v) / 256) as u8, (i16_bits(v) % 256) as u8]
}

/// The operation code of a message.
pub open spec fn opcode_of(m: MessageView) -> i8 {
    match m {
        MessageView::HandShake { .. } => HANDSHAKE_OP,
        MessageView::Midi { .. } => MIDI_OP,
        MessageView::Arp { .. } => ARP_OP,
        MessageView::Chord { .. } => CHORD_OP,
        MessageView::PitchWheel { .. } => PITCHWHEEL_OP,
        MessageView::CC { .. } => CC_OP,
        MessageView::ControlMessage { .. } => CONTROL_OP,
        MessageView::TrackMessage { .. } => TRACK_OP,
    }
}

/// The fields of a message as they travel, in wire order.
pub open spec fn fields_of(m: MessageView) -> Seq<u8> {
    match m {
        MessageView::HandShake { name, platform } => string_field(name) + string_field(platform),
        MessageView::Midi { note, velocity, state, channel } => seq![
            i8_to_byte(note),
            i8_to_byte(velocity),
            i8_to_byte(state),
            i8_to_byte(channel),
        ],
        MessageView::Arp {
            note,
            velocity,
            state,
            method,
            rate,
            swing_pct,
            up_note_cnt,
            velocity_automation,
            dynamic_pct,
            bpm,
            channel,
        } => seq![
            i8_to_byte(note),
            i8_to_byte(velocity),
            i8_to_byte(state),
            i8_to_byte(method),
            i8_to_byte(rate),
            i8_to_byte(swing_pct),
            i8_to_byte(up_note_cnt),
            i8_to_byte(velocity_automation),
        ] + i16_field(dynamic_pct) + i16_field(bpm) + seq![i8_to_byte(channel)],
        MessageView::Chord {
            note,
            velocity,
            state,
            bpm,
            chord_type,
            chord_level,
            transpose,
            arp_delay,
            channel,
        } => seq![
            i8_to_byte(note),
            i8_to_byte(velocity),
            i8_to_byte(state),
            i8_to_byte(chord_type),
            i8_to_byte(chord_level),
            i8_to_byte(transpose),
            i8_to_byte(arp_delay),
        ] + i16_field(bpm) + seq![i8_to_byte(channel)],
        MessageView::PitchWheel { pos, prev_pos, channel } => seq![
            i8_to_byte(pos),
            i8_to_byte(prev_pos),
            i8_to_byte(channel),
        ],
        MessageView::CC { channel, value, channel2 } => seq![
            i8_to_byte(channel),
            i8_to_byte(value),
            i8_to_byte(channel2),
        ],
        MessageView::ControlMessage { operation, state, auto_close } => seq![
            i8_to_byte(operation),
            i8_to_byte(state),
            i8_to_byte(auto_close),
        ],
        MessageView::TrackMessage { nth, state, value } => seq![
            i8_to_byte(nth),
            i8_to_byte(state),
            i8_to_byte(value),
        ],
    }
}

/// The payload of a message: operation code, then fields.
pub open spec fn payload_of(m: MessageView) -> Seq<u8> {
    seq![i8_to_byte(opcode_of(m))] + fields_of(m)
}

/// The whole frame of a message: the payload's length in two bytes, high one
/// first, then the payload.
pub open spec fn frame_of(m: MessageView) -> Seq<u8> {
    seq![(payload_of(m).len() / 256) as u8, (payload_of(m).len() % 256) as u8] + payload_of(m)
}

/// Every string of the message fits its length prefix.
pub open spec fn strings_fit(m: MessageView) -> bool {
    m matches MessageView::HandShake { name, platform } ==> string_fits(name) && string_fits(
        platform,
    )
}

/// Reads one string field off the front of `buf`.
fn get_string(buf: &mut BytesMut) -> (r: Option<String>)
    ensures
        match parse_string(buffered(*old(buf))) {
            Some((text, rest)) => r matches Some(t) && t@ == text && buffered(*final(buf)) == rest,
            None => r is None,
        },
{
    let ghost start = buffered(*buf);
    if buf_len(buf) < 1 {
        return None;
    }
    let len = buf_get_u8(buf);
    if len as usize > buf_len(buf) {
        return None;
    }
    let mut vec: Vec<u8> = Vec::with_capacity(len as usize);
    let mut i: u8 = 0;
    while i < len
        invariant
            i <= len,
            len as int <= start.len() - 1,
            vec@ == start.subrange(1, 1 + i as int),
            buffered(*buf) == start.skip(1 + i as int),
        decreases len - i,
    {
        let b = buf_get_u8(buf);
        vec.push(b);
        i += 1;
    }
    match string_from_utf8(vec) {
        Ok(text) => {
            proof {
                vstd::utf8::encode_utf8_decode_utf8(text@);
            }
            Some(text)
        },
        Err(_) => None,
    }
}

/// Appends `string` as a string field to `dst`.
fn put_string(dst: &mut BytesMut, string: &[u8])
    requires
        string@.len() <= 255,
    ensures
        buffered(*final(dst)) == buffered(*old(dst)) + seq![string@.len() as u8] + string@,
{
    let ghost start = buffered(*dst);
    buf_put_u8(dst, string.len() as u8);
    let mut i: usize = 0;
    while i < string.len()
        invariant
            i <= string@.len(),
            buffered(*dst) == start + seq![string@.len() as u8] + string@.subrange(0, i as int),
        decreases string@.len() - i,
    {
        buf_put_u8(dst, string[i]);
        i += 1;
    }
    assert(string@.subrange(0, string@.len() as int) == string@);
}

/// Reads the fields of operation `op` off the front of `fields`.
fn decode_fields(op: i8, fields: &mut BytesMut) -> (r: Option<Message>)
    ensures
        match parse_fields(op, buffered(*old(fields))) {
            Some(mv) => r matches Some(m) && m@ == mv,
            None => r is None,
        },
{
    let ghost f = buffered(*fields);
    let len = buf_len(fields);
    if op == HANDSHAKE_OP {
        match get_string(fields) {
            Some(name) => match get_string(fields) {
                Some(platform) => Some(Message::HandShake { name, platform }),
                None => None,
            },
            None => None,
        }
    } else if op == MIDI_OP && len >= 4 {
        let note = buf_get_i8(fields);
        let velocity = buf_get_i8(fields);
        let state = buf_get_i8(fields);
        let channel = buf_get_i8(fields);
        Some(Message::Midi { note, velocity, state, channel })
    } else if op == ARP_OP && len >= 13 {
        let note = buf_get_i8(fields);
        let velocity = buf_get_i8(fields);
        let state = buf_get_i8(fields);
        let method = buf_get_i8(fields);
        let rate = buf_get_i8(fields);
        let swing_pct = buf_get_i8(fields);
        let up_note_cnt = buf_get_i8(fields);
        let velocity_automation = buf_get_i8(fields);
        let dynamic_pct = buf_get_i16(fields);
        let bpm = buf_get_i16(fields);
        let channel = buf_get_i8(fields);
        Some(
            Message::Arp {
                note,
                velocity,
                state,
                method,
                rate,
                swing_pct,
                up_note_cnt,
                velocity_automation,
                dynamic_pct,
                bpm,
                channel,
            },
        )
    } else if op == CHORD_OP && len >= 10 {
        let note = buf_get_i8(fields);
        let velocity = buf_get_i8(fields);
        let state = buf_get_i8(fields);
        let chord_type = buf_get_i8(fields);
        let chord_level = buf_get_i8(fields);
        let transpose = buf_get_i8(fields);
        let arp_delay = buf_get_i8(fields);
        let bpm = buf_get_i16(fields);
        let channel = buf_get_i8(fields);
        Some(
            Message::Chord {
                note,
                velocity,
                state,
                bpm,
                chord_type,
                chord_level,
                transpose,
                arp_delay,
                channel,
            },
        )
    } else if op == PITCHWHEEL_OP && len >= 3 {
        let pos = buf_get_i8(fields);
        let prev_pos = buf_get_i8(fields);
        let channel = buf_get_i8(fields);
        Some(Message::PitchWheel { pos, prev_pos, channel })
    } else if op == CC_OP && len >= 3 {
        let channel = buf_get_i8(fields);
        let value = buf_get_i8(fields);
        let channel2 = buf_get_i8(fields);
        Some(Message::CC { channel, value, channel2 })
    } else if op == CONTROL_OP && len >= 3 {
        let operation = buf_get_i8(fields);
        let state = buf_get_i8(fields);
        let auto_close = buf_get_i8(fields);
        Some(Message::ControlMessage { operation, state, auto_close })
    } else if op == TRACK_OP && len >= 3 {
        let nth = buf_get_i8(fields);
        let state = buf_get_i8(fields);
        let value = buf_get_i8(fields);
        Some(Message::TrackMessage { nth, state, value })
    } else {
        None
    }
}

/// Whether `op` stands for a message.
fn is_known_opcode(op: i8) -> (known: bool)
    ensures
        known == opcode_is_known(op),
{
    op == HANDSHAKE_OP || op == MIDI_OP || op == ARP_OP || op == CHORD_OP || op == PITCHWHEEL_OP
        || op == CC_OP || op == CONTROL_OP || op == TRACK_OP
}

impl MessageCodec {
    /// The largest payload that the two-byte length can declare.
    pub const MAX_SIZE: usize = 65535;

    /// Turns one payload into its message.
    pub fn decode_payload(payload: &mut BytesMut) -> (r: Result<Message, MessageCodecError>)
        ensures
            match parse_payload(buffered(*old(payload))) {
                Some(mv) => r matches Ok(m) && m@ == mv,
                None => r matches Err(MessageCodecError::DecodeError(text)) && text@ == payload_fault(
                    buffered(*old(payload)),
                ),
            },
    {
        if buf_len(payload) < 1 {
            return Err(MessageCodecError::DecodeError(MALFORMED_MESSAGE));
        }
        let op = buf_get_i8(payload);
        match decode_fields(op, payload) {
            Some(message) => Ok(message),
            None => {
                if is_known_opcode(op) {
                    Err(MessageCodecError::DecodeError(MALFORMED_MESSAGE))
                } else {
                    Err(MessageCodecError::DecodeError(UNSUPPORTED_MESSAGE))
                }
            },
        }
    }

    /// Takes one frame off the front of `src`, if a whole one is there.
    ///
    /// While the header or part of the declared payload is still missing the
    /// answer is `Ok(None)` and `src` is left as it was, to be tried again
    /// when more bytes have come. A whole frame is always consumed, header
    /// and payload, whether its payload holds a message or not.
    pub fn decode(&mut self, src: &mut BytesMut) -> (r: Result<Option<Message>, MessageCodecError>)
        ensures
            !frame_ready(buffered(*old(src))) ==> {
                &&& r matches Ok(None)
                &&& buffered(*final(src)) == buffered(*old(src))
            },
            frame_ready(buffered(*old(src))) ==> {
                &&& buffered(*final(src)) == buffered(*old(src)).skip(
                    frame_len(buffered(*old(src))),
                )
                &&& match parse_payload(frame_payload(buffered(*old(src)))) {
                    Some(mv) => r matches Ok(Some(m)) && m@ == mv,
                    None => r matches Err(MessageCodecError::DecodeError(text)) && text@
                        == payload_fault(frame_payload(buffered(*old(src)))),
                }
            },
    {
        let ghost start = buffered(*src);
        let len = buf_len(src);
        if len < 2 {
            return Ok(None);
        }
        let hi = buf_byte_at(src, 0);
        let lo = buf_byte_at(src, 1);
        let remaind_bytes_cnt: usize = hi as usize * 256 + lo as usize;
        // the frame is not whole yet
        if remaind_bytes_cnt > len - 2 {
            return Ok(None);
        }
        // skip the header
        buf_advance(src, 2);
        // part this frame from what follows it
        let mut remaind_bytes = buf_split_to(src, remaind_bytes_cnt);
        assert(buffered(remaind_bytes) == frame_payload(start));
        assert(buffered(*src) == start.skip(frame_len(start)));
        match Self::decode_payload(&mut remaind_bytes) {
            Ok(message) => Ok(Some(message)),
            Err(e) => Err(e),
        }
    }

    /// Appends the frame of `message` to `dst`. Only the handshake travels
    /// outwards: for every other message nothing is written.
    pub fn encode(&mut self, message: Message, dst: &mut BytesMut) -> (r: Result<
        (),
        MessageCodecError,
    >)
        ensures
            match message@ {
                MessageView::HandShake { name, platform } => if string_fits(name) && string_fits(
                    platform,
                ) {
                    r is Ok && buffered(*final(dst)) == buffered(*old(dst)) + frame_of(message@)
                } else {
                    &&& r matches Err(MessageCodecError::EncodeError(text)) && text@
                        == OVERSIZED_STRING@
                    &&& buffered(*final(dst)) == buffered(*old(dst))
                },
                _ => r is Ok && buffered(*final(dst)) == buffered(*old(dst)),
            },
    {
        match message {
            Message::HandShake { name, platform } => {
                let name_bytes = name.as_str().as_bytes();
                let platform_bytes = platform.as_str().as_bytes();
                if name_bytes.len() > 255 || platform_bytes.len() > 255 {
                    return Err(MessageCodecError::EncodeError(OVERSIZED_STRING));
                }
                let payload_len: usize = name_bytes.len() + platform_bytes.len() + 3;
                buf_put_u16(dst, payload_len as u16);
                buf_put_i8(dst, HANDSHAKE_OP);
                put_string(dst, name_bytes);
                put_string(dst, platform_bytes);
                assert(buffered(*dst) == buffered(*old(dst)) + frame_of(message@));
            },
            _ => {},
        };
        Ok(())
    }
}

/// A string field followed by anything reads back as the string and what
/// followed.
pub proof fn lemma_string_field_reads_back(s: Seq<char>, rest: Seq<u8>)
    requires
        string_fits(s),
    ensures
        parse_string(string_field(s) + rest) == Some((s, rest)),
{
    let bytes = encode_utf8(s);
    let wire = string_field(s) + rest;
    vstd::utf8::encode_utf8_valid_utf8(s);
    vstd::utf8::encode_utf8_decode_utf8(s);
    assert(wire[0] == bytes.len() as u8);
    assert(wire.subrange(1, 1 + bytes.len() as int) =~= bytes);
    assert(wire.skip(1 + bytes.len() as int) =~= rest);
}

/// A signed 16-bit integer survives the wire.
pub proof fn lemma_i16_survives(v: i16)
    ensures
        i16_field(v).len() == 2,
        be_i16(i16_field(v)[0], i16_field(v)[1]) == v,
{
}

/// Parsing inverts serialising: the payload of a message whose strings fit
/// reads back as that message.
pub proof fn lemma_parse_inverts_payload(m: MessageView)
    requires
        strings_fit(m),
    ensures
        payload_of(m).len() >= 1,
        payload_of(m).len() <= 513,
        parse_payload(payload_of(m)) == Some(m),
{
    let p = payload_of(m);
    let f = fields_of(m);
    assert(p.skip(1) =~= f);
    assert(byte_to_i8(p[0]) == opcode_of(m));
    match m {
        MessageView::HandShake { name, platform } => {
            lemma_string_field_reads_back(name, string_field(platform));
            assert(string_field(platform) + Seq::<u8>::empty() =~= string_field(platform));
            lemma_string_field_reads_back(platform, Seq::<u8>::empty());
        },
        MessageView::Arp { dynamic_pct, bpm, .. } => {
            lemma_i16_survives(dynamic_pct);
            lemma_i16_survives(bpm);
        },
        MessageView::Chord { bpm, .. } => {
            lemma_i16_survives(bpm);
        },
        _ => {},
    }
}

/// Decoding inverts encoding. In a buffer that starts with the frame of `m`,
/// whatever follows, the frame is ready, it is exactly as long as what was
/// written, its payload reads back as `m`, and what followed is left.
pub proof fn lemma_decode_inverts_encode(m: MessageView, rest: Seq<u8>)
    requires
        strings_fit(m),
    ensures
        frame_ready(frame_of(m) + rest),
        frame_len(frame_of(m) + rest) == frame_of(m).len(),
        parse_payload(frame_payload(frame_of(m) + rest)) == Some(m),
        (frame_of(m) + rest).skip(frame_len(frame_of(m) + rest)) == rest,
{
    lemma_parse_inverts_payload(m);
    let buf = frame_of(m) + rest;
    let p = payload_of(m);
    assert(buf[0] == (p.len() / 256) as u8);
    assert(buf[1] == (p.len() % 256) as u8);
    assert(frame_payload(buf) =~= p);
    assert(buf.skip(frame_len(buf)) =~= rest);
}

/// A frame that has not wholly arrived is never ready: no proper prefix of a
/// frame is.
pub proof fn lemma_partial_frame_not_ready(m: MessageView, k: int)
    requires
        strings_fit(m),
        0 <= k < frame_of(m).len(),
    ensures
        !frame_ready(frame_of(m).take(k)),
{
    lemma_parse_inverts_payload(m);
    let whole = frame_of(m);
    let part = whole.take(k);
    if k >= 2 {
        assert(part[0] == whole[0] && part[1] == whole[1]);
        assert(whole[0] == (payload_of(m).len() / 256) as u8);
        assert(whole[1] == (payload_of(m).len() % 256) as u8);
    }
}

} // verus!
