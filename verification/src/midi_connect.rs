//! The messages that leave for the output sink, and their bytes.

use vstd::prelude::*;

verus! {

/// One message for the output sink. `channel` counts from zero; the other
/// fields are the data bytes as they are sent.
#[derive(Clone, Copy, Debug, PartialEq, Eq, Structural)]
pub enum MidiEvent {
    NoteOn { note: u8, velocity: u8, channel: u8 },
    NoteOff { note: u8, velocity: u8, channel: u8 },
    PitchBend { position: u16, channel: u8 },
    ControlChange { control: u8, value: u8, channel: u8 },
}

/// The byte that holds a signed 8-bit integer in two's complement.
pub open spec fn data_byte(v: i8) -> u8 {
    if v >= 0 {
        v as u8
    } else {
        (v as int + 256) as u8
    }
}

/// The zero-based channel for a channel number of the protocol: 1 to 16 name
/// the sixteen channels, every other number stands for the first.
pub open spec fn channel_of(num: i8) -> u8 {
    if 1 <= num <= 16 {
        (num - 1) as u8
    } else {
        0
    }
}

impl MidiEvent {
    /// The channel the message is sent on.
    pub open spec fn channel(self) -> u8 {
        match self {
            MidiEvent::NoteOn { channel, .. } => channel,
            MidiEvent::NoteOff { channel, .. } => channel,
            MidiEvent::PitchBend { channel, .. } => channel,
            MidiEvent::ControlChange { channel, .. } => channel,
        }
    }

    /// The channel is one of the sixteen and a bend position has fourteen
    /// bits.
    pub open spec fn wf(self) -> bool {
        &&& self.channel() < 16
        &&& self matches MidiEvent::PitchBend { position, .. } ==> position <= 0x3fff
    }

    /// The three bytes of the message: status with the channel in its low
    /// half, then two data bytes.
    pub open spec fn wire(self) -> Seq<u8> {
        match self {
            MidiEvent::NoteOn { note, velocity, channel } => seq![
                (0x90 + channel) as u8,
                note,
                velocity,
            ],
            MidiEvent::NoteOff { note, velocity, channel } => seq![
                (0x80 + channel) as u8,
                note,
                velocity,
            ],
            MidiEvent::PitchBend { position, channel } => seq![
                (0xE0 + channel) as u8,
                (position % 128) as u8,
                (position / 128) as u8,
            ],
            MidiEvent::ControlChange { control, value, channel } => seq![
                (0xB0 + channel) as u8,
                control,
                value,
            ],
        }
    }

    /// The bytes to hand to the output port.
    pub fn to_bytes(&self) -> (bytes: Vec<u8>)
        requires
            self.wf(),
        ensures
            bytes@ == self.wire(),
    {
        match *self {
            MidiEvent::NoteOn { note, velocity, channel } => note_on_bytes(channel, note, velocity),
            MidiEvent::NoteOff { note, velocity, channel } => note_off_bytes(
                channel,
                note,
                velocity,
            ),
            MidiEvent::PitchBend { position, channel } => pitch_bend_bytes(channel, position),
            MidiEvent::ControlChange { control, value, channel } => control_change_bytes(
                channel,
                control,
                value,
            ),
        }
    }
}

/// `midi_control::note_on` for the channel that `Channel::from` gives, turned
/// into bytes by the crate's `From<MidiMessage> for Vec<u8>`: the status byte
/// 0x90 with the channel in its low half, the note, the velocity.
#[verifier::external_body]
fn note_on_bytes(channel: u8, note: u8, velocity: u8) -> (bytes: Vec<u8>)
    requires
        channel < 16,
    ensures
        bytes@ == seq![(0x90 + channel) as u8, note, velocity],
{
    midi_control::note_on(midi_control::Channel::from(channel), note, velocity).into()
}

/// `midi_control::note_off`, turned into bytes in the same way: the status
/// byte 0x80 with the channel in its low half, the note, the velocity.
#[verifier::external_body]
fn note_off_bytes(channel: u8, note: u8, velocity: u8) -> (bytes: Vec<u8>)
    requires
        channel < 16,
    ensures
        bytes@ == seq![(0x80 + channel) as u8, note, velocity],
{
    midi_control::note_off(midi_control::Channel::from(channel), note, velocity).into()
}

/// `midi_control::pitch_bend`, turned into bytes in the same way: the status
/// byte 0xE0 with the channel in its low half, the low seven bits of the
/// position, then its high seven bits. A position of more than fourteen bits
/// gives no message, which the precondition excludes.
#[verifier::external_body]
fn pitch_bend_bytes(channel: u8, position: u16) -> (bytes: Vec<u8>)
    requires
        channel < 16,
        position <= 0x3fff,
    ensures
        bytes@ == seq![(0xE0 + channel) as u8, (position % 128) as u8, (position / 128) as u8],
{
    midi_control::pitch_bend(midi_control::Channel::from(channel), position).into()
}

/// `midi_control::control_change`, turned into bytes in the same way: the
/// status byte 0xB0 with the channel in its low half, the controller number,
/// the value.
#[verifier::external_body]
fn control_change_bytes(channel: u8, control: u8, value: u8) -> (bytes: Vec<u8>)
    requires
        channel < 16,
    ensures
        bytes@ == seq![(0xB0 + channel) as u8, control, value],
{
    midi_control::control_change(midi_control::Channel::from(channel), control, value).into()
}

/// The data byte of a signed value.
pub fn to_data_byte(v: i8) -> (b: u8)
    ensures
        b == data_byte(v),
{
    if v >= 0 {
        v as u8
    } else {
        (v as i16 + 256) as u8
    }
}

/// The zero-based channel for a channel number of the protocol.
pub fn map_num_to_channel(num: i8) -> (channel: u8)
    ensures
        channel == channel_of(num),
        channel < 16,
{
    if 1 <= num && num <= 16 {
        (num - 1) as u8
    } else {
        0
    }
}

/// A note message on a zero-based channel: note-off when `state` is 0,
/// note-on otherwise. A negative note names nothing on the target and gives
/// no message.
pub fn midi_note_message_with_channel(note: i8, velocity: i8, state: i8, channel: u8) -> (r: Option<
    MidiEvent,
>)
    requires
        channel < 16,
    ensures
        note < 0 ==> r is None,
        note >= 0 && state == 0 ==> r == Some(
            MidiEvent::NoteOff { note: note as u8, velocity: data_byte(velocity), channel },
        ),
        note >= 0 && state != 0 ==> r == Some(
            MidiEvent::NoteOn { note: note as u8, velocity: data_byte(velocity), channel },
        ),
        r matches Some(e) ==> e.wf(),
{
    if note < 0 {
        None
    } else if state == 0 {
        Some(MidiEvent::NoteOff { note: note as u8, velocity: to_data_byte(velocity), channel })
    } else {
        Some(MidiEvent::NoteOn { note: note as u8, velocity: to_data_byte(velocity), channel })
    }
}

/// A note message on the first channel.
pub fn midi_note_message(note: i8, velocity: i8, state: i8) -> (r: Option<MidiEvent>)
    ensures
        note < 0 ==> r is None,
        note >= 0 && state == 0 ==> r == Some(
            MidiEvent::NoteOff { note: note as u8, velocity: data_byte(velocity), channel: 0 },
        ),
        note >= 0 && state != 0 ==> r == Some(
            MidiEvent::NoteOn { note: note as u8, velocity: data_byte(velocity), channel: 0 },
        ),
        r matches Some(e) ==> e.wf(),
{
    midi_note_message_with_channel(note, velocity, state, 0)
}

/// A note message on the channel that a channel number of the protocol names.
pub fn midi_note_message_with_channel_number(note: i8, velocity: i8, state: i8, channel: i8) -> (r:
    Option<MidiEvent>)
    ensures
        note < 0 ==> r is None,
        note >= 0 && state == 0 ==> r == Some(
            MidiEvent::NoteOff {
                note: note as u8,
                velocity: data_byte(velocity),
                channel: channel_of(channel),
            },
        ),
        note >= 0 && state != 0 ==> r == Some(
            MidiEvent::NoteOn {
                note: note as u8,
                velocity: data_byte(velocity),
                channel: channel_of(channel),
            },
        ),
        r matches Some(e) ==> e.wf(),
{
    midi_note_message_with_channel(note, velocity, state, map_num_to_channel(channel))
}

/// A pitch-bend message on a zero-based channel: the position is the wheel's
/// value times 128. A negative value has no position and gives no message.
pub fn pitch_wheel_message_with_channel(pos: i8, ch: u8) -> (r: Option<MidiEvent>)
    requires
        ch < 16,
    ensures
        pos < 0 ==> r is None,
        pos >= 0 ==> r == Some(MidiEvent::PitchBend { position: (pos * 128) as u16, channel: ch }),
        r matches Some(e) ==> e.wf(),
{
    if pos < 0 {
        None
    } else {
        let pos: u16 = pos as u16;
        let pos: u16 = pos * 128;
        Some(MidiEvent::PitchBend { position: pos, channel: ch })
    }
}

/// A pitch-bend message on the first channel.
pub fn pitch_wheel_message(pos: i8) -> (r: Option<MidiEvent>)
    ensures
        pos < 0 ==> r is None,
        pos >= 0 ==> r == Some(MidiEvent::PitchBend { position: (pos * 128) as u16, channel: 0 }),
        r matches Some(e) ==> e.wf(),
{
    pitch_wheel_message_with_channel(pos, 0)
}

/// A control-change message on a zero-based channel; `channel` is the
/// controller number.
pub fn cc_message_with_channel(channel: i8, value: i8, ch: u8) -> (e: MidiEvent)
    requires
        ch < 16,
    ensures
        e == (MidiEvent::ControlChange {
            control: data_byte(channel),
            value: data_byte(value),
            channel: ch,
        }),
        e.wf(),
{
    MidiEvent::ControlChange {
        control: to_data_byte(channel),
        value: to_data_byte(value),
        channel: ch,
    }
}

/// A control-change message on the first channel.
pub fn cc_message(channel: i8, value: i8) -> (e: MidiEvent)
    ensures
        e == (MidiEvent::ControlChange {
            control: data_byte(channel),
            value: data_byte(value),
            channel: 0,
        }),
        e.wf(),
{
    cc_message_with_channel(channel, value, 0)
}

/// A control-change message on the channel that a channel number of the
/// protocol names.
pub fn cc_message_with_channel_number(channel: i8, value: i8, channel2: i8) -> (e: MidiEvent)
    ensures
        e == (MidiEvent::ControlChange {
            control: data_byte(channel),
            value: data_byte(value),
            channel: channel_of(channel2),
        }),
        e.wf(),
{
    cc_message_with_channel(channel, value, map_num_to_channel(channel2))
}

} // verus!
