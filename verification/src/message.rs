//! The in-memory shape of every message of the wire protocol.

use crate::arp_handler::{starts, stops, ArpAction, ArpHandler};
use crate::chord_handler::{chord_starts, chord_stops, note_event, ChordAction, ChordHandler};
use crate::constants::{SERVER_NAME, SERVER_PLATFORM};
use crate::control_handler::{control_events, handle_control_msg, DawType};
use crate::midi_connect::{
    cc_message_with_channel_number, channel_of, data_byte, midi_note_message_with_channel_number,
    MidiEvent,
};
use crate::pitch_wheel::{move_to_smoothly, ramp_positions, PitchRamp};
use crate::server::{gesture_identifier, VPadMessageContext};
use crate::track_handler::{handle_track_message, track_events};
use vstd::prelude::*;
use vstd::string::StringExecFns;

verus! {

/// One message of the protocol. In every variant that has a `state`, 1 means
/// begin (attack) and 0 means end (release).
#[derive(Debug)]
pub enum Message {
    HandShake { name: String, platform: String },
    Midi { note: i8, velocity: i8, state: i8, channel: i8 },
    Arp {
        note: i8,
        velocity: i8,
        state: i8,
        method: i8,
        rate: i8,
        swing_pct: i8,
        up_note_cnt: i8,
        velocity_automation: i8,
        dynamic_pct: i16,
        bpm: i16,
        channel: i8,
    },
    Chord {
        note: i8,
        velocity: i8,
        state: i8,
        bpm: i16,
        chord_type: i8,
        chord_level: i8,
        transpose: i8,
        arp_delay: i8,
        channel: i8,
    },
    PitchWheel { pos: i8, prev_pos: i8, channel: i8 },
    /// `channel` is the controller number (64 for CC64); `channel2` is the
    /// MIDI channel the change is sent on.
    CC { channel: i8, value: i8, channel2: i8 },
    ControlMessage { operation: i8, state: i8, auto_close: i8 },
    TrackMessage { nth: i8, state: i8, value: i8 },
}

/// What a [`Message`] is, with its strings as sequences of characters.
pub enum MessageView {
    HandShake { name: Seq<char>, platform: Seq<char> },
    Midi { note: i8, velocity: i8, state: i8, channel: i8 },
    Arp {
        note: i8,
        velocity: i8,
        state: i8,
        method: i8,
        rate: i8,
        swing_pct: i8,
        up_note_cnt: i8,
        velocity_automation: i8,
        dynamic_pct: i16,
        bpm: i16,
        channel: i8,
    },
    Chord {
        note: i8,
        velocity: i8,
        state: i8,
        bpm: i16,
        chord_type: i8,
        chord_level: i8,
        transpose: i8,
        arp_delay: i8,
        channel: i8,
    },
    PitchWheel { pos: i8, prev_pos: i8, channel: i8 },
    CC { channel: i8, value: i8, channel2: i8 },
    ControlMessage { operation: i8, state: i8, auto_close: i8 },
    TrackMessage { nth: i8, state: i8, value: i8 },
}

impl View for Message {
    type V = MessageView;

    open spec fn view(&self) -> MessageView {
        match *self {
            Message::HandShake { name, platform } => MessageView::HandShake {
                name: name@,
                platform: platform@,
            },
            Message::Midi { note, velocity, state, channel } => MessageView::Midi {
                note,
                velocity,
                state,
                channel,
            },
            Message::Arp {
                note,
                velocity,
                state,
                method,
                rate,
                swing_pct,
                up_note_cnt,
                velocity_automation,
                dynamic_pct,
                bpm,
                channel,
            } => MessageView::Arp {
                note,
                velocity,
                state,
                method,
                rate,
                swing_pct,
                up_note_cnt,
                velocity_automation,
                dynamic_pct,
                bpm,
                channel,
            },
            Message::Chord {
                note,
                velocity,
                state,
                bpm,
                chord_type,
                chord_level,
                transpose,
                arp_delay,
                channel,
            } => MessageView::Chord {
                note,
                velocity,
                state,
                bpm,
                chord_type,
                chord_level,
                transpose,
                arp_delay,
                channel,
            },
            Message::PitchWheel { pos, prev_pos, channel } => MessageView::PitchWheel {
                pos,
                prev_pos,
                channel,
            },
            Message::CC { channel, value, channel2 } => MessageView::CC { channel, value, channel2 },
            Message::ControlMessage { operation, state, auto_close } => MessageView::ControlMessage {
                operation,
                state,
                auto_close,
            },
            Message::TrackMessage { nth, state, value } => MessageView::TrackMessage {
                nth,
                state,
                value,
            },
        }
    }
}

/// Which of the two outputs a message leaves by.
#[derive(Clone, Copy, Debug, PartialEq, Eq, Structural)]
pub enum Port {
    /// The instrument that plays the notes.
    Instrument,
    /// The control surface of the application.
    Control,
}

/// The handlers that keep state from one message to the next, and the
/// application that control messages are meant for.
pub struct Handlers {
    pub arp: ArpHandler,
    pub chord: ChordHandler,
    pub daw: DawType,
}

/// What the caller has to do for a message that has been dispatched.
pub enum Reaction {
    /// Nothing.
    Nothing,
    /// Send `events` to `port`, one by one and in order.
    Send { port: Port, events: Vec<MidiEvent> },
    /// What the arpeggiator asks for.
    Arp(ArpAction),
    /// What the chord handler asks for.
    Chord(ChordAction),
    /// Signal every pitch ramp under way to stop, then run this one.
    Ramp(PitchRamp),
}

/// No event, or the one event.
pub open spec fn one_or_none(e: Option<MidiEvent>) -> Seq<MidiEvent> {
    match e {
        Some(e) => seq![e],
        None => Seq::empty(),
    }
}

/// The reaction sends exactly `events` to `port`.
pub open spec fn sends(reaction: Reaction, to: Port, expected: Seq<MidiEvent>) -> bool {
    &&& reaction matches Reaction::Send { port, events }
    &&& port == to
    &&& events@ == expected
    &&& forall|i: int| 0 <= i < events@.len() ==> (#[trigger] events@[i]).wf()
}

/// What dispatching the message `m` from the connection at `addr` does.
///
/// Only a handshake is answered, with the server's name and platform. A
/// note and a controller change go straight to the instrument; transport
/// and track messages go to the control surface; arpeggio and chord
/// messages go to their handler under the gesture's identifier; a pitch
/// wheel message becomes a ramp. A message changes only the handler it goes
/// to.
pub open spec fn dispatched(
    m: MessageView,
    addr: Seq<char>,
    before: Handlers,
    after: Handlers,
    reply: Option<Message>,
    reaction: Reaction,
) -> bool {
    &&& after.daw == before.daw
    &&& !(m is Arp) ==> after.arp == before.arp
    &&& !(m is Chord) ==> after.chord == before.chord
    &&& reply is Some <==> m is HandShake
    &&& match m {
        MessageView::HandShake { .. } => {
            &&& reply matches Some(r)
            &&& r@ == (MessageView::HandShake { name: SERVER_NAME@, platform: SERVER_PLATFORM@ })
            &&& reaction is Nothing
        },
        MessageView::Midi { note, velocity, state, channel } => sends(
            reaction,
            Port::Instrument,
            one_or_none(note_event(note as int, velocity, state, channel)),
        ),
        MessageView::Arp { note, state, .. } => {
            &&& reaction matches Reaction::Arp(action)
            &&& if state == 1 {
                starts(before.arp, after.arp, gesture_identifier(addr, note), m, action)
            } else {
                stops(before.arp, after.arp, gesture_identifier(addr, note), action)
            }
        },
        MessageView::Chord { note, state, .. } => {
            &&& reaction matches Reaction::Chord(action)
            &&& if state == 1 {
                chord_starts(before.chord, after.chord, gesture_identifier(addr, note), m, action)
            } else {
                chord_stops(before.chord, after.chord, gesture_identifier(addr, note), m, action)
            }
        },
        MessageView::PitchWheel { pos, prev_pos, channel } => {
            &&& reaction matches Reaction::Ramp(ramp)
            &&& ramp.positions() == ramp_positions(prev_pos, pos)
            &&& ramp.channel() == channel
        },
        MessageView::CC { channel, value, channel2 } => sends(
            reaction,
            Port::Instrument,
            seq![
                MidiEvent::ControlChange {
                    control: data_byte(channel),
                    value: data_byte(value),
                    channel: channel_of(channel2),
                },
            ],
        ),
        MessageView::ControlMessage { .. } => sends(
            reaction,
            Port::Control,
            control_events(before.daw, m),
        ),
        MessageView::TrackMessage { .. } => sends(reaction, Port::Control, track_events(m)),
    }
}

impl Message {
    /// Dispatches the message: gives the reply to send back, if the message
    /// has one, and what is to be done for it.
    pub fn handle_and_return(self, ctx: &VPadMessageContext, handlers: &mut Handlers) -> (r: (
        Option<Message>,
        Reaction,
    ))
        ensures
            dispatched(self@, ctx.addr@, *old(handlers), *final(handlers), r.0, r.1),
    {
        match self {
            Message::HandShake { .. } => {
                (
                    Some(
                        Message::HandShake {
                            name: String::from_str(SERVER_NAME),
                            platform: String::from_str(SERVER_PLATFORM),
                        },
                    ),
                    Reaction::Nothing,
                )
            },
            Message::Midi { note, velocity, state, channel } => {
                let mut events: Vec<MidiEvent> = Vec::new();
                match midi_note_message_with_channel_number(note, velocity, state, channel) {
                    Some(e) => events.push(e),
                    None => {},
                }
                assert(events@ =~= one_or_none(note_event(note as int, velocity, state, channel)));
                (None, Reaction::Send { port: Port::Instrument, events })
            },
            Message::Arp { note, .. } => {
                let identifier = ctx.identifier(note);
                let action = handlers.arp.handle(identifier, self);
                (None, Reaction::Arp(action))
            },
            Message::Chord { note, .. } => {
                let identifier = ctx.identifier(note);
                let action = handlers.chord.handle(identifier, self);
                (None, Reaction::Chord(action))
            },
            Message::PitchWheel { pos, prev_pos, channel } => {
                (None, Reaction::Ramp(move_to_smoothly(prev_pos, pos, channel)))
            },
            Message::CC { channel, value, channel2 } => {
                let mut events: Vec<MidiEvent> = Vec::new();
                events.push(cc_message_with_channel_number(channel, value, channel2));
                assert(events@ =~= seq![
                    MidiEvent::ControlChange {
                        control: data_byte(channel),
                        value: data_byte(value),
                        channel: channel_of(channel2),
                    },
                ]);
                (None, Reaction::Send { port: Port::Instrument, events })
            },
            Message::ControlMessage { .. } => {
                let events = handle_control_msg(handlers.daw, self);
                (None, Reaction::Send { port: Port::Control, events })
            },
            Message::TrackMessage { .. } => {
                let events = handle_track_message(self);
                (None, Reaction::Send { port: Port::Control, events })
            },
        }
    }
}

} // verus!
