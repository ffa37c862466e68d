//! Mixer tracks: fader touch, fader value, solo, mute and record arm of the
//! track with a given number.

use crate::control_handler::tap;
use crate::message::{Message, MessageView};
use crate::midi_connect::{
    channel_of, map_num_to_channel, midi_note_message, pitch_wheel_message_with_channel, MidiEvent,
};
use vstd::prelude::*;

verus! {

pub const STATE_FADER_UP: i8 = 0;

pub const STATE_FADER_DOWN: i8 = 1;

pub const STATE_FADER_VALUE_CHANGED: i8 = 2;

pub const STATE_SOLO_ON: i8 = 3;

pub const STATE_SOLO_OFF: i8 = 4;

pub const STATE_MUTE_ON: i8 = 5;

pub const STATE_MUTE_OFF: i8 = 6;

pub const STATE_REC_ON: i8 = 7;

pub const STATE_REC_OFF: i8 = 8;

pub const TRACK_FADER_TOUCH_NOTE_OFFSET: i8 = 104;

pub const TRACK_SOLO_NOTE_OFFSET: i8 = 8;

pub const TRACK_MUTE_NOTE_OFFSET: i8 = 16;

pub const TRACK_REC_NOTE_OFFSET: i8 = 0;

/// A press and release of `note` at `velocity`; nothing for a negative note.
pub fn send_on_and_off(note: i8, velocity: i8) -> (events: Vec<MidiEvent>)
    ensures
        events@ == tap(note, velocity),
        forall|i: int| 0 <= i < events@.len() ==> (#[trigger] events@[i]).wf(),
{
    let mut events: Vec<MidiEvent> = Vec::new();
    match midi_note_message(note, velocity, 1) {
        Some(on) => events.push(on),
        None => {},
    }
    match midi_note_message(note, velocity, 0) {
        Some(off) => events.push(off),
        None => {},
    }
    assert(events@ =~= tap(note, velocity));
    events
}

/// The button of track `nth` in the row of buttons that starts at note
/// `offset`, tapped at `velocity`; nothing where the row has no such note.
pub open spec fn track_tap(offset: i8, nth: i8, velocity: i8) -> Seq<MidiEvent> {
    if 0 <= offset + nth - 1 <= 127 {
        tap((offset + nth - 1) as i8, velocity)
    } else {
        Seq::empty()
    }
}

/// The events of a track message.
///
/// Releasing and touching a fader tap its touch button at velocity 0 and
/// 127; a new fader value moves the pitch wheel of the channel with the
/// track's number; solo, mute and record arm tap their button at full
/// velocity, whether they turn on or off. Any other state gives nothing.
pub open spec fn track_events(m: MessageView) -> Seq<MidiEvent> {
    match m {
        MessageView::TrackMessage { nth, state, value } => {
            if state == STATE_FADER_UP {
                track_tap(TRACK_FADER_TOUCH_NOTE_OFFSET, nth, 0)
            } else if state == STATE_FADER_DOWN {
                track_tap(TRACK_FADER_TOUCH_NOTE_OFFSET, nth, 127)
            } else if state == STATE_FADER_VALUE_CHANGED {
                if value >= 0 {
                    seq![
                        MidiEvent::PitchBend { position: (value * 128) as u16, channel: channel_of(nth) },
                    ]
                } else {
                    Seq::empty()
                }
            } else if state == STATE_SOLO_ON || state == STATE_SOLO_OFF {
                track_tap(TRACK_SOLO_NOTE_OFFSET, nth, 127)
            } else if state == STATE_MUTE_ON || state == STATE_MUTE_OFF {
                track_tap(TRACK_MUTE_NOTE_OFFSET, nth, 127)
            } else if state == STATE_REC_ON || state == STATE_REC_OFF {
                track_tap(TRACK_REC_NOTE_OFFSET, nth, 127)
            } else {
                Seq::empty()
            }
        },
        _ => Seq::empty(),
    }
}

fn tap_track_button(offset: i8, nth: i8, velocity: i8) -> (events: Vec<MidiEvent>)
    ensures
        events@ == track_tap(offset, nth, velocity),
        forall|i: int| 0 <= i < events@.len() ==> (#[trigger] events@[i]).wf(),
{
    let note: i16 = offset as i16 + nth as i16 - 1;
    if note < 0 || note > 127 {
        Vec::new()
    } else {
        send_on_and_off(note as i8, velocity)
    }
}

/// The events that a track message sends to the control surface, in order.
pub fn handle_track_message(msg: Message) -> (events: Vec<MidiEvent>)
    ensures
        events@ == track_events(msg@),
        forall|i: int| 0 <= i < events@.len() ==> (#[trigger] events@[i]).wf(),
{
    if let Message::TrackMessage { nth, state, value } = msg {
        if state == STATE_FADER_UP {
            tap_track_button(TRACK_FADER_TOUCH_NOTE_OFFSET, nth, 0)
        } else if state == STATE_FADER_DOWN {
            tap_track_button(TRACK_FADER_TOUCH_NOTE_OFFSET, nth, 127)
        } else if state == STATE_FADER_VALUE_CHANGED {
            let mut events: Vec<MidiEvent> = Vec::new();
            match pitch_wheel_message_with_channel(value, map_num_to_channel(nth)) {
                Some(e) => events.push(e),
                None => {},
            }
            assert(events@ =~= track_events(msg@));
            events
        } else if state == STATE_SOLO_ON || state == STATE_SOLO_OFF {
            tap_track_button(TRACK_SOLO_NOTE_OFFSET, nth, 127)
        } else if state == STATE_MUTE_ON || state == STATE_MUTE_OFF {
            tap_track_button(TRACK_MUTE_NOTE_OFFSET, nth, 127)
        } else if state == STATE_REC_ON || state == STATE_REC_OFF {
            tap_track_button(TRACK_REC_NOTE_OFFSET, nth, 127)
        } else {
            // the state is not one of a track
            Vec::new()
        }
    } else {
        Vec::new()
    }
}

} // verus!
