//! Transport control: an operation becomes the note that the target
//! application listens for on its control surface.

use crate::message::{Message, MessageView};
use crate::midi_connect::{data_byte, midi_note_message, MidiEvent};
use crate::midi_note_to_number::{
    A_5, A_6, A_SHARP_2, A_SHARP_4, A_SHARP_6, B_2, B_4, B_6, C_5, C_7, C_SHARP_7, D_6, D_SHARP_7,
    E_5, E_7, F_7, G_5, G_SHARP_5,
};
use vstd::prelude::*;

verus! {

/// The application that is controlled.
#[derive(Clone, Copy, Debug, PartialEq, Eq, Hash, Structural)]
pub enum DawType {
    McuDefault,
    FLStudio,
    StudioOne,
    Protools,
    Reaper,
    AbletonLive,
    Cubase,
    AdobeAudition,
    CakeWalk,
    Logic,
}

pub const OP_PLAY: i8 = 0;

pub const OP_STOP: i8 = 1;

pub const OP_RECORD: i8 = 2;

pub const OP_UNDO: i8 = 3;

pub const OP_REDO: i8 = 4;

pub const OP_LOOP: i8 = 5;

pub const OP_SAVE: i8 = 6;

pub const OP_ZOOM: i8 = 7;

pub const OP_CURSOR_L: i8 = 8;

pub const OP_CURSOR_R: i8 = 9;

pub const OP_CURSOR_U: i8 = 10;

pub const OP_CURSOR_D: i8 = 11;

pub const OP_CLICK: i8 = 12;

pub const OP_TRACK_BANK_LEFT: i8 = 13;

pub const OP_TRACK_BANK_RIGHT: i8 = 14;

pub const OP_STATE_ON: i8 = 1;

pub const OP_STATE_OFF: i8 = 0;

/// Stands in a table where the application has no such control.
pub const NO_CONTROL: i8 = -1;

/// The operation is one of the fifteen of the table.
pub open spec fn operation_fits(operation: i8) -> bool {
    OP_PLAY <= operation <= OP_TRACK_BANK_RIGHT
}

/// The note of each operation on the control surface of `daw`, by operation
/// code. A negative note means that the application has no such control.
pub open spec fn control_notes(daw: DawType) -> Seq<i8> {
    match daw {
        DawType::Protools => seq![
            A_SHARP_6,
            A_6,
            B_6,
            A_5,
            G_5,
            D_6,
            G_SHARP_5,
            D_SHARP_7,
            C_SHARP_7,
            E_7,
            C_7,
            F_7,
            NO_CONTROL,
            A_SHARP_2,
            B_2,
        ],
        DawType::Cubase => seq![
            A_SHARP_6,
            A_6,
            B_6,
            A_SHARP_4,
            B_4,
            NO_CONTROL,
            C_5,
            D_SHARP_7,
            C_SHARP_7,
            E_7,
            C_7,
            F_7,
            NO_CONTROL,
            A_SHARP_2,
            B_2,
        ],
        _ => seq![
            A_SHARP_6,
            A_6,
            B_6,
            E_5,
            G_5,
            D_6,
            NO_CONTROL,
            D_SHARP_7,
            C_SHARP_7,
            E_7,
            C_7,
            F_7,
            NO_CONTROL,
            A_SHARP_2,
            B_2,
        ],
    }
}

/// The table of `daw`.
pub fn init_map(daw: &DawType) -> (notes: Vec<i8>)
    ensures
        notes@ == control_notes(*daw),
{
    let notes: Vec<i8> = match daw {
        DawType::Protools => vec![
            A_SHARP_6, A_6, B_6, A_5, G_5, D_6, G_SHARP_5, D_SHARP_7, C_SHARP_7, E_7, C_7, F_7, NO_CONTROL,
            A_SHARP_2, B_2,
        ],
        DawType::Cubase => vec![
            A_SHARP_6, A_6, B_6, A_SHARP_4, B_4, NO_CONTROL, C_5, D_SHARP_7, C_SHARP_7, E_7, C_7, F_7, NO_CONTROL,
            A_SHARP_2, B_2,
        ],
        _ => vec![
            A_SHARP_6, A_6, B_6, E_5, G_5, D_6, NO_CONTROL, D_SHARP_7, C_SHARP_7, E_7, C_7, F_7, NO_CONTROL,
            A_SHARP_2, B_2,
        ],
    };
    assert(notes@ =~= control_notes(*daw));
    notes
}

/// The note of `operation` on the control surface of `daw`.
pub fn get_note_by_type(daw: &DawType, operation: i8) -> (note: i8)
    requires
        operation_fits(operation),
    ensures
        note == control_notes(*daw)[operation as int],
{
    let vec = init_map(daw);
    vec[operation as usize]
}

/// A press and release of `note` at `velocity`: its note-on, then its
/// note-off, both on the first channel. Nothing for a negative note.
pub open spec fn tap(note: i8, velocity: i8) -> Seq<MidiEvent> {
    if note < 0 {
        Seq::empty()
    } else {
        seq![
            MidiEvent::NoteOn { note: note as u8, velocity: data_byte(velocity), channel: 0 },
            MidiEvent::NoteOff { note: note as u8, velocity: data_byte(velocity), channel: 0 },
        ]
    }
}

/// The events of a control message for `daw`.
///
/// An operation outside the table gives nothing. Otherwise the note of the
/// operation is tapped at full velocity when the state is on, and tapped at
/// velocity zero when the state is off or the message closes itself; a
/// message that does both taps twice, on first.
pub open spec fn control_events(daw: DawType, m: MessageView) -> Seq<MidiEvent> {
    match m {
        MessageView::ControlMessage { operation, state, auto_close } => {
            if operation_fits(operation) {
                let note = control_notes(daw)[operation as int];
                let on = if state == OP_STATE_ON {
                    tap(note, 127)
                } else {
                    Seq::empty()
                };
                let off = if state == OP_STATE_OFF || auto_close == 1 {
                    tap(note, 0)
                } else {
                    Seq::empty()
                };
                on + off
            } else {
                Seq::empty()
            }
        },
        _ => Seq::empty(),
    }
}

/// Appends a press and release of `note` to `events`.
fn push_tap(events: &mut Vec<MidiEvent>, note: i8, velocity: i8)
    requires
        forall|i: int| 0 <= i < old(events)@.len() ==> (#[trigger] old(events)@[i]).wf(),
    ensures
        final(events)@ == old(events)@ + tap(note, velocity),
        forall|i: int| 0 <= i < final(events)@.len() ==> (#[trigger] final(events)@[i]).wf(),
{
    let ghost before = events@;
    match midi_note_message(note, velocity, 1) {
        Some(on) => events.push(on),
        None => {},
    }
    match midi_note_message(note, velocity, 0) {
        Some(off) => events.push(off),
        None => {},
    }
    assert(events@ =~= before + tap(note, velocity));
}

/// The events that a control message sends to the control surface of `daw`,
/// in order.
pub fn handle_control_msg(daw: DawType, message: Message) -> (events: Vec<MidiEvent>)
    ensures
        events@ == control_events(daw, message@),
        forall|i: int| 0 <= i < events@.len() ==> (#[trigger] events@[i]).wf(),
{
    let mut events: Vec<MidiEvent> = Vec::new();
    if let Message::ControlMessage { operation, state, auto_close } = message {
        if operation < 0 || operation > 14 {
            // the operation code is out of bounds: nothing can be executed
        } else {
            let note = get_note_by_type(&daw, operation);
            if state == OP_STATE_ON {
                push_tap(&mut events, note, 127);
            }
            if state == OP_STATE_OFF || auto_close == 1 {
                push_tap(&mut events, note, 0);
            }
        }
    }
    assert(events@ =~= control_events(daw, message@));
    events
}

} // verus!
