//! Note numbers by name. Middle C is C 4, note 60; C -1 is note 0.

use vstd::prelude::*;

verus! {

pub const A_SHARP_2: i8 = 46;

pub const B_2: i8 = 47;

pub const A_SHARP_4: i8 = 70;

pub const B_4: i8 = 71;

pub const C_5: i8 = 72;

pub const E_5: i8 = 76;

pub const G_5: i8 = 79;

pub const G_SHARP_5: i8 = 80;

pub const A_5: i8 = 81;

pub const D_6: i8 = 86;

pub const A_6: i8 = 93;

pub const A_SHARP_6: i8 = 94;

pub const B_6: i8 = 95;

pub const C_7: i8 = 96;

pub const C_SHARP_7: i8 = 97;

pub const D_SHARP_7: i8 = 99;

pub const E_7: i8 = 100;

pub const F_7: i8 = 101;

/// The number of the note `semitone` semitones above the C of `octave`.
pub open spec fn note_number(octave: int, semitone: int) -> int {
    12 * (octave + 1) + semitone
}

/// The named notes are where their names say.
pub proof fn lemma_named_notes()
    ensures
        A_SHARP_2 == note_number(2, 10),
        B_2 == note_number(2, 11),
        A_SHARP_4 == note_number(4, 10),
        B_4 == note_number(4, 11),
        C_5 == note_number(5, 0),
        E_5 == note_number(5, 4),
        G_5 == note_number(5, 7),
        G_SHARP_5 == note_number(5, 8),
        A_5 == note_number(5, 9),
        D_6 == note_number(6, 2),
        A_6 == note_number(6, 9),
        A_SHARP_6 == note_number(6, 10),
        B_6 == note_number(6, 11),
        C_7 == note_number(7, 0),
        C_SHARP_7 == note_number(7, 1),
        D_SHARP_7 == note_number(7, 3),
        E_7 == note_number(7, 4),
        F_7 == note_number(7, 5),
{
}

} // verus!
