use vpad_core::midi_connect::{
    cc_message, cc_message_with_channel, cc_message_with_channel_number, map_num_to_channel,
    midi_note_message, midi_note_message_with_channel, midi_note_message_with_channel_number,
    pitch_wheel_message, pitch_wheel_message_with_channel, to_data_byte, MidiEvent,
};

#[test]
fn note_on_bytes_carry_status_note_velocity() {
    let e = MidiEvent::NoteOn { note: 60, velocity: 127, channel: 0 };
    assert_eq!(e.to_bytes(), vec![0x90, 60, 127]);
    let e = MidiEvent::NoteOn { note: 59, velocity: 88, channel: 9 };
    assert_eq!(e.to_bytes(), vec![0x99, 59, 88]);
}

#[test]
fn note_off_bytes_carry_status_note_velocity() {
    let e = MidiEvent::NoteOff { note: 60, velocity: 0, channel: 0 };
    assert_eq!(e.to_bytes(), vec![0x80, 60, 0]);
    let e = MidiEvent::NoteOff { note: 1, velocity: 2, channel: 15 };
    assert_eq!(e.to_bytes(), vec![0x8F, 1, 2]);
}

#[test]
fn pitch_bend_bytes_split_the_position_in_seven_bit_halves() {
    let e = MidiEvent::PitchBend { position: 0x2600, channel: 0 };
    assert_eq!(e.to_bytes(), vec![0xE0, 0, 76]);
    let e = MidiEvent::PitchBend { position: 0x3fff, channel: 3 };
    assert_eq!(e.to_bytes(), vec![0xE3, 127, 127]);
    let e = MidiEvent::PitchBend { position: 129, channel: 1 };
    assert_eq!(e.to_bytes(), vec![0xE1, 1, 1]);
}

#[test]
fn control_change_bytes_carry_status_controller_value() {
    let e = MidiEvent::ControlChange { control: 114, value: 65, channel: 0 };
    assert_eq!(e.to_bytes(), vec![0xB0, 114, 65]);
    let e = MidiEvent::ControlChange { control: 64, value: 127, channel: 4 };
    assert_eq!(e.to_bytes(), vec![0xB4, 64, 127]);
}

#[test]
fn channel_numbers_name_the_sixteen_channels() {
    assert_eq!(map_num_to_channel(1), 0);
    assert_eq!(map_num_to_channel(10), 9);
    assert_eq!(map_num_to_channel(16), 15);
    // every other number stands for the first channel
    assert_eq!(map_num_to_channel(0), 0);
    assert_eq!(map_num_to_channel(17), 0);
    assert_eq!(map_num_to_channel(-5), 0);
    assert_eq!(map_num_to_channel(127), 0);
}

#[test]
fn state_zero_releases_and_any_other_state_attacks() {
    assert_eq!(
        midi_note_message(60, 100, 1),
        Some(MidiEvent::NoteOn { note: 60, velocity: 100, channel: 0 })
    );
    assert_eq!(
        midi_note_message(60, 100, 0),
        Some(MidiEvent::NoteOff { note: 60, velocity: 100, channel: 0 })
    );
    assert_eq!(
        midi_note_message_with_channel(60, 100, 7, 5),
        Some(MidiEvent::NoteOn { note: 60, velocity: 100, channel: 5 })
    );
    assert_eq!(
        midi_note_message_with_channel_number(127, 0, 0, 16),
        Some(MidiEvent::NoteOff { note: 127, velocity: 0, channel: 15 })
    );
}

#[test]
fn a_negative_note_gives_no_message() {
    assert_eq!(midi_note_message(-1, 127, 1), None);
    assert_eq!(midi_note_message_with_channel(-128, 0, 0, 3), None);
    assert_eq!(midi_note_message_with_channel_number(-1, 1, 1, 1), None);
}

#[test]
fn wheel_position_is_scaled_by_128() {
    assert_eq!(
        pitch_wheel_message(64),
        Some(MidiEvent::PitchBend { position: 8192, channel: 0 })
    );
    assert_eq!(
        pitch_wheel_message_with_channel(127, 2),
        Some(MidiEvent::PitchBend { position: 16256, channel: 2 })
    );
    assert_eq!(
        pitch_wheel_message(0),
        Some(MidiEvent::PitchBend { position: 0, channel: 0 })
    );
    assert_eq!(pitch_wheel_message(-1), None);
}

#[test]
fn controller_changes_keep_their_bytes() {
    assert_eq!(
        cc_message(64, 127),
        MidiEvent::ControlChange { control: 64, value: 127, channel: 0 }
    );
    assert_eq!(
        cc_message_with_channel(1, 2, 3),
        MidiEvent::ControlChange { control: 1, value: 2, channel: 3 }
    );
    assert_eq!(
        cc_message_with_channel_number(7, 100, 2),
        MidiEvent::ControlChange { control: 7, value: 100, channel: 1 }
    );
}

#[test]
fn signed_values_keep_their_bits() {
    assert_eq!(to_data_byte(0), 0);
    assert_eq!(to_data_byte(127), 127);
    assert_eq!(to_data_byte(-1), 255);
    assert_eq!(to_data_byte(-128), 128);
}
