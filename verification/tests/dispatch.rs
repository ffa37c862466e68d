use vpad_core::arp_handler::{ArpAction, ArpHandler};
use vpad_core::chord_handler::{ChordAction, ChordHandler};
use vpad_core::constants::{
    ARP_OP, CC_OP, CHORD_OP, CONTROL_OP, HANDSHAKE_OP, MIDI_OP, PITCHWHEEL_OP, SERVER_NAME,
    SERVER_PLATFORM, SERVER_VERSION, TRACK_OP,
};
use vpad_core::control_handler::{get_note_by_type, handle_control_msg, init_map, DawType};
use vpad_core::message::{Handlers, Message, Port, Reaction};
use vpad_core::midi_connect::MidiEvent;
use vpad_core::pitch_wheel::{move_to, move_to_smoothly, RampStep, RAMP_STEP_NANOS};
use vpad_core::server::VPadMessageContext;
use vpad_core::task_registry::{Registered, TaskRegistry};
use vpad_core::track_handler::{handle_track_message, send_on_and_off};

fn handlers() -> Handlers {
    Handlers { arp: ArpHandler::new(), chord: ChordHandler::new(), daw: DawType::McuDefault }
}

fn ctx() -> VPadMessageContext {
    VPadMessageContext { addr: "192.168.1.7:51234".to_string() }
}

fn tap(note: u8, velocity: u8) -> Vec<MidiEvent> {
    vec![
        MidiEvent::NoteOn { note, velocity, channel: 0 },
        MidiEvent::NoteOff { note, velocity, channel: 0 },
    ]
}

#[test]
fn opcodes_and_identity() {
    assert_eq!(
        [HANDSHAKE_OP, MIDI_OP, ARP_OP, CHORD_OP, PITCHWHEEL_OP, CC_OP, CONTROL_OP, TRACK_OP],
        [1, 2, 3, 4, 5, 7, 8, 9]
    );
    assert_eq!(SERVER_NAME, "VPadServer");
    assert_eq!(SERVER_PLATFORM, "Windows x86 Rust");
    assert_eq!(SERVER_VERSION, "v0.1.0");
}

#[test]
fn gesture_identifier_joins_address_and_note() {
    let c = ctx();
    assert_eq!(c.identifier(60), "192.168.1.7:51234 on 60");
    assert_eq!(c.identifier(0), "192.168.1.7:51234 on 0");
    assert_eq!(c.identifier(7), "192.168.1.7:51234 on 7");
    assert_eq!(c.identifier(127), "192.168.1.7:51234 on 127");
    assert_eq!(c.identifier(100), "192.168.1.7:51234 on 100");
    assert_eq!(c.identifier(-1), "192.168.1.7:51234 on -1");
    assert_eq!(c.identifier(-128), "192.168.1.7:51234 on -128");
    for n in i8::MIN..=i8::MAX {
        assert_eq!(c.identifier(n), format!("192.168.1.7:51234 on {}", n));
    }
}

#[test]
fn only_the_handshake_is_answered() {
    let mut h = handlers();
    let hello = Message::HandShake { name: "pad".to_string(), platform: "android".to_string() };
    match hello.handle_and_return(&ctx(), &mut h) {
        (Some(Message::HandShake { name, platform }), Reaction::Nothing) => {
            assert_eq!(name, "VPadServer");
            assert_eq!(platform, "Windows x86 Rust");
        }
        _ => panic!("no handshake reply"),
    }
    let others = vec![
        Message::Midi { note: 1, velocity: 1, state: 1, channel: 1 },
        Message::PitchWheel { pos: 1, prev_pos: 0, channel: 1 },
        Message::CC { channel: 1, value: 1, channel2: 1 },
        Message::ControlMessage { operation: 0, state: 1, auto_close: 0 },
        Message::TrackMessage { nth: 1, state: 0, value: 0 },
    ];
    for m in others {
        let (reply, _) = m.handle_and_return(&ctx(), &mut h);
        assert!(reply.is_none());
    }
}

#[test]
fn a_note_goes_straight_to_the_instrument() {
    let mut h = handlers();
    let m = Message::Midi { note: 60, velocity: 100, state: 1, channel: 2 };
    match m.handle_and_return(&ctx(), &mut h) {
        (None, Reaction::Send { port, events }) => {
            assert_eq!(port, Port::Instrument);
            assert_eq!(events, vec![MidiEvent::NoteOn { note: 60, velocity: 100, channel: 1 }]);
        }
        _ => panic!("not sent"),
    }
    let m = Message::Midi { note: 60, velocity: 0, state: 0, channel: 2 };
    match m.handle_and_return(&ctx(), &mut h) {
        (None, Reaction::Send { port, events }) => {
            assert_eq!(port, Port::Instrument);
            assert_eq!(events, vec![MidiEvent::NoteOff { note: 60, velocity: 0, channel: 1 }]);
        }
        _ => panic!("not sent"),
    }
    let m = Message::Midi { note: -3, velocity: 100, state: 1, channel: 2 };
    match m.handle_and_return(&ctx(), &mut h) {
        (None, Reaction::Send { events, .. }) => assert!(events.is_empty()),
        _ => panic!("not sent"),
    }
}

#[test]
fn a_controller_change_goes_to_the_instrument() {
    let mut h = handlers();
    let m = Message::CC { channel: 64, value: 127, channel2: 3 };
    match m.handle_and_return(&ctx(), &mut h) {
        (None, Reaction::Send { port, events }) => {
            assert_eq!(port, Port::Instrument);
            assert_eq!(events, vec![MidiEvent::ControlChange { control: 64, value: 127, channel: 2 }]);
        }
        _ => panic!("not sent"),
    }
}

#[test]
fn arp_messages_reach_the_arpeggiator_under_the_gesture_identifier() {
    let mut h = handlers();
    let start = Message::Arp {
        note: 60,
        velocity: 100,
        state: 1,
        method: 1,
        rate: 6,
        swing_pct: 0,
        up_note_cnt: 2,
        velocity_automation: 0,
        dynamic_pct: 100,
        bpm: 120,
        channel: 1,
    };
    let (reply, reaction) = start.handle_and_return(&ctx(), &mut h);
    assert!(reply.is_none());
    assert!(matches!(reaction, Reaction::Arp(ArpAction::Start { ticket: 0, replaced: None, .. })));
    assert_eq!(h.arp.running(), 1);
    assert_eq!(h.chord.running(), 0);
    // the same note from another peer is another gesture
    let other = VPadMessageContext { addr: "192.168.1.8:40000".to_string() };
    let stop = Message::Arp {
        note: 60,
        velocity: 0,
        state: 0,
        method: 1,
        rate: 6,
        swing_pct: 0,
        up_note_cnt: 2,
        velocity_automation: 0,
        dynamic_pct: 100,
        bpm: 120,
        channel: 1,
    };
    let (_, reaction) = stop.handle_and_return(&other, &mut h);
    assert!(matches!(reaction, Reaction::Arp(ArpAction::Nothing)));
    assert_eq!(h.arp.running(), 1);
    let stop = Message::Arp {
        note: 60,
        velocity: 0,
        state: 0,
        method: 1,
        rate: 6,
        swing_pct: 0,
        up_note_cnt: 2,
        velocity_automation: 0,
        dynamic_pct: 100,
        bpm: 120,
        channel: 1,
    };
    let (_, reaction) = stop.handle_and_return(&ctx(), &mut h);
    assert!(matches!(reaction, Reaction::Arp(ArpAction::Stop { ticket: 0 })));
    assert_eq!(h.arp.running(), 0);
}

#[test]
fn chord_messages_reach_the_chord_handler() {
    let mut h = handlers();
    let start = Message::Chord {
        note: 48,
        velocity: 80,
        state: 1,
        bpm: 100,
        chord_type: 0,
        chord_level: 1,
        transpose: 0,
        arp_delay: 25,
        channel: 1,
    };
    let (reply, reaction) = start.handle_and_return(&ctx(), &mut h);
    assert!(reply.is_none());
    assert!(matches!(reaction, Reaction::Chord(ChordAction::Start { ticket: 0, .. })));
    assert_eq!(h.chord.running(), 1);
    assert_eq!(h.arp.running(), 0);
    let stop = Message::Chord {
        note: 48,
        velocity: 0,
        state: 0,
        bpm: 100,
        chord_type: 0,
        chord_level: 1,
        transpose: 0,
        arp_delay: 25,
        channel: 1,
    };
    match stop.handle_and_return(&ctx(), &mut h) {
        (None, Reaction::Chord(ChordAction::Stop { cancel, releases })) => {
            assert_eq!(cancel, Some(0));
            assert_eq!(releases.len(), 4);
            assert_eq!(releases[3], MidiEvent::NoteOff { note: 59, velocity: 0, channel: 0 });
        }
        _ => panic!("not stopped"),
    }
    assert_eq!(h.chord.running(), 0);
}

#[test]
fn a_pitch_wheel_message_becomes_a_ramp() {
    let mut h = handlers();
    let m = Message::PitchWheel { pos: 3, prev_pos: 0, channel: 2 };
    match m.handle_and_return(&ctx(), &mut h) {
        (None, Reaction::Ramp(ramp)) => {
            assert_eq!(ramp.len(), 4);
            assert_eq!(
                ramp.step(3, false),
                RampStep::Move {
                    event: Some(MidiEvent::PitchBend { position: 384, channel: 1 }),
                    last: true
                }
            );
        }
        _ => panic!("no ramp"),
    }
}

#[test]
fn ramps_climb_and_fall_through_every_position() {
    let ramp = move_to_smoothly(2, 5, 1);
    let positions: Vec<RampStep> = (0..ramp.len()).map(|i| ramp.step(i, false)).collect();
    let expected: Vec<RampStep> = [2u16, 3, 4, 5]
        .iter()
        .enumerate()
        .map(|(i, p)| RampStep::Move {
            event: Some(MidiEvent::PitchBend { position: p * 128, channel: 0 }),
            last: i == 3,
        })
        .collect();
    assert_eq!(positions, expected);

    let ramp = move_to_smoothly(5, 2, 1);
    let positions: Vec<RampStep> = (0..ramp.len()).map(|i| ramp.step(i, false)).collect();
    let expected: Vec<RampStep> = [5u16, 4, 3, 2]
        .iter()
        .enumerate()
        .map(|(i, p)| RampStep::Move {
            event: Some(MidiEvent::PitchBend { position: p * 128, channel: 0 }),
            last: i == 3,
        })
        .collect();
    assert_eq!(positions, expected);

    // staying in place is a ramp of one position
    let ramp = move_to_smoothly(64, 64, 1);
    assert_eq!(ramp.len(), 1);
    assert_eq!(
        ramp.step(0, false),
        RampStep::Move { event: Some(MidiEvent::PitchBend { position: 8192, channel: 0 }), last: true }
    );
    // the widest ramp passes all 256 positions
    assert_eq!(move_to_smoothly(-128, 127, 1).len(), 256);
    assert_eq!(move_to_smoothly(127, -128, 1).len(), 256);
    assert_eq!(RAMP_STEP_NANOS, 1_000_000);
}

#[test]
fn a_superseded_ramp_stops_and_negative_positions_are_silent() {
    let ramp = move_to_smoothly(-1, 1, 4);
    assert_eq!(ramp.step(0, true), RampStep::Stop);
    assert_eq!(ramp.step(0, false), RampStep::Move { event: None, last: false });
    assert_eq!(
        ramp.step(1, false),
        RampStep::Move { event: Some(MidiEvent::PitchBend { position: 0, channel: 3 }), last: false }
    );
    assert_eq!(ramp.step(3, false), RampStep::Stop);
    assert_eq!(move_to(10, 4), Some(MidiEvent::PitchBend { position: 1280, channel: 3 }));
    assert_eq!(move_to(-10, 4), None);
}

#[test]
fn control_tables() {
    let default = vec![94, 93, 95, 76, 79, 86, -1, 99, 97, 100, 96, 101, -1, 46, 47];
    for daw in [
        DawType::McuDefault,
        DawType::FLStudio,
        DawType::StudioOne,
        DawType::Reaper,
        DawType::AbletonLive,
        DawType::AdobeAudition,
        DawType::CakeWalk,
        DawType::Logic,
    ] {
        assert_eq!(init_map(&daw), default);
    }
    assert_eq!(
        init_map(&DawType::Protools),
        vec![94, 93, 95, 81, 79, 86, 80, 99, 97, 100, 96, 101, -1, 46, 47]
    );
    assert_eq!(
        init_map(&DawType::Cubase),
        vec![94, 93, 95, 70, 71, -1, 72, 99, 97, 100, 96, 101, -1, 46, 47]
    );
    assert_eq!(get_note_by_type(&DawType::McuDefault, 0), 94);
    assert_eq!(get_note_by_type(&DawType::Cubase, 6), 72);
    assert_eq!(get_note_by_type(&DawType::Protools, 14), 47);
}

#[test]
fn control_messages_tap_the_note_of_the_operation() {
    let on = Message::ControlMessage { operation: 0, state: 1, auto_close: 0 };
    assert_eq!(handle_control_msg(DawType::McuDefault, on), tap(94, 127));
    let off = Message::ControlMessage { operation: 1, state: 0, auto_close: 0 };
    assert_eq!(handle_control_msg(DawType::McuDefault, off), tap(93, 0));
    // on and closing itself: both taps, on first
    let both = Message::ControlMessage { operation: 2, state: 1, auto_close: 1 };
    let mut expected = tap(95, 127);
    expected.extend(tap(95, 0));
    assert_eq!(handle_control_msg(DawType::McuDefault, both), expected);
    // neither on nor off and not closing: nothing
    let neither = Message::ControlMessage { operation: 2, state: 5, auto_close: 0 };
    assert_eq!(handle_control_msg(DawType::McuDefault, neither), vec![]);
}

#[test]
fn control_messages_without_a_control_send_nothing() {
    // save has no note by default, loop has none in cubase
    let save = Message::ControlMessage { operation: 6, state: 1, auto_close: 1 };
    assert_eq!(handle_control_msg(DawType::McuDefault, save), vec![]);
    let save = Message::ControlMessage { operation: 6, state: 1, auto_close: 0 };
    assert_eq!(handle_control_msg(DawType::Protools, save), tap(80, 127));
    let looping = Message::ControlMessage { operation: 5, state: 1, auto_close: 0 };
    assert_eq!(handle_control_msg(DawType::Cubase, looping), vec![]);
    // operations outside the table
    let m = Message::ControlMessage { operation: 15, state: 1, auto_close: 0 };
    assert_eq!(handle_control_msg(DawType::McuDefault, m), vec![]);
    let m = Message::ControlMessage { operation: -1, state: 1, auto_close: 0 };
    assert_eq!(handle_control_msg(DawType::McuDefault, m), vec![]);
    // another kind of message
    let m = Message::Midi { note: 1, velocity: 1, state: 1, channel: 1 };
    assert_eq!(handle_control_msg(DawType::McuDefault, m), vec![]);
}

#[test]
fn control_messages_are_dispatched_to_the_control_surface() {
    let mut h = handlers();
    h.daw = DawType::Cubase;
    let m = Message::ControlMessage { operation: 3, state: 1, auto_close: 0 };
    match m.handle_and_return(&ctx(), &mut h) {
        (None, Reaction::Send { port, events }) => {
            assert_eq!(port, Port::Control);
            assert_eq!(events, tap(70, 127));
        }
        _ => panic!("not sent"),
    }
}

#[test]
fn track_messages() {
    let m = |nth, state, value| Message::TrackMessage { nth, state, value };
    // fader released and touched
    assert_eq!(handle_track_message(m(1, 0, 0)), tap(104, 0));
    assert_eq!(handle_track_message(m(3, 1, 0)), tap(106, 127));
    // fader value: the pitch wheel of the track's channel
    assert_eq!(
        handle_track_message(m(3, 2, 100)),
        vec![MidiEvent::PitchBend { position: 12800, channel: 2 }]
    );
    assert_eq!(handle_track_message(m(3, 2, -1)), vec![]);
    // solo, mute, record arm, on or off
    assert_eq!(handle_track_message(m(2, 3, 0)), tap(9, 127));
    assert_eq!(handle_track_message(m(2, 4, 0)), tap(9, 127));
    assert_eq!(handle_track_message(m(2, 5, 0)), tap(17, 127));
    assert_eq!(handle_track_message(m(2, 6, 0)), tap(17, 127));
    assert_eq!(handle_track_message(m(2, 7, 0)), tap(1, 127));
    assert_eq!(handle_track_message(m(2, 8, 0)), tap(1, 127));
    // a state that is none of a track
    assert_eq!(handle_track_message(m(2, 9, 0)), vec![]);
    assert_eq!(handle_track_message(m(2, -1, 0)), vec![]);
}

#[test]
fn track_buttons_outside_the_notes_send_nothing() {
    let m = |nth, state, value| Message::TrackMessage { nth, state, value };
    // record arm of track 0 would be note -1; fader touch of track 25 note 128
    assert_eq!(handle_track_message(m(0, 7, 0)), vec![]);
    assert_eq!(handle_track_message(m(24, 1, 0)), tap(127, 127));
    assert_eq!(handle_track_message(m(25, 1, 0)), vec![]);
    assert_eq!(handle_track_message(m(127, 0, 0)), vec![]);
    assert_eq!(handle_track_message(m(-100, 1, 0)), tap(3, 127));
    assert_eq!(send_on_and_off(-1, 127), vec![]);
    assert_eq!(send_on_and_off(5, 0), tap(5, 0));
}

#[test]
fn track_messages_are_dispatched_to_the_control_surface() {
    let mut h = handlers();
    let m = Message::TrackMessage { nth: 1, state: 5, value: 0 };
    match m.handle_and_return(&ctx(), &mut h) {
        (None, Reaction::Send { port, events }) => {
            assert_eq!(port, Port::Control);
            assert_eq!(events, tap(16, 127));
        }
        _ => panic!("not sent"),
    }
}

#[test]
fn registry_keeps_one_ticket_per_identifier() {
    let mut r = TaskRegistry::new();
    assert_eq!(r.len(), 0);
    assert_eq!(r.get(&"a".to_string()), None);
    assert_eq!(r.register("a".to_string()), Some(Registered { ticket: 0, replaced: None }));
    assert_eq!(r.register("b".to_string()), Some(Registered { ticket: 1, replaced: None }));
    assert_eq!(r.register("a".to_string()), Some(Registered { ticket: 2, replaced: Some(0) }));
    assert_eq!(r.len(), 2);
    assert_eq!(r.get(&"a".to_string()), Some(2));
    assert_eq!(r.get(&"b".to_string()), Some(1));
    assert_eq!(r.remove(&"a".to_string()), Some(2));
    assert_eq!(r.remove(&"a".to_string()), None);
    assert_eq!(r.len(), 1);
    assert_eq!(r.get(&"b".to_string()), Some(1));
    assert!(!r.issued_all());
}
