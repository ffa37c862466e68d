//! Operation codes of the wire protocol and the identity the server reports.

use vstd::prelude::*;

verus! {

pub const HANDSHAKE_OP: i8 = 1;

pub const MIDI_OP: i8 = 2;

pub const ARP_OP: i8 = 3;

pub const CHORD_OP: i8 = 4;

pub const PITCHWHEEL_OP: i8 = 5;

pub const CC_OP: i8 = 7;

pub const CONTROL_OP: i8 = 8;

pub const TRACK_OP: i8 = 9;

pub const SERVER_NAME: &'static str = "VPadServer";

pub const SERVER_PLATFORM: &'static str = "Windows x86 Rust";

pub const SERVER_VERSION: &'static str = "v0.1.0";

} // verus!
