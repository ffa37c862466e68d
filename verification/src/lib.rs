//! Performance-control engine for a remote pad surface: the wire protocol,
//! the pulse schedule, the cyclic pattern generators and the lifecycle of the
//! gestures that play through them.

pub mod arp_handler;
pub mod chord_handler;
pub mod circle_container;
pub mod constants;
pub mod control_handler;
pub mod message;
pub mod message_codec;
pub mod midi_connect;
pub mod midi_note_to_number;
pub mod pitch_wheel;
pub mod pulse_generator;
pub mod server;
pub mod task_registry;
pub mod track_handler;
