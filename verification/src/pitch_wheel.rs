//! The pitch wheel: a move to a position, and the ramp that gets there one
//! position at a time.

use crate::midi_connect::{channel_of, map_num_to_channel, pitch_wheel_message_with_channel, MidiEvent};
use vstd::prelude::*;

verus! {

/// Nanoseconds between two steps of a ramp: one millisecond.
pub const RAMP_STEP_NANOS: u64 = 1_000_000;

/// The pitch-bend event for a wheel position: the position times 128 on the
/// channel that the number names. A negative position has none.
pub open spec fn wheel_event(pos: i8, channel: i8) -> Option<MidiEvent> {
    if pos < 0 {
        None
    } else {
        Some(MidiEvent::PitchBend { position: (pos * 128) as u16, channel: channel_of(channel) })
    }
}

/// The event that puts the wheel at `pos`.
pub fn move_to(pos: i8, channel: i8) -> (r: Option<MidiEvent>)
    ensures
        r == wheel_event(pos, channel),
        r matches Some(e) ==> e.wf(),
{
    pitch_wheel_message_with_channel(pos, map_num_to_channel(channel))
}

/// Every position from `prev_pos` to `pos`, both included, in the order in
/// which the wheel passes them: climbing when the target is higher, falling
/// otherwise.
pub open spec fn ramp_positions(prev_pos: i8, pos: i8) -> Seq<i8> {
    if prev_pos > pos {
        Seq::new((prev_pos - pos + 1) as nat, |i: int| (prev_pos - i) as i8)
    } else {
        Seq::new((pos - prev_pos + 1) as nat, |i: int| (prev_pos + i) as i8)
    }
}

/// What one step makes a ramp do.
#[derive(Clone, Copy, Debug, PartialEq, Eq, Structural)]
pub enum RampStep {
    /// A newer ramp has taken over, or no position is left: the ramp ends.
    Stop,
    /// The wheel moves with this event, if the position has one; after the
    /// last position the ramp ends.
    Move { event: Option<MidiEvent>, last: bool },
}

/// A ramp under way: the positions it passes and its channel.
pub struct PitchRamp {
    positions: Vec<i8>,
    channel: i8,
}

impl PitchRamp {
    /// The positions in the order in which the wheel passes them.
    pub closed spec fn positions(self) -> Seq<i8> {
        self.positions@
    }

    /// The channel number of the protocol that the wheel moves on.
    pub closed spec fn channel(self) -> i8 {
        self.channel
    }

    /// How many positions the ramp passes.
    pub fn len(&self) -> (n: usize)
        ensures
            n == self.positions().len(),
    {
        self.positions.len()
    }

    /// Step `i` of the ramp: the wheel moves to position `i`, unless a newer
    /// ramp has signalled this one to stop or it has no such position.
    pub fn step(&self, i: usize, stopped: bool) -> (step: RampStep)
        ensures
            stopped || i >= self.positions().len() ==> step == RampStep::Stop,
            !stopped && i < self.positions().len() ==> step == (RampStep::Move {
                event: wheel_event(self.positions()[i as int], self.channel()),
                last: i == self.positions().len() - 1,
            }),
            step matches RampStep::Move { event: Some(e), .. } ==> e.wf(),
    {
        if stopped || i >= self.positions.len() {
            return RampStep::Stop;
        }
        RampStep::Move {
            event: move_to(self.positions[i], self.channel),
            last: i == self.positions.len() - 1,
        }
    }
}

/// The ramp that takes the wheel from `prev_pos` to `pos`. Whoever runs it
/// first signals every ramp still under way to stop, so that only the newest
/// moves the wheel, and then takes one step every [`RAMP_STEP_NANOS`].
pub fn move_to_smoothly(prev_pos: i8, pos: i8, channel: i8) -> (ramp: PitchRamp)
    ensures
        ramp.positions() == ramp_positions(prev_pos, pos),
        ramp.channel() == channel,
{
    let mut vec: Vec<i8> = Vec::new();
    if prev_pos > pos {
        let mut value: i8 = prev_pos;
        while value > pos
            invariant
                pos <= value <= prev_pos,
                vec@.len() == prev_pos - value,
                forall|i: int| 0 <= i < vec@.len() ==> vec@[i] == prev_pos - i,
            decreases value - pos,
        {
            vec.push(value);
            value -= 1;
        }
        vec.push(pos);
    } else {
        let mut value: i8 = prev_pos;
        while value < pos
            invariant
                prev_pos <= value <= pos,
                vec@.len() == value - prev_pos,
                forall|i: int| 0 <= i < vec@.len() ==> vec@[i] == prev_pos + i,
            decreases pos - value,
        {
            vec.push(value);
            value += 1;
        }
        vec.push(pos);
    }
    assert(vec@ =~= ramp_positions(prev_pos, pos));
    PitchRamp { positions: vec, channel }
}

/// A ramp starts where the wheel was, ends at the target, and moves by one
/// position at a time.
pub proof fn lemma_ramp_is_gapless(prev_pos: i8, pos: i8)
    ensures
        ramp_positions(prev_pos, pos).len() >= 1,
        ramp_positions(prev_pos, pos).first() == prev_pos,
        ramp_positions(prev_pos, pos).last() == pos,
        forall|i: int|
            0 <= i < ramp_positions(prev_pos, pos).len() - 1 ==> #[trigger] ramp_positions(
                prev_pos,
                pos,
            )[i + 1] - ramp_positions(prev_pos, pos)[i] == if prev_pos > pos {
                -1int
            } else {
                1int
            },
{
}

} // verus!
