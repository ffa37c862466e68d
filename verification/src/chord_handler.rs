//! Chords: the voicing of a chord quality, its transposition, and the events
//! that sound and release it.

use crate::message::{Message, MessageView};
use crate::midi_connect::{
    channel_of, data_byte, midi_note_message_with_channel_number, MidiEvent,
};
use crate::pulse_generator::{PulseGenerator, DEFAULT_CHECK_INTERVAL};
use crate::task_registry::{Registered, TaskRegistry};
use vstd::prelude::*;

verus! {

pub const CHORD_TYPE_MAJOR: i8 = 0;

pub const CHORD_TYPE_MINOR: i8 = 1;

pub const CHORD_TYPE_DOM: i8 = 2;

pub const CHORD_TYPE_AUG: i8 = 3;

pub const CHORD_TYPE_DIM: i8 = 4;

pub const CHORD_TYPE_SUS2: i8 = 5;

pub const CHORD_TYPE_SUS4: i8 = 6;

pub const CHORD_TYPE_ADD6: i8 = 7;

pub const CHORD_TYPE_ADD9: i8 = 8;

pub const CHORD_LEVEL_3: i8 = 0;

pub const CHORD_LEVEL_7: i8 = 1;

pub const CHORD_LEVEL_9: i8 = 2;

pub const CHORD_LEVEL_11: i8 = 3;

pub const CHORD_LEVEL_13: i8 = 4;

/// The seven stacked thirds of a chord quality, as semitones above the root:
/// root, third, fifth, seventh, ninth, eleventh, thirteenth. A quality that
/// is not one of the seven named ones is voiced as major.
pub open spec fn chord_intervals(chord_type: i8) -> Seq<i8> {
    if chord_type == CHORD_TYPE_MINOR {
        seq![0, 3, 7, 10, 14, 17, 21]
    } else if chord_type == CHORD_TYPE_DOM {
        seq![0, 4, 7, 10, 14, 17, 21]
    } else if chord_type == CHORD_TYPE_AUG {
        seq![0, 4, 8, 11, 14, 17, 21]
    } else if chord_type == CHORD_TYPE_DIM {
        seq![0, 3, 6, 11, 14, 17, 21]
    } else if chord_type == CHORD_TYPE_SUS2 {
        seq![0, 2, 7, 11, 14, 17, 21]
    } else if chord_type == CHORD_TYPE_SUS4 {
        seq![0, 5, 7, 11, 14, 17, 21]
    } else {
        seq![0, 4, 7, 11, 14, 17, 21]
    }
}

/// A chord level leaves between none and all seven of the stacked thirds.
pub open spec fn chord_level_fits(chord_level: i8) -> bool {
    0 <= 3 + chord_level <= 7
}

/// The voicing of a quality at a level: its first `3 + chord_level`
/// intervals.
pub open spec fn chord_voicing(chord_type: i8, chord_level: i8) -> Seq<i8> {
    chord_intervals(chord_type).take(3 + chord_level)
}

/// The voicing of a chord quality at a level, lowest voice first.
pub fn build_note_offsets(chord_type: i8, chord_level: i8) -> (ret: Vec<i8>)
    requires
        chord_level_fits(chord_level),
    ensures
        ret@ == chord_voicing(chord_type, chord_level),
{
    let mut n: Vec<i8> = vec![0, 4, 7, 11, 14, 17, 21];
    if chord_type == CHORD_TYPE_MINOR {
        n.set(1, 3);
        n.set(3, 10);
    } else if chord_type == CHORD_TYPE_DOM {
        n.set(3, 10);
    } else if chord_type == CHORD_TYPE_AUG {
        n.set(2, 8);
    } else if chord_type == CHORD_TYPE_DIM {
        n.set(1, 3);
        n.set(2, 6);
    } else if chord_type == CHORD_TYPE_SUS2 {
        n.set(1, 2);
    } else if chord_type == CHORD_TYPE_SUS4 {
        n.set(1, 5);
    }
    assert(n@ =~= chord_intervals(chord_type));

    let count: usize = (3 + chord_level) as usize;
    let mut ret: Vec<i8> = Vec::new();
    let mut i: usize = 0;
    while i < count
        invariant
            i <= count <= 7,
            n@.len() == 7,
            ret@ == n@.take(i as int),
        decreases count - i,
    {
        ret.push(n[i]);
        i += 1;
    }
    ret
}

/// One rotation of a voicing: the top voice comes off, drops an octave and
/// goes in at the bottom.
pub open spec fn rotated_down(s: Seq<i8>) -> Seq<i8> {
    if s.len() == 0 {
        s
    } else {
        seq![(s.last() - 12) as i8] + s.drop_last()
    }
}

/// The top voice can drop an octave within the 8-bit signed range.
pub open spec fn rotation_fits(s: Seq<i8>) -> bool {
    s.len() > 0 ==> s.last() - 12 >= i8::MIN
}

/// The voicing after `n` rotations.
pub open spec fn transposed(s: Seq<i8>, n: nat) -> Seq<i8>
    decreases n,
{
    if n == 0 {
        s
    } else {
        rotated_down(transposed(s, (n - 1) as nat))
    }
}

/// How many rotations a transpose value asks for: none when it is negative.
pub open spec fn rotations(transpose: i8) -> nat {
    if transpose > 0 {
        transpose as nat
    } else {
        0
    }
}

/// Each of the first `n` rotations fits.
pub open spec fn transpose_fits(s: Seq<i8>, n: nat) -> bool {
    forall|k: nat| k < n ==> rotation_fits(#[trigger] transposed(s, k))
}

/// Rotates the voicing once.
pub fn transpose_vec_once(note_offs: &mut Vec<i8>)
    requires
        rotation_fits(old(note_offs)@),
    ensures
        final(note_offs)@ == rotated_down(old(note_offs)@),
{
    if note_offs.len() == 0 {
        return ;
    }
    let ghost start = note_offs@;
    let lastidx = note_offs.len() - 1;
    let last = note_offs[lastidx];
    let mut i: usize = lastidx;
    while i > 0
        invariant
            i <= lastidx,
            lastidx == start.len() - 1,
            note_offs@.len() == start.len(),
            forall|k: int| 0 <= k <= i ==> note_offs@[k] == start[k],
            forall|k: int| i < k <= lastidx ==> note_offs@[k] == start[k - 1],
        decreases i,
    {
        i -= 1;
        let moved = note_offs[i];
        note_offs.set(i + 1, moved);
    }
    note_offs.set(0, last - 12);
    assert(note_offs@ =~= rotated_down(start));
}

/// Rotates the voicing `transpose` times; a negative count leaves it as it
/// is.
pub fn transpose_vec(note_offs: &mut Vec<i8>, transpose: i8)
    requires
        transpose_fits(old(note_offs)@, rotations(transpose)),
    ensures
        final(note_offs)@ == transposed(old(note_offs)@, rotations(transpose)),
{
    let ghost start = note_offs@;
    let mut done: i8 = 0;
    while done < transpose
        invariant
            0 <= done,
            done <= transpose || done == 0,
            transpose_fits(start, rotations(transpose)),
            note_offs@ == transposed(start, done as nat),
        decreases transpose - done,
    {
        assert(rotation_fits(transposed(start, done as nat)));
        transpose_vec_once(note_offs);
        done += 1;
    }
}

/// The voicing of a chord after its transposition, where the level leaves a
/// voicing and every rotation fits.
pub open spec fn transposed_voicing(chord_type: i8, chord_level: i8, transpose: i8) -> Option<
    Seq<i8>,
> {
    if chord_level_fits(chord_level) && transpose_fits(
        chord_voicing(chord_type, chord_level),
        rotations(transpose),
    ) {
        Some(transposed(chord_voicing(chord_type, chord_level), rotations(transpose)))
    } else {
        None
    }
}

/// The transposed voicing of a chord, or nothing where it has none.
pub fn build_transposed_offsets(chord_type: i8, chord_level: i8, transpose: i8) -> (r: Option<
    Vec<i8>,
>)
    ensures
        match transposed_voicing(chord_type, chord_level, transpose) {
            Some(voicing) => r matches Some(v) && v@ == voicing,
            None => r is None,
        },
{
    if chord_level < -3 || chord_level > 4 {
        return None;
    }
    let mut note_offs = build_note_offsets(chord_type, chord_level);
    let ghost start = note_offs@;
    let mut done: i8 = 0;
    while done < transpose
        invariant
            0 <= done,
            done <= transpose || done == 0,
            chord_level_fits(chord_level),
            start == chord_voicing(chord_type, chord_level),
            note_offs@ == transposed(start, done as nat),
            forall|k: nat| k < done ==> rotation_fits(#[trigger] transposed(start, k)),
        decreases transpose - done,
    {
        let len = note_offs.len();
        if len > 0 && note_offs[len - 1] < -116 {
            assert(!rotation_fits(transposed(start, done as nat)));
            assert((done as nat) < rotations(transpose));
            assert(!transpose_fits(start, rotations(transpose)));
            return None;
        }
        transpose_vec_once(&mut note_offs);
        done += 1;
    }
    assert(done as nat == rotations(transpose));
    assert(transpose_fits(start, rotations(transpose)));
    Some(note_offs)
}

/// Rotating a voicing keeps the number of its voices.
pub proof fn lemma_transposed_len(s: Seq<i8>, n: nat)
    ensures
        transposed(s, n).len() == s.len(),
    decreases n,
{
    if n > 0 {
        lemma_transposed_len(s, (n - 1) as nat);
    }
}

/// The note message of one voice, `state` 0 for its release and anything
/// else for its attack; a negative note names nothing and gives no event.
pub fn send_midi_note_msg_once(note: i8, velocity: i8, state: i8, channel: i8) -> (r: Option<
    MidiEvent,
>)
    ensures
        r == note_event(note as int, velocity, state, channel),
        r matches Some(e) ==> e.wf(),
{
    if note < 0 {
        return None;
    }
    midi_note_message_with_channel_number(note, velocity, state, channel)
}

/// The note message for a note number, if it is one of the 128 notes.
pub open spec fn note_event(note: int, velocity: i8, state: i8, channel: i8) -> Option<MidiEvent> {
    if 0 <= note <= 127 {
        if state == 0 {
            Some(
                MidiEvent::NoteOff {
                    note: note as u8,
                    velocity: data_byte(velocity),
                    channel: channel_of(channel),
                },
            )
        } else {
            Some(
                MidiEvent::NoteOn {
                    note: note as u8,
                    velocity: data_byte(velocity),
                    channel: channel_of(channel),
                },
            )
        }
    } else {
        None
    }
}

/// The note messages of the voices `note_offs` above `note`, lowest place
/// first. A voice that falls outside the 128 notes gives no message.
pub open spec fn chord_events(
    note: i8,
    note_offs: Seq<i8>,
    velocity: i8,
    state: i8,
    channel: i8,
) -> Seq<MidiEvent>
    decreases note_offs.len(),
{
    if note_offs.len() == 0 {
        Seq::empty()
    } else {
        let front = chord_events(note, note_offs.drop_last(), velocity, state, channel);
        match note_event(note + note_offs.last(), velocity, state, channel) {
            Some(e) => front.push(e),
            None => front,
        }
    }
}

/// The note message of the voice `note_off` above `note`.
fn voice_event(note: i8, note_off: i8, velocity: i8, state: i8, channel: i8) -> (r: Option<
    MidiEvent,
>)
    ensures
        r == note_event(note + note_off, velocity, state, channel),
        r matches Some(e) ==> e.wf(),
{
    let voice: i16 = note as i16 + note_off as i16;
    if voice < 0 || voice > 127 {
        None
    } else {
        send_midi_note_msg_once(voice as i8, velocity, state, channel)
    }
}

fn voice_events(note: i8, note_offs: &Vec<i8>, velocity: i8, state: i8, channel: i8) -> (r: Vec<
    MidiEvent,
>)
    ensures
        r@ == chord_events(note, note_offs@, velocity, state, channel),
        forall|i: int| 0 <= i < r@.len() ==> (#[trigger] r@[i]).wf(),
{
    let mut events: Vec<MidiEvent> = Vec::new();
    let mut i: usize = 0;
    while i < note_offs.len()
        invariant
            i <= note_offs@.len(),
            events@ == chord_events(note, note_offs@.take(i as int), velocity, state, channel),
            forall|k: int| 0 <= k < events@.len() ==> (#[trigger] events@[k]).wf(),
        decreases note_offs@.len() - i,
    {
        assert(note_offs@.take(i + 1).drop_last() =~= note_offs@.take(i as int));
        match voice_event(note, note_offs[i], velocity, state, channel) {
            Some(e) => events.push(e),
            None => {},
        }
        i += 1;
    }
    assert(note_offs@.take(note_offs@.len() as int) =~= note_offs@);
    events
}

/// The attacks of all voices of a chord.
pub fn send_midi_on(note: i8, note_offs: Vec<i8>, velocity: i8, channel: i8) -> (r: Vec<MidiEvent>)
    ensures
        r@ == chord_events(note, note_offs@, velocity, 1, channel),
        forall|i: int| 0 <= i < r@.len() ==> (#[trigger] r@[i]).wf(),
{
    voice_events(note, &note_offs, velocity, 1, channel)
}

/// The releases of all voices of a chord.
pub fn send_midi_off(note: i8, note_offs: Vec<i8>, channel: i8) -> (r: Vec<MidiEvent>)
    ensures
        r@ == chord_events(note, note_offs@, 0, 0, channel),
        forall|i: int| 0 <= i < r@.len() ==> (#[trigger] r@[i]).wf(),
{
    voice_events(note, &note_offs, 0, 0, channel)
}

/// Nanoseconds in a minute, divided by the hundred of a percentage.
pub const NANOS_PER_MINUTE_PERCENT: u64 = 600_000_000;

/// Nanoseconds between two voices of a strum: the strum takes
/// `arp_delay` percent of a beat, shared evenly among the voices.
pub open spec fn strum_interval_nanos(bpm: i16, arp_delay: i8, voices: int) -> int {
    NANOS_PER_MINUTE_PERCENT * arp_delay / (bpm * voices)
}

/// What one pulse makes a strum do.
#[derive(Clone, Copy, Debug, PartialEq, Eq, Structural)]
pub enum ChordStep {
    /// The strum was told to stop, or has no voice left: it ends.
    Stop,
    /// A voice sounds with this event, if its note is one of the 128; after
    /// the last voice the strum ends.
    Play { event: Option<MidiEvent>, last: bool },
}

/// A running strum: the chord it plays.
pub struct ChordTask {
    note: i8,
    velocity: i8,
    channel: i8,
    note_offs: Vec<i8>,
}

impl ChordTask {
    /// The root note.
    pub closed spec fn note(self) -> i8 {
        self.note
    }

    /// The velocity of every voice.
    pub closed spec fn velocity(self) -> i8 {
        self.velocity
    }

    /// The channel number of the protocol that the chord plays on.
    pub closed spec fn channel(self) -> i8 {
        self.channel
    }

    /// The voices as semitones above the root, in strumming order.
    pub closed spec fn voices(self) -> Seq<i8> {
        self.note_offs@
    }

    /// A strum of the voices `note_offs` above `note`.
    pub fn new(note: i8, velocity: i8, channel: i8, note_offs: Vec<i8>) -> (task: ChordTask)
        ensures
            task.note() == note,
            task.velocity() == velocity,
            task.channel() == channel,
            task.voices() == note_offs@,
    {
        ChordTask { note, velocity, channel, note_offs }
    }

    /// What the pulse numbered `i` does: it sounds voice `i`, unless the
    /// strum has been cancelled or has no such voice.
    pub fn on_tick(&self, i: u32, cancelled: bool) -> (step: ChordStep)
        ensures
            cancelled || i >= self.voices().len() ==> step == ChordStep::Stop,
            !cancelled && i < self.voices().len() ==> step == (ChordStep::Play {
                event: note_event(
                    self.note() + self.voices()[i as int],
                    self.velocity(),
                    1,
                    self.channel(),
                ),
                last: i == self.voices().len() - 1,
            }),
            step matches ChordStep::Play { event: Some(e), .. } ==> e.wf(),
    {
        if cancelled {
            return ChordStep::Stop;
        }
        let i = i as usize;
        if i >= self.note_offs.len() {
            return ChordStep::Stop;
        }
        let event = voice_event(self.note, self.note_offs[i], self.velocity, 1, self.channel);
        ChordStep::Play { event, last: i == self.note_offs.len() - 1 }
    }
}

/// A strum can be started from the message: it is a chord message, its
/// tempo is positive, its delay is not negative, and its transposed voicing
/// exists and has a voice.
pub open spec fn chord_startable(m: MessageView) -> bool {
    &&& m matches MessageView::Chord { bpm, chord_type, chord_level, transpose, arp_delay, .. }
    &&& bpm >= 1
    &&& arp_delay >= 0
    &&& transposed_voicing(chord_type, chord_level, transpose) matches Some(voicing)
    &&& voicing.len() >= 1
}

/// What the caller has to do after the chord handler has handled a message.
pub enum ChordAction {
    /// Nothing.
    Nothing,
    /// Run `task` on `pulse` in the background and keep its cancellation
    /// handle under `ticket`. The handle under `replaced`, if there is one,
    /// has lost its entry: its task is not stopped and runs on unowned.
    Start { ticket: u64, replaced: Option<u64>, task: ChordTask, pulse: PulseGenerator },
    /// Signal the cancellation handle kept under `cancel`, if there is one,
    /// then send `releases`.
    Stop { cancel: Option<u64>, releases: Vec<MidiEvent> },
}

/// What starting a strum does. If the message can be started from and a
/// ticket is left, the task plays the transposed voicing of the message on
/// a pulse of its strum interval, and the identifier now holds the new
/// ticket, whatever it held before. Otherwise nothing changes.
pub open spec fn chord_starts(
    before: ChordHandler,
    after: ChordHandler,
    identifier: Seq<char>,
    m: MessageView,
    action: ChordAction,
) -> bool {
    if chord_startable(m) && before.issued() < u64::MAX {
        &&& action matches ChordAction::Start { ticket, replaced, task, pulse }
        &&& m matches MessageView::Chord {
            note,
            velocity,
            bpm,
            chord_type,
            chord_level,
            transpose,
            arp_delay,
            channel,
            ..
        }
        &&& ticket == before.issued()
        &&& replaced == if before.tasks().contains_key(identifier) {
            Some(before.tasks()[identifier])
        } else {
            None
        }
        &&& task.note() == note
        &&& task.velocity() == velocity
        &&& task.channel() == channel
        &&& Some(task.voices()) == transposed_voicing(chord_type, chord_level, transpose)
        &&& pulse.intervals() == seq![
            strum_interval_nanos(bpm, arp_delay, task.voices().len() as int) as u64,
        ]
        &&& pulse.granularity() == DEFAULT_CHECK_INTERVAL
        &&& !pulse.stopped()
        &&& pulse.fired() == 0
        &&& after.tasks() == before.tasks().insert(identifier, ticket)
        &&& after.issued() == before.issued() + 1
    } else {
        &&& action is Nothing
        &&& after.tasks() == before.tasks()
        &&& after.issued() == before.issued()
    }
}

/// What stopping a chord does: the identifier loses its entry, its ticket,
/// if it had one, is handed out to be signalled, and every voice of the
/// chord is released, whether the strum had reached it or not.
pub open spec fn chord_stops(
    before: ChordHandler,
    after: ChordHandler,
    identifier: Seq<char>,
    m: MessageView,
    action: ChordAction,
) -> bool {
    &&& after.tasks() == before.tasks().remove(identifier)
    &&& after.issued() == before.issued()
    &&& action matches ChordAction::Stop { cancel, releases }
    &&& m matches MessageView::Chord { note, chord_type, chord_level, transpose, channel, .. }
    &&& cancel == if before.tasks().contains_key(identifier) {
        Some(before.tasks()[identifier])
    } else {
        None
    }
    &&& releases@ == match transposed_voicing(chord_type, chord_level, transpose) {
        Some(voicing) => chord_events(note, voicing, 0, 0, channel),
        None => Seq::empty(),
    }
    &&& forall|i: int| 0 <= i < releases@.len() ==> (#[trigger] releases@[i]).wf()
}

/// The chord handler: which gestures have a strum running.
pub struct ChordHandler {
    chord_tasks: TaskRegistry,
}

impl ChordHandler {
    /// The ticket of each gesture that has a strum.
    pub closed spec fn tasks(self) -> Map<Seq<char>, u64> {
        self.chord_tasks@
    }

    /// How many tickets have been given out.
    pub closed spec fn issued(self) -> u64 {
        self.chord_tasks.issued()
    }

    /// A chord handler without running strums.
    pub fn new() -> (h: ChordHandler)
        ensures
            h.tasks() == Map::<Seq<char>, u64>::empty(),
            h.issued() == 0,
    {
        ChordHandler { chord_tasks: TaskRegistry::new() }
    }

    /// How many gestures have a strum.
    pub fn running(&self) -> (n: usize)
        ensures
            self.tasks().dom().finite(),
            n == self.tasks().dom().len(),
    {
        self.chord_tasks.len()
    }

    /// Handles a chord message for the gesture `identifier`: state 1 starts
    /// a strum; any other state stops the strum, so that voices not yet
    /// sounded stay silent, and releases every voice of the chord. A message
    /// of another kind does nothing.
    pub fn handle(&mut self, identifier: String, message: Message) -> (action: ChordAction)
        ensures
            !(message@ is Chord) ==> action is Nothing && final(self).tasks() == old(self).tasks()
                && final(self).issued() == old(self).issued(),
            message@ matches MessageView::Chord { state, .. } && state == 1 ==> chord_starts(
                *old(self),
                *final(self),
                identifier@,
                message@,
                action,
            ),
            message@ matches MessageView::Chord { state, .. } && state != 1 ==> chord_stops(
                *old(self),
                *final(self),
                identifier@,
                message@,
                action,
            ),
    {
        if let Message::Chord { state, .. } = message {
            if state == 1 {
                self.start_chord_task(identifier, message)
            } else {
                self.stop_chord_task(identifier, message)
            }
        } else {
            ChordAction::Nothing
        }
    }

    fn start_chord_task(&mut self, identifier: String, message: Message) -> (action: ChordAction)
        requires
            message@ is Chord,
        ensures
            chord_starts(*old(self), *final(self), identifier@, message@, action),
    {
        if let Message::Chord {
            note,
            velocity,
            bpm,
            chord_type,
            chord_level,
            transpose,
            arp_delay,
            channel,
            ..
        } = message {
            if bpm < 1 || arp_delay < 0 || self.chord_tasks.issued_all() {
                return ChordAction::Nothing;
            }
            let note_offs = match build_transposed_offsets(chord_type, chord_level, transpose) {
                Some(note_offs) => note_offs,
                None => {
                    return ChordAction::Nothing;
                },
            };
            if note_offs.len() == 0 {
                return ChordAction::Nothing;
            }
            proof {
                lemma_transposed_len(chord_voicing(chord_type, chord_level), rotations(transpose));
            }
            let voices: u64 = note_offs.len() as u64;
            assert(1 <= bpm * voices <= 32767 * 7) by (nonlinear_arith)
                requires
                    1 <= bpm <= 32767,
                    1 <= voices <= 7,
            ;
            let note_interval: u64 = NANOS_PER_MINUTE_PERCENT * (arp_delay as u64) / (bpm as u64
                * voices);
            assert(note_interval == strum_interval_nanos(bpm, arp_delay, voices as int));
            let pulse_generator = PulseGenerator::new(vec![note_interval]);
            assert(pulse_generator.intervals() =~= seq![note_interval]);
            let task = ChordTask::new(note, velocity, channel, note_offs);
            match self.chord_tasks.register(identifier) {
                Some(Registered { ticket, replaced }) => ChordAction::Start {
                    ticket,
                    replaced,
                    task,
                    pulse: pulse_generator,
                },
                None => ChordAction::Nothing,
            }
        } else {
            ChordAction::Nothing
        }
    }

    fn stop_chord_task(&mut self, identifier: String, message: Message) -> (action: ChordAction)
        requires
            message@ is Chord,
        ensures
            chord_stops(*old(self), *final(self), identifier@, message@, action),
    {
        if let Message::Chord { note, chord_type, chord_level, transpose, channel, .. } = message {
            let cancel = self.chord_tasks.remove(&identifier);
            let releases = match build_transposed_offsets(chord_type, chord_level, transpose) {
                Some(note_offs) => send_midi_off(note, note_offs, channel),
                None => Vec::new(),
            };
            ChordAction::Stop { cancel, releases }
        } else {
            ChordAction::Stop { cancel: None, releases: Vec::new() }
        }
    }
}

} // verus!
