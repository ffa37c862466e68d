//! The arpeggiator: patterns of notes and velocities, the pulse of a rate,
//! and the lifecycle of the arpeggios that play them.

use crate::circle_container::{rotate_once, CircleContainer};
use crate::message::{Message, MessageView};
use crate::midi_connect::{
    channel_of, data_byte, midi_note_message_with_channel_number, MidiEvent,
};
use crate::pulse_generator::{PulseGenerator, DEFAULT_CHECK_INTERVAL};
use crate::task_registry::{Registered, TaskRegistry};
use rand::Rng;
use vstd::prelude::*;

verus! {

pub const METHOD_NO_METHOD: i8 = 0;

pub const METHOD_UP: i8 = 1;

pub const METHOD_DOWN: i8 = 2;

pub const METHOD_UPDOWN: i8 = 3;

pub const METHOD_DOWNUP: i8 = 4;

pub const METHOD_3CHORD: i8 = 5;

pub const METHOD_7CHORD: i8 = 6;

pub const METHOD_3MINCHORD: i8 = 7;

pub const METHOD_7MINCHORD: i8 = 8;

/// How many values a count up to `to` yields.
pub open spec fn count_len(to: i8) -> nat {
    if to > 0 {
        to as nat
    } else {
        0
    }
}

/// Counts from 0 up to, not including, `to` and collects what `f` makes of
/// each number.
pub fn count_to_vec<F: Fn(i8) -> i8>(to: i8, f: F) -> (vec: Vec<i8>)
    requires
        forall|i: i8| 0 <= i < to ==> call_requires(f, (i,)),
    ensures
        vec@.len() == count_len(to),
        forall|i: int| 0 <= i < vec@.len() ==> call_ensures(f, (i as i8,), #[trigger] vec@[i]),
{
    let mut vec: Vec<i8> = Vec::new();
    let mut i: i8 = 0;
    while i < to
        invariant
            0 <= i,
            i <= to || i == 0,
            vec@.len() == i,
            forall|k: i8| 0 <= k < to ==> call_requires(f, (k,)),
            forall|k: int| 0 <= k < vec@.len() ==> call_ensures(f, (k as i8,), #[trigger] vec@[k]),
        decreases to - i,
    {
        let value = f(i);
        vec.push(value);
        i += 1;
    }
    vec
}

/// The place that a count which turns round at its middle has reached at
/// step `i` of `to`: it climbs from 0 and comes back down to 0, and an even
/// count stays at its top for two steps.
pub open spec fn mirror_index(to: int, i: int) -> int {
    if i < to - 1 - i {
        i
    } else {
        to - 1 - i
    }
}

/// [`mirror_index`] as the number handed on.
pub open spec fn mirrored(to: i8, i: int) -> i8 {
    mirror_index(to as int, i) as i8
}

/// Like [`count_to_vec`], but the numbers handed to `f` climb to the middle
/// of the count and then come back down.
pub fn count_to_vec_up_down<F: Fn(i8) -> i8>(to: i8, f: F) -> (vec: Vec<i8>)
    requires
        forall|i: int| 0 <= i < to ==> call_requires(f, (#[trigger] mirrored(to, i),)),
    ensures
        vec@.len() == count_len(to),
        forall|i: int|
            0 <= i < vec@.len() ==> call_ensures(f, (mirrored(to, i),), #[trigger] vec@[i]),
{
    let mid = to / 2;
    let even = to % 2 == 0;
    let g = &f;
    let turn = |i: i8| -> (r: i8)
        requires
            0 <= i < to,
        ensures
            call_ensures(*g, (mirrored(to, i as int),), r),
        {
            assert((to as int / (i + 1) > 1) == (2 * (i + 1) <= to)) by (nonlinear_arith)
                requires
                    0 <= i < to,
            ;
            assert(mirrored(to, i as int) == mirror_index(to as int, i as int));
            if to / (i + 1) > 1 {
                g(i)
            } else {
                let offset: i8 = if even {
                    1
                } else {
                    0
                };
                let i = mid - (offset + i - mid);
                g(i)
            }
        };
    count_to_vec(to, turn)
}

/// The intervals of the chord that a chord method cycles through.
pub open spec fn chord_cycle(method: i8) -> Seq<int> {
    if method == METHOD_3CHORD {
        seq![0, 4, 7]
    } else if method == METHOD_7CHORD {
        seq![0, 4, 7, 11]
    } else if method == METHOD_3MINCHORD {
        seq![0, 3, 7]
    } else {
        seq![0, 3, 7, 11]
    }
}

/// Semitones above the base note of voice `i` out of `cnt` under `method`.
///
/// Up and down step by an octave a voice; up-then-down and down-then-up do
/// so along [`mirror_index`]; a chord method runs through its chord and
/// climbs an octave each time the chord repeats; any other method steps by a
/// semitone.
pub open spec fn note_offset(method: i8, cnt: int, i: int) -> int {
    if method == METHOD_UP {
        i * 12
    } else if method == METHOD_DOWN {
        -(i * 12)
    } else if method == METHOD_UPDOWN {
        mirror_index(cnt, i) * 12
    } else if method == METHOD_DOWNUP {
        -(mirror_index(cnt, i) * 12)
    } else if method == METHOD_3CHORD || method == METHOD_7CHORD || method == METHOD_3MINCHORD
        || method == METHOD_7MINCHORD {
        let cycle = chord_cycle(method);
        (i / cycle.len() as int) * 12 + cycle[i % cycle.len() as int]
    } else {
        i
    }
}

/// Every offset of the pattern, and every note it gives above `base_note`,
/// fits the 8-bit signed range of a note.
pub open spec fn note_pattern_fits(base_note: i8, method: i8, up_note_cnt: i8) -> bool {
    forall|i: int|
        0 <= i < up_note_cnt ==> {
            &&& i8::MIN <= #[trigger] note_offset(method, up_note_cnt as int, i) <= i8::MAX
            &&& i8::MIN <= base_note + note_offset(method, up_note_cnt as int, i) <= i8::MAX
        }
}

/// The notes of the pattern in the order in which they sound.
pub open spec fn note_pattern(base_note: i8, method: i8, up_note_cnt: i8) -> Seq<i8> {
    Seq::new(
        count_len(up_note_cnt),
        |i: int| (base_note + note_offset(method, up_note_cnt as int, i)) as i8,
    )
}

/// The offsets of a chord method: `cycle` over and over, an octave higher
/// each time round.
fn chord_offsets(method: i8, cycle: Vec<i8>, up_note_cnt: i8) -> (vec: Vec<i8>)
    requires
        method == METHOD_3CHORD || method == METHOD_7CHORD || method == METHOD_3MINCHORD || method
            == METHOD_7MINCHORD,
        cycle@.len() == chord_cycle(method).len(),
        forall|k: int| 0 <= k < cycle@.len() ==> cycle@[k] == chord_cycle(method)[k],
        forall|i: int|
            0 <= i < up_note_cnt ==> i8::MIN <= #[trigger] note_offset(
                method,
                up_note_cnt as int,
                i,
            ) <= i8::MAX,
    ensures
        vec@.len() == count_len(up_note_cnt),
        forall|i: int|
            0 <= i < vec@.len() ==> #[trigger] vec@[i] == note_offset(method, up_note_cnt as int, i),
{
    let n: i8 = cycle.len() as i8;
    let c = &cycle;
    let step = |i: i8| -> (r: i8)
        requires
            0 <= i < up_note_cnt,
        ensures
            r == note_offset(method, up_note_cnt as int, i as int),
        {
            assert(i8::MIN <= note_offset(method, up_note_cnt as int, i as int) <= i8::MAX);
            (i / n) * 12 + c[(i % n) as usize]
        };
    count_to_vec(up_note_cnt, step)
}

/// The cyclic pattern of the notes of an arpeggio on `base_note`.
pub fn build_note_generator(base_note: i8, method: i8, up_note_cnt: i8) -> (c: CircleContainer<i8>)
    requires
        note_pattern_fits(base_note, method, up_note_cnt),
    ensures
        c@ == note_pattern(base_note, method, up_note_cnt),
{
    let ghost cnt = up_note_cnt as int;
    let note_offsets = if method == METHOD_UP {
        let up = |i: i8| -> (r: i8)
            requires
                0 <= i < up_note_cnt,
            ensures
                r == i * 12,
            {
                assert(i8::MIN <= note_offset(method, cnt, i as int) <= i8::MAX);
                i * 12
            };
        count_to_vec(up_note_cnt, up)
    } else if method == METHOD_DOWN {
        let down = |i: i8| -> (r: i8)
            requires
                0 <= i < up_note_cnt,
            ensures
                r == -(i * 12),
            {
                assert(i8::MIN <= note_offset(method, cnt, i as int) <= i8::MAX);
                -(i * 12)
            };
        count_to_vec(up_note_cnt, down)
    } else if method == METHOD_UPDOWN {
        let up = |i: i8| -> (r: i8)
            requires
                0 <= i < up_note_cnt,
                i <= up_note_cnt - 1 - i,
            ensures
                r == i * 12,
            {
                assert(i8::MIN <= note_offset(method, cnt, i as int) <= i8::MAX);
                i * 12
            };
        count_to_vec_up_down(up_note_cnt, up)
    } else if method == METHOD_DOWNUP {
        let down = |i: i8| -> (r: i8)
            requires
                0 <= i < up_note_cnt,
                i <= up_note_cnt - 1 - i,
            ensures
                r == -(i * 12),
            {
                assert(i8::MIN <= note_offset(method, cnt, i as int) <= i8::MAX);
                -(i * 12)
            };
        count_to_vec_up_down(up_note_cnt, down)
    } else if method == METHOD_3CHORD {
        chord_offsets(method, vec![0, 4, 7], up_note_cnt)
    } else if method == METHOD_7CHORD {
        chord_offsets(method, vec![0, 4, 7, 11], up_note_cnt)
    } else if method == METHOD_3MINCHORD {
        chord_offsets(method, vec![0, 3, 7], up_note_cnt)
    } else if method == METHOD_7MINCHORD {
        chord_offsets(method, vec![0, 3, 7, 11], up_note_cnt)
    } else {
        let same = |i: i8| -> (r: i8)
            requires
                0 <= i < up_note_cnt,
            ensures
                r == i,
            { i };
        count_to_vec(up_note_cnt, same)
    };
    assert forall|i: int| 0 <= i < note_offsets@.len() implies #[trigger] note_offsets@[i]
        == note_offset(method, cnt, i) by {
        assert(mirrored(up_note_cnt, i) == mirror_index(cnt, i));
    }
    let mut notes: Vec<i8> = Vec::with_capacity(note_offsets.len());
    let mut k: usize = 0;
    while k < note_offsets.len()
        invariant
            k <= note_offsets@.len(),
            note_offsets@.len() == count_len(up_note_cnt),
            note_pattern_fits(base_note, method, up_note_cnt),
            forall|i: int|
                0 <= i < note_offsets@.len() ==> #[trigger] note_offsets@[i] == note_offset(
                    method,
                    up_note_cnt as int,
                    i,
                ),
            notes@.len() == k,
            forall|i: int|
                0 <= i < k ==> #[trigger] notes@[i] == base_note + note_offset(
                    method,
                    up_note_cnt as int,
                    i,
                ),
        decreases note_offsets@.len() - k,
    {
        assert(note_offsets@[k as int] == note_offset(method, up_note_cnt as int, k as int));
        notes.push(base_note + note_offsets[k]);
        k += 1;
    }
    assert(notes@ =~= note_pattern(base_note, method, up_note_cnt));
    CircleContainer::new(notes)
}

pub const VELOCITY_NO_AUTOMATION: i8 = 0;

pub const VELOCITY_UP: i8 = 1;

pub const VELOCITY_DOWN: i8 = 2;

pub const VELOCITY_UP_DOWN: i8 = 3;

pub const VELOCITY_DOWN_UP: i8 = 4;

pub const VELOCITY_STEP: i8 = 5;

pub const VELOCITY_RANDOM: i8 = 6;

/// The loudest velocity the protocol knows.
pub const MAX_VELOCITY: i8 = 127;

/// `n / d` rounded towards zero, for a positive `d`.
pub open spec fn div_towards_zero(n: int, d: int) -> int {
    if n >= 0 {
        n / d
    } else {
        -((-n) / d)
    }
}

/// The other end of the range that the velocities move in: the base velocity
/// scaled by the dynamic percentage, rounded towards zero and held at the
/// loudest velocity.
pub open spec fn velocity_counterpart(base_velocity: i8, dynamic_pct: i16) -> int {
    let raw = div_towards_zero(base_velocity * dynamic_pct, 100);
    if raw > MAX_VELOCITY {
        MAX_VELOCITY as int
    } else {
        raw
    }
}

/// The softer end of the range.
pub open spec fn velocity_lo(base_velocity: i8, dynamic_pct: i16) -> int {
    let other = velocity_counterpart(base_velocity, dynamic_pct);
    if base_velocity <= other {
        base_velocity as int
    } else {
        other
    }
}

/// The louder end of the range.
pub open spec fn velocity_hi(base_velocity: i8, dynamic_pct: i16) -> int {
    let other = velocity_counterpart(base_velocity, dynamic_pct);
    if base_velocity <= other {
        other
    } else {
        base_velocity as int
    }
}

/// How far a ramp moves from one step of the span to the next.
pub open spec fn velocity_step(base_velocity: i8, dynamic_pct: i16, span: i8) -> int {
    (velocity_hi(base_velocity, dynamic_pct) - velocity_lo(base_velocity, dynamic_pct)) / (
    span as int)
}

/// The span has a step, and both ends of the range and their distance fit
/// the 8-bit signed range of a velocity.
pub open spec fn velocity_pattern_fits(base_velocity: i8, dynamic_pct: i16, span: i8) -> bool {
    &&& span >= 1
    &&& velocity_counterpart(base_velocity, dynamic_pct) >= i8::MIN
    &&& velocity_hi(base_velocity, dynamic_pct) - velocity_lo(base_velocity, dynamic_pct)
        <= i8::MAX
}

/// The velocity at step `i` of the span under a shape that is not random.
///
/// A ramp moves one step each time, up from the softer end or down from the
/// louder; up-then-down and down-then-up move two steps each time along
/// [`mirror_index`]; the alternating shape is loud on even steps and soft on
/// odd ones; any other shape stays at the base velocity.
pub open spec fn velocity_at(
    base_velocity: i8,
    velocity_automation: i8,
    dynamic_pct: i16,
    span: i8,
    i: int,
) -> int {
    let lo = velocity_lo(base_velocity, dynamic_pct);
    let hi = velocity_hi(base_velocity, dynamic_pct);
    let step = velocity_step(base_velocity, dynamic_pct, span);
    if velocity_automation == VELOCITY_UP {
        lo + i * step
    } else if velocity_automation == VELOCITY_DOWN {
        hi - i * step
    } else if velocity_automation == VELOCITY_UP_DOWN {
        lo + mirror_index(span as int, i) * step * 2
    } else if velocity_automation == VELOCITY_DOWN_UP {
        hi - mirror_index(span as int, i) * step * 2
    } else if velocity_automation == VELOCITY_STEP {
        if i % 2 == 0 {
            hi
        } else {
            lo
        }
    } else {
        base_velocity as int
    }
}

/// A ramp of `span` steps over a distance `d` never leaves it, whether it
/// moves one step at a time over the whole span or two at a time over half
/// of it.
pub proof fn lemma_ramp_stays_inside(d: int, span: int, i: int)
    requires
        d >= 0,
        span >= 1,
        0 <= i < span,
    ensures
        0 <= d / span <= d,
        0 <= i * (d / span) <= d,
        2 * i <= span - 1 ==> 0 <= i * (d / span) * 2 <= d,
{
    let step = d / span;
    assert(0 <= step && step * span <= d) by (nonlinear_arith)
        requires
            step == d / span,
            d >= 0,
            span >= 1,
    ;
    assert(step <= d) by (nonlinear_arith)
        requires
            step * span <= d,
            span >= 1,
            step >= 0,
    ;
    assert(0 <= i * step <= step * span) by (nonlinear_arith)
        requires
            0 <= i < span,
            step >= 0,
    ;
    if 2 * i <= span - 1 {
        assert(0 <= i * step * 2 <= step * span) by (nonlinear_arith)
            requires
                0 <= i,
                2 * i <= span - 1,
                step >= 0,
        ;
    }
}

/// `Rng::gen_range` on rand's thread-local generator, over the inclusive
/// range from `lo` to `hi`: some value of that range. An empty range makes it
/// panic, which the precondition excludes.
#[verifier::external_body]
fn random_velocity(lo: i8, hi: i8) -> (v: i8)
    requires
        lo <= hi,
    ensures
        lo <= v <= hi,
{
    rand::thread_rng().gen_range(lo..=hi)
}

/// The cyclic pattern of the velocities of an arpeggio.
///
/// The velocities move between the base velocity and its counterpart. Under
/// the random shape each of the `velocity_automation_span` velocities is
/// drawn once, here, from that range; under every other shape the pattern is
/// [`velocity_at`] step by step.
pub fn build_velocity_generator(
    base_velocity: i8,
    velocity_automation: i8,
    dynamic_pct: i16,
    velocity_automation_span: i8,
) -> (c: CircleContainer<i8>)
    requires
        velocity_pattern_fits(base_velocity, dynamic_pct, velocity_automation_span),
    ensures
        c@.len() == velocity_automation_span,
        velocity_automation == VELOCITY_RANDOM ==> forall|i: int|
            0 <= i < c@.len() ==> velocity_lo(base_velocity, dynamic_pct) <= #[trigger] c@[i]
                <= velocity_hi(base_velocity, dynamic_pct),
        velocity_automation != VELOCITY_RANDOM ==> forall|i: int|
            0 <= i < c@.len() ==> #[trigger] c@[i] == velocity_at(
                base_velocity,
                velocity_automation,
                dynamic_pct,
                velocity_automation_span,
                i,
            ),
{
    let span = velocity_automation_span;
    assert(-128 * 32768 <= base_velocity * dynamic_pct <= 128 * 32768) by (nonlinear_arith)
        requires
            -128 <= base_velocity <= 127,
            -32768 <= dynamic_pct <= 32767,
    ;
    let scaled: i32 = base_velocity as i32 * dynamic_pct as i32;
    let raw: i32 = if scaled >= 0 {
        scaled / 100
    } else {
        -((-scaled) / 100)
    };
    let another_velocity: i8 = if raw > 127 {
        127i8
    } else {
        raw as i8
    };
    assert(another_velocity == velocity_counterpart(base_velocity, dynamic_pct));
    let min_velo = if base_velocity <= another_velocity {
        base_velocity
    } else {
        another_velocity
    };
    let max_velo = if base_velocity <= another_velocity {
        another_velocity
    } else {
        base_velocity
    };
    let step = (max_velo - min_velo) / span;
    assert(step == velocity_step(base_velocity, dynamic_pct, span));
    let ghost d = max_velo - min_velo;

    let velocity_vec = if velocity_automation == VELOCITY_UP {
        let up = |i: i8| -> (r: i8)
            requires
                0 <= i < span,
            ensures
                r == min_velo + i * step,
            {
                proof {
                    lemma_ramp_stays_inside(d, span as int, i as int);
                }
                min_velo + i * step
            };
        count_to_vec(span, up)
    } else if velocity_automation == VELOCITY_DOWN {
        let down = |i: i8| -> (r: i8)
            requires
                0 <= i < span,
            ensures
                r == max_velo - i * step,
            {
                proof {
                    lemma_ramp_stays_inside(d, span as int, i as int);
                }
                max_velo - i * step
            };
        count_to_vec(span, down)
    } else if velocity_automation == VELOCITY_UP_DOWN {
        let up = |i: i8| -> (r: i8)
            requires
                0 <= i < span,
                i <= span - 1 - i,
            ensures
                r == min_velo + i * step * 2,
            {
                proof {
                    lemma_ramp_stays_inside(d, span as int, i as int);
                }
                min_velo + i * step * 2
            };
        count_to_vec_up_down(span, up)
    } else if velocity_automation == VELOCITY_DOWN_UP {
        let down = |i: i8| -> (r: i8)
            requires
                0 <= i < span,
                i <= span - 1 - i,
            ensures
                r == max_velo - i * step * 2,
            {
                proof {
                    lemma_ramp_stays_inside(d, span as int, i as int);
                }
                max_velo - i * step * 2
            };
        count_to_vec_up_down(span, down)
    } else if velocity_automation == VELOCITY_RANDOM {
        let draw = |i: i8| -> (r: i8)
            ensures
                min_velo <= r <= max_velo,
            { random_velocity(min_velo, max_velo) };
        count_to_vec(span, draw)
    } else if velocity_automation == VELOCITY_STEP {
        let toggle = |i: i8| -> (r: i8)
            requires
                0 <= i,
            ensures
                r == if i as int % 2 == 0 {
                    max_velo
                } else {
                    min_velo
                },
            {
                if i % 2 == 0 {
                    max_velo
                } else {
                    min_velo
                }
            };
        count_to_vec(span, toggle)
    } else {
        let constant = |i: i8| -> (r: i8)
            ensures
                r == base_velocity,
            { base_velocity };
        count_to_vec(span, constant)
    };
    assert forall|i: int|
        velocity_automation != VELOCITY_RANDOM && 0 <= i < velocity_vec@.len() implies #[trigger] velocity_vec@[i]
        == velocity_at(base_velocity, velocity_automation, dynamic_pct, span, i) by {
        assert(mirrored(span, i) == mirror_index(span as int, i));
    }
    CircleContainer::new(velocity_vec)
}

pub const RATE_1_1: i8 = 0;

pub const RATE_1_2_D: i8 = 1;

pub const RATE_1_1_T: i8 = 2;

pub const RATE_1_2: i8 = 3;

pub const RATE_1_4_D: i8 = 4;

pub const RATE_1_2_T: i8 = 5;

pub const RATE_1_4: i8 = 6;

pub const RATE_1_8_D: i8 = 7;

pub const RATE_1_4_T: i8 = 8;

pub const RATE_1_8: i8 = 9;

pub const RATE_1_16_D: i8 = 10;

pub const RATE_1_8_T: i8 = 11;

pub const RATE_1_16: i8 = 12;

pub const RATE_1_32_D: i8 = 13;

pub const RATE_1_16_T: i8 = 14;

pub const RATE_1_32: i8 = 15;

pub const RATE_1_64_D: i8 = 16;

pub const RATE_1_32_T: i8 = 17;

pub const RATE_1_64: i8 = 18;

pub const RATE_1_64_T: i8 = 19;

/// Nanoseconds in a minute, divided by the 96 parts that a beat is counted
/// in.
pub const NANOS_PER_MINUTE_96TH: u64 = 625_000_000;

/// For each rate, how many steps a velocity automation spans: finer rates
/// get more steps.
pub open spec fn span_table() -> Seq<i8> {
    seq![1, 1, 1, 2, 2, 3, 4, 5, 6, 8, 10, 12, 16, 21, 24, 32, 42, 48, 64, 96]
}

/// For each rate, the length of one step in 96ths of a beat: a whole note is
/// four beats, a dotted value is half as long again, a triplet value two
/// thirds as long.
pub open spec fn rate_table() -> Seq<u16> {
    seq![384, 288, 256, 192, 144, 128, 96, 72, 64, 48, 36, 32, 24, 18, 16, 12, 9, 8, 6, 4]
}

/// The rate is one of the twenty of the tables.
pub open spec fn rate_fits(rate: i8) -> bool {
    0 <= rate < 20
}

/// Length in nanoseconds of one step of an arpeggio without swing: a beat
/// lasts a minute divided by the tempo, a step its share of the beat.
pub open spec fn arp_step_nanos(bpm: i16, rate: i8) -> int {
    NANOS_PER_MINUTE_96TH * rate_table()[rate as int] / (bpm as int)
}

/// How much swing lengthens the first of two steps and shortens the second.
pub open spec fn swing_delay(ticktime: u64, swing_pct: i8) -> int {
    ticktime * swing_pct / 100
}

/// The two intervals that an arpeggio alternates between.
pub open spec fn swing_intervals(ticktime: u64, swing_pct: i8) -> Seq<u64> {
    seq![
        (ticktime + swing_delay(ticktime, swing_pct)) as u64,
        (ticktime - swing_delay(ticktime, swing_pct)) as u64,
    ]
}

/// Swing is a share of the step, and the lengthened step fits 64 bits.
pub open spec fn swing_fits(ticktime: u64, swing_pct: i8) -> bool {
    &&& 0 <= swing_pct <= 100
    &&& ticktime + swing_delay(ticktime, swing_pct) <= u64::MAX
}

/// The pulse of an arpeggio whose steps last `ticktime_in_given_bpm`
/// nanoseconds, swung by `swing_pct` percent.
pub fn build_pulse_generator(ticktime_in_given_bpm: u64, swing_pct: i8) -> (g: PulseGenerator)
    requires
        swing_fits(ticktime_in_given_bpm, swing_pct),
    ensures
        g.intervals() == swing_intervals(ticktime_in_given_bpm, swing_pct),
        g.granularity() == DEFAULT_CHECK_INTERVAL,
        !g.stopped(),
        g.fired() == 0,
{
    let t = ticktime_in_given_bpm;
    assert(0 <= t * swing_pct <= t * 100) by (nonlinear_arith)
        requires
            0 <= swing_pct <= 100,
            t >= 0,
    ;
    let swing_dly: u64 = (t as u128 * swing_pct as u128 / 100) as u64;
    let long_step: u64 = t + swing_dly;
    let short_step: u64 = t - swing_dly;
    PulseGenerator::new(vec![long_step, short_step])
}

/// Semitones above the base note of voice `i`, computed wide enough never
/// to overflow.
fn note_offset_at(method: i8, cnt: i8, i: i8) -> (r: i32)
    requires
        0 <= i < cnt,
    ensures
        r == note_offset(method, cnt as int, i as int),
{
    let i: i32 = i as i32;
    let cnt: i32 = cnt as i32;
    let mirror: i32 = if i < cnt - 1 - i {
        i
    } else {
        cnt - 1 - i
    };
    if method == METHOD_UP {
        i * 12
    } else if method == METHOD_DOWN {
        -(i * 12)
    } else if method == METHOD_UPDOWN {
        mirror * 12
    } else if method == METHOD_DOWNUP {
        -(mirror * 12)
    } else if method == METHOD_3CHORD {
        let third: i32 = if i % 3 == 0 { 0 } else if i % 3 == 1 { 4 } else { 7 };
        (i / 3) * 12 + third
    } else if method == METHOD_7CHORD {
        let third: i32 = if i % 4 == 0 { 0 } else if i % 4 == 1 { 4 } else if i % 4 == 2 { 7 } else { 11 };
        (i / 4) * 12 + third
    } else if method == METHOD_3MINCHORD {
        let third: i32 = if i % 3 == 0 { 0 } else if i % 3 == 1 { 3 } else { 7 };
        (i / 3) * 12 + third
    } else if method == METHOD_7MINCHORD {
        let third: i32 = if i % 4 == 0 { 0 } else if i % 4 == 1 { 3 } else if i % 4 == 2 { 7 } else { 11 };
        (i / 4) * 12 + third
    } else {
        i
    }
}

/// Whether the note pattern can be built: [`note_pattern_fits`], decided.
pub fn note_pattern_in_range(base_note: i8, method: i8, up_note_cnt: i8) -> (fits: bool)
    ensures
        fits == note_pattern_fits(base_note, method, up_note_cnt),
{
    let mut i: i8 = 0;
    while i < up_note_cnt
        invariant
            0 <= i,
            i <= up_note_cnt || i == 0,
            forall|k: int|
                0 <= k < i ==> {
                    &&& i8::MIN <= #[trigger] note_offset(method, up_note_cnt as int, k) <= i8::MAX
                    &&& i8::MIN <= base_note + note_offset(method, up_note_cnt as int, k)
                        <= i8::MAX
                },
        decreases up_note_cnt - i,
    {
        let offset = note_offset_at(method, up_note_cnt, i);
        let note = base_note as i32 + offset;
        if offset < -128 || offset > 127 || note < -128 || note > 127 {
            assert(!(i8::MIN <= note_offset(method, up_note_cnt as int, i as int) <= i8::MAX
                && i8::MIN <= base_note + note_offset(method, up_note_cnt as int, i as int)
                <= i8::MAX));
            return false;
        }
        i += 1;
    }
    true
}

/// Whether the velocity pattern can be built: [`velocity_pattern_fits`],
/// decided.
pub fn velocity_pattern_in_range(base_velocity: i8, dynamic_pct: i16, span: i8) -> (fits: bool)
    ensures
        fits == velocity_pattern_fits(base_velocity, dynamic_pct, span),
{
    assert(-128 * 32768 <= base_velocity * dynamic_pct <= 128 * 32768) by (nonlinear_arith)
        requires
            -128 <= base_velocity <= 127,
            -32768 <= dynamic_pct <= 32767,
    ;
    let scaled: i32 = base_velocity as i32 * dynamic_pct as i32;
    let raw: i32 = if scaled >= 0 {
        scaled / 100
    } else {
        -((-scaled) / 100)
    };
    let other: i32 = if raw > 127 {
        127
    } else {
        raw
    };
    assert(other == velocity_counterpart(base_velocity, dynamic_pct));
    let base: i32 = base_velocity as i32;
    let lo: i32 = if base <= other { base } else { other };
    let hi: i32 = if base <= other { other } else { base };
    span >= 1 && other >= -128 && hi - lo <= 127
}

/// The note-on of an arpeggio voice; a negative note names nothing and gives
/// no event.
pub fn send_midi_on(note: i8, velocity: i8, channel: i8) -> (r: Option<MidiEvent>)
    ensures
        r == note_on_event(note, velocity, channel),
        r matches Some(e) ==> e.wf(),
{
    if note < 0 {
        return None;
    }
    midi_note_message_with_channel_number(note, velocity, 1, channel)
}

/// The note-off of an arpeggio voice; a negative note names nothing and
/// gives no event.
pub fn send_midi_off(note: i8, channel: i8) -> (r: Option<MidiEvent>)
    ensures
        r == note_off_event(note, channel),
        r matches Some(e) ==> e.wf(),
{
    if note < 0 {
        return None;
    }
    midi_note_message_with_channel_number(note, 0, 0, channel)
}

/// The event that sounds `note`, if it names a note.
pub open spec fn note_on_event(note: i8, velocity: i8, channel: i8) -> Option<MidiEvent> {
    if note < 0 {
        None
    } else {
        Some(
            MidiEvent::NoteOn {
                note: note as u8,
                velocity: data_byte(velocity),
                channel: channel_of(channel),
            },
        )
    }
}

/// The event that releases `note`, if it names a note.
pub open spec fn note_off_event(note: i8, channel: i8) -> Option<MidiEvent> {
    if note < 0 {
        None
    } else {
        Some(MidiEvent::NoteOff { note: note as u8, velocity: 0, channel: channel_of(channel) })
    }
}

/// What [`build_velocity_generator`] promises of the pattern `s`.
pub open spec fn velocities_match(
    base_velocity: i8,
    velocity_automation: i8,
    dynamic_pct: i16,
    span: i8,
    s: Seq<i8>,
) -> bool {
    &&& s.len() == span
    &&& velocity_automation == VELOCITY_RANDOM ==> forall|i: int|
        0 <= i < s.len() ==> velocity_lo(base_velocity, dynamic_pct) <= #[trigger] s[i]
            <= velocity_hi(base_velocity, dynamic_pct)
    &&& velocity_automation != VELOCITY_RANDOM ==> forall|i: int|
        0 <= i < s.len() ==> #[trigger] s[i] == velocity_at(
            base_velocity,
            velocity_automation,
            dynamic_pct,
            span,
            i,
        )
}

/// An arpeggio can be started from the message: it is an arpeggio message,
/// its rate is one of the table, its tempo is positive, it has a voice, its
/// swing is a share of the step, and its notes and velocities fit their
/// range.
pub open spec fn arp_startable(m: MessageView) -> bool {
    &&& m matches MessageView::Arp {
        note,
        velocity,
        method,
        rate,
        swing_pct,
        up_note_cnt,
        dynamic_pct,
        bpm,
        ..
    }
    &&& rate_fits(rate)
    &&& bpm >= 1
    &&& up_note_cnt >= 1
    &&& 0 <= swing_pct <= 100
    &&& note_pattern_fits(note, method, up_note_cnt)
    &&& velocity_pattern_fits(velocity, dynamic_pct, span_table()[rate as int])
}

/// The patterns and the pulse are those that the arpeggio message asks for.
pub open spec fn arp_requirements_match(
    m: MessageView,
    notes: Seq<i8>,
    velocities: Seq<i8>,
    pulse: PulseGenerator,
) -> bool {
    &&& m matches MessageView::Arp {
        note,
        velocity,
        method,
        rate,
        swing_pct,
        up_note_cnt,
        velocity_automation,
        dynamic_pct,
        bpm,
        ..
    }
    &&& notes == note_pattern(note, method, up_note_cnt)
    &&& velocities_match(velocity, velocity_automation, dynamic_pct, span_table()[rate as int], velocities)
    &&& pulse.intervals() == swing_intervals(arp_step_nanos(bpm, rate) as u64, swing_pct)
    &&& pulse.granularity() == DEFAULT_CHECK_INTERVAL
    &&& !pulse.stopped()
    &&& pulse.fired() == 0
}

/// What one pulse makes an arpeggio do, after the release of its last note.
#[derive(Clone, Copy, Debug, PartialEq, Eq, Structural)]
pub enum ArpStep {
    /// The arpeggio was told to stop: it sounds nothing more and ends.
    Stop,
    /// The next voice sounds with this event, if its note names one.
    Play(Option<MidiEvent>),
}

/// A running arpeggio: its patterns, its channel and the note it sounded
/// last.
pub struct ArpTask {
    note_generator: CircleContainer<i8>,
    velocity_generator: CircleContainer<i8>,
    channel: i8,
    last_note: Option<i8>,
}

impl ArpTask {
    /// The notes, the next one to sound first.
    pub closed spec fn notes(self) -> Seq<i8> {
        self.note_generator@
    }

    /// The velocities, the next one first.
    pub closed spec fn velocities(self) -> Seq<i8> {
        self.velocity_generator@
    }

    /// The channel number of the protocol that the arpeggio plays on.
    pub closed spec fn channel(self) -> i8 {
        self.channel
    }

    /// The note that sounds now, if one has been sounded.
    pub closed spec fn last_note(self) -> Option<i8> {
        self.last_note
    }

    /// An arpeggio that has not sounded yet.
    pub fn new(
        note_generator: CircleContainer<i8>,
        velocity_generator: CircleContainer<i8>,
        channel: i8,
    ) -> (task: ArpTask)
        ensures
            task.notes() == note_generator@,
            task.velocities() == velocity_generator@,
            task.channel() == channel,
            task.last_note() is None,
    {
        ArpTask { note_generator, velocity_generator, channel, last_note: None }
    }

    /// First half of a pulse: the release of the note sounded last, so that
    /// no two notes of the arpeggio overlap. Nothing on the first pulse.
    pub fn release_last(&self) -> (r: Option<MidiEvent>)
        ensures
            r == match self.last_note() {
                Some(note) => note_off_event(note, self.channel()),
                None => None,
            },
            r matches Some(e) ==> e.wf(),
    {
        match self.last_note {
            Some(note) => send_midi_off(note, self.channel),
            None => None,
        }
    }

    /// Second half of a pulse. A cancelled arpeggio stops before it sounds
    /// anything, and so does one that has run out of a pattern, which an
    /// arpeggio started from a message never does; otherwise the next note
    /// sounds at the next velocity and both patterns move on.
    pub fn advance(&mut self, cancelled: bool) -> (step: ArpStep)
        ensures
            final(self).channel() == old(self).channel(),
            cancelled ==> {
                &&& step == ArpStep::Stop
                &&& final(self).notes() == old(self).notes()
                &&& final(self).velocities() == old(self).velocities()
                &&& final(self).last_note() == old(self).last_note()
            },
            !cancelled && old(self).notes().len() > 0 && old(self).velocities().len() > 0 ==> {
                &&& step == ArpStep::Play(
                    note_on_event(
                        old(self).notes()[0],
                        old(self).velocities()[0],
                        old(self).channel(),
                    ),
                )
                &&& final(self).notes() == rotate_once(old(self).notes())
                &&& final(self).velocities() == rotate_once(old(self).velocities())
                &&& final(self).last_note() == Some(old(self).notes()[0])
            },
            !cancelled && (old(self).notes().len() == 0 || old(self).velocities().len() == 0)
                ==> step == ArpStep::Stop,
            step matches ArpStep::Play(Some(e)) ==> e.wf(),
    {
        if cancelled {
            return ArpStep::Stop;
        }
        let note = self.note_generator.next();
        let velocity = self.velocity_generator.next();
        match (note, velocity) {
            (Some(note), Some(velocity)) => {
                self.last_note = Some(note);
                ArpStep::Play(send_midi_on(note, velocity, self.channel))
            },
            _ => ArpStep::Stop,
        }
    }
}

/// The patterns and the pulse that an arpeggio message asks for; nothing
/// when the message is not [`arp_startable`].
pub fn build_requirements(message: &Message, arp_handler: &ArpHandler) -> (r: Option<
    (CircleContainer<i8>, CircleContainer<i8>, PulseGenerator),
>)
    ensures
        r is Some <==> arp_startable(message@),
        r matches Some((notes, velocities, pulse)) ==> arp_requirements_match(
            message@,
            notes@,
            velocities@,
            pulse,
        ),
{
    if let Message::Arp {
        note,
        velocity,
        method,
        rate,
        swing_pct,
        up_note_cnt,
        velocity_automation,
        dynamic_pct,
        bpm,
        ..
    } = message {
        let note = *note;
        let velocity = *velocity;
        let method = *method;
        let rate = *rate;
        let swing_pct = *swing_pct;
        let up_note_cnt = *up_note_cnt;
        let velocity_automation = *velocity_automation;
        let dynamic_pct = *dynamic_pct;
        let bpm = *bpm;
        if rate < 0 || rate >= 20 || bpm < 1 || up_note_cnt < 1 || swing_pct < 0 || swing_pct
            > 100 {
            return None;
        }
        let velocity_automation_span = arp_handler.velocity_automation_span(rate);
        if !note_pattern_in_range(note, method, up_note_cnt) || !velocity_pattern_in_range(
            velocity,
            dynamic_pct,
            velocity_automation_span,
        ) {
            return None;
        }
        // duration of one step, without swing
        let scale: u64 = arp_handler.rate_scale(rate) as u64;
        assert(scale <= 384);
        let once_arp_dur: u64 = NANOS_PER_MINUTE_96TH * scale / (bpm as u64);
        assert(once_arp_dur == arp_step_nanos(bpm, rate));
        assert(once_arp_dur <= 625_000_000 * 384) by (nonlinear_arith)
            requires
                once_arp_dur == 625_000_000 * scale / (bpm as int),
                scale <= 384,
                bpm >= 1,
        ;
        assert(0 <= once_arp_dur * swing_pct / 100 <= once_arp_dur) by (nonlinear_arith)
            requires
                0 <= swing_pct <= 100,
                once_arp_dur >= 0,
        ;

        let note_generator = build_note_generator(note, method, up_note_cnt);
        let velocity_generator = build_velocity_generator(
            velocity,
            velocity_automation,
            dynamic_pct,
            velocity_automation_span,
        );
        let pulse_generator = build_pulse_generator(once_arp_dur, swing_pct);

        Some((note_generator, velocity_generator, pulse_generator))
    } else {
        None
    }
}

/// What the caller has to do after the arpeggiator has handled a message.
pub enum ArpAction {
    /// Nothing.
    Nothing,
    /// Run `task` on `pulse` in the background and keep its cancellation
    /// handle under `ticket`. The handle under `replaced`, if there is one,
    /// has lost its entry: its task is not stopped and runs on unowned.
    Start { ticket: u64, replaced: Option<u64>, task: ArpTask, pulse: PulseGenerator },
    /// Signal the cancellation handle kept under `ticket`.
    Stop { ticket: u64 },
}

/// The arpeggiator: which gestures have an arpeggio running.
pub struct ArpHandler {
    arp_tasks: TaskRegistry,
}

impl ArpHandler {
    /// How many steps a velocity automation spans at `rate`.
    pub fn velocity_automation_span(&self, rate: i8) -> (span: i8)
        requires
            rate_fits(rate),
        ensures
            span == span_table()[rate as int],
    {
        let table: Vec<i8> = vec![
            1, 1, 1, 2, 2, 3, 4, 5, 6, 8, 10, 12, 16, 21, 24, 32, 42, 48, 64, 96,
        ];
        assert(table@ =~= span_table());
        table[rate as usize]
    }

    /// The length of one step at `rate`, in 96ths of a beat.
    pub fn rate_scale(&self, rate: i8) -> (scale: u16)
        requires
            rate_fits(rate),
        ensures
            scale == rate_table()[rate as int],
    {
        let table: Vec<u16> = vec![
            384, 288, 256, 192, 144, 128, 96, 72, 64, 48, 36, 32, 24, 18, 16, 12, 9, 8, 6, 4,
        ];
        assert(table@ =~= rate_table());
        table[rate as usize]
    }

    /// The ticket of each gesture that has an arpeggio.
    pub closed spec fn tasks(self) -> Map<Seq<char>, u64> {
        self.arp_tasks@
    }

    /// How many tickets have been given out.
    pub closed spec fn issued(self) -> u64 {
        self.arp_tasks.issued()
    }

    /// An arpeggiator without running arpeggios.
    pub fn new() -> (h: ArpHandler)
        ensures
            h.tasks() == Map::<Seq<char>, u64>::empty(),
            h.issued() == 0,
    {
        ArpHandler { arp_tasks: TaskRegistry::new() }
    }

    /// How many gestures have an arpeggio.
    pub fn running(&self) -> (n: usize)
        ensures
            self.tasks().dom().finite(),
            n == self.tasks().dom().len(),
    {
        self.arp_tasks.len()
    }

    /// Handles an arpeggio message for the gesture `identifier`: state 1
    /// starts an arpeggio, any other state stops the one that runs. A
    /// message of another kind does nothing.
    pub fn handle(&mut self, identifier: String, message: Message) -> (action: ArpAction)
        ensures
            !(message@ is Arp) ==> action is Nothing && final(self).tasks() == old(self).tasks()
                && final(self).issued() == old(self).issued(),
            message@ matches MessageView::Arp { state, .. } && state == 1 ==> starts(
                *old(self),
                *final(self),
                identifier@,
                message@,
                action,
            ),
            message@ matches MessageView::Arp { state, .. } && state != 1 ==> stops(
                *old(self),
                *final(self),
                identifier@,
                action,
            ),
    {
        if let Message::Arp { state, .. } = message {
            if state == 1 {
                self.start_arp_task(identifier, message)
            } else {
                self.stop_arp_task(identifier)
            }
        } else {
            ArpAction::Nothing
        }
    }

    fn start_arp_task(&mut self, identifier: String, message: Message) -> (action: ArpAction)
        ensures
            starts(*old(self), *final(self), identifier@, message@, action),
    {
        let channel = if let Message::Arp { channel, .. } = message {
            channel
        } else {
            1
        };
        if self.arp_tasks.issued_all() {
            return ArpAction::Nothing;
        }
        if let Some((note_generator, velocity_generator, pulse_generator)) = build_requirements(
            &message,
            self,
        ) {
            let task = ArpTask::new(note_generator, velocity_generator, channel);
            match self.arp_tasks.register(identifier) {
                Some(Registered { ticket, replaced }) => ArpAction::Start {
                    ticket,
                    replaced,
                    task,
                    pulse: pulse_generator,
                },
                None => ArpAction::Nothing,
            }
        } else {
            ArpAction::Nothing
        }
    }

    fn stop_arp_task(&mut self, identifier: String) -> (action: ArpAction)
        ensures
            stops(*old(self), *final(self), identifier@, action),
    {
        match self.arp_tasks.remove(&identifier) {
            Some(ticket) => ArpAction::Stop { ticket },
            None => ArpAction::Nothing,
        }
    }
}

/// What starting an arpeggio does. If the message can be started from and a
/// ticket is left, the task and its pulse are those the message asks for and
/// the identifier now holds the new ticket, whatever it held before; the
/// other identifiers keep theirs. Otherwise nothing changes.
pub open spec fn starts(
    before: ArpHandler,
    after: ArpHandler,
    identifier: Seq<char>,
    m: MessageView,
    action: ArpAction,
) -> bool {
    if arp_startable(m) && before.issued() < u64::MAX {
        &&& action matches ArpAction::Start { ticket, replaced, task, pulse }
        &&& ticket == before.issued()
        &&& replaced == if before.tasks().contains_key(identifier) {
            Some(before.tasks()[identifier])
        } else {
            None
        }
        &&& m matches MessageView::Arp { channel, .. }
        &&& task.channel() == channel
        &&& task.last_note() is None
        &&& arp_requirements_match(m, task.notes(), task.velocities(), pulse)
        &&& after.tasks() == before.tasks().insert(identifier, ticket)
        &&& after.issued() == before.issued() + 1
    } else {
        &&& action is Nothing
        &&& after.tasks() == before.tasks()
        &&& after.issued() == before.issued()
    }
}

/// What stopping an arpeggio does: the identifier loses its entry, and its
/// ticket, if it had one, is handed out to be signalled. Without an entry
/// nothing happens.
pub open spec fn stops(
    before: ArpHandler,
    after: ArpHandler,
    identifier: Seq<char>,
    action: ArpAction,
) -> bool {
    &&& after.tasks() == before.tasks().remove(identifier)
    &&& after.issued() == before.issued()
    &&& if before.tasks().contains_key(identifier) {
        action matches ArpAction::Stop { ticket } && ticket == before.tasks()[identifier]
    } else {
        action is Nothing
    }
}

} // verus!
