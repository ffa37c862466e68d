use vpad_core::arp_handler::{
    build_note_generator, build_velocity_generator, count_to_vec, count_to_vec_up_down,
    METHOD_3CHORD, METHOD_7MINCHORD, METHOD_DOWN, METHOD_DOWNUP, METHOD_NO_METHOD, METHOD_UP,
    METHOD_UPDOWN, VELOCITY_DOWN, VELOCITY_DOWN_UP, VELOCITY_NO_AUTOMATION, VELOCITY_RANDOM,
    VELOCITY_STEP, VELOCITY_UP, VELOCITY_UP_DOWN,
};
use vpad_core::circle_container::CircleContainer;

fn pull_all(c: &mut CircleContainer<i8>) -> Vec<i8> {
    let n = c.len();
    let mut out = Vec::new();
    for _ in 0..n {
        out.push(c.next().unwrap());
    }
    out
}

#[test]
fn test_method_up_odd() {
    let mut c = build_note_generator(0, METHOD_UP, 3);
    assert_eq!(c.next(), Some(0));
    assert_eq!(c.next(), Some(12));
    assert_eq!(c.next(), Some(24));
}

#[test]
fn test_method_up_even() {
    let mut c = build_note_generator(0, METHOD_UP, 4);
    assert_eq!(c.next(), Some(0));
    assert_eq!(c.next(), Some(12));
    assert_eq!(c.next(), Some(24));
    assert_eq!(c.next(), Some(36));
}

#[test]
fn test_method_down_odd() {
    let mut c = build_note_generator(0, METHOD_DOWN, 3);
    assert_eq!(c.next(), Some(0));
    assert_eq!(c.next(), Some(-12));
    assert_eq!(c.next(), Some(-24));
}

#[test]
fn test_method_down_even() {
    let mut c = build_note_generator(0, METHOD_DOWN, 4);
    assert_eq!(c.next(), Some(0));
    assert_eq!(c.next(), Some(-12));
    assert_eq!(c.next(), Some(-24));
    assert_eq!(c.next(), Some(-36));
}

#[test]
fn test_method_up_down_odd() {
    let mut c = build_note_generator(0, METHOD_UPDOWN, 3);
    assert_eq!(c.next(), Some(0));
    assert_eq!(c.next(), Some(12));
    assert_eq!(c.next(), Some(0));
}

#[test]
fn test_method_up_down_even() {
    let mut c = build_note_generator(0, METHOD_UPDOWN, 4);
    assert_eq!(c.next(), Some(0));
    assert_eq!(c.next(), Some(12));
    assert_eq!(c.next(), Some(12));
    assert_eq!(c.next(), Some(0));
}

#[test]
fn test_only_one_note() {
    let mut c = build_note_generator(0, METHOD_UP, 1);
    assert_eq!(c.next(), Some(0));

    let mut c = build_note_generator(0, METHOD_DOWN, 1);
    assert_eq!(c.next(), Some(0));

    let mut c = build_note_generator(0, METHOD_UPDOWN, 1);
    assert_eq!(c.next(), Some(0));
}

#[test]
fn test_count_to_vec() {
    let new_vec = count_to_vec(3, |i| i * 2);
    assert_eq!(new_vec, vec![0, 2, 4]);
}

#[test]
fn test_count_to_vec_up_down_with_odd_counts() {
    let new_vec = count_to_vec_up_down(3, |i| i * 2);
    assert_eq!(new_vec, vec![0, 2, 0]);
}

#[test]
fn test_count_to_vec_with_even_counts() {
    let new_vec = count_to_vec_up_down(4, |i| i * 2);
    assert_eq!(new_vec, vec![0, 2, 2, 0]);
}

#[test]
fn count_to_vec_of_nothing_is_empty() {
    assert_eq!(count_to_vec(0, |i| i), Vec::<i8>::new());
    assert_eq!(count_to_vec(-3, |i| i), Vec::<i8>::new());
    assert_eq!(count_to_vec_up_down(0, |i| i), Vec::<i8>::new());
}

#[test]
fn count_up_down_turns_at_the_middle() {
    assert_eq!(count_to_vec_up_down(1, |i| i), vec![0]);
    assert_eq!(count_to_vec_up_down(2, |i| i), vec![0, 0]);
    assert_eq!(count_to_vec_up_down(5, |i| i), vec![0, 1, 2, 1, 0]);
    assert_eq!(count_to_vec_up_down(6, |i| i), vec![0, 1, 2, 2, 1, 0]);
    assert_eq!(count_to_vec_up_down(7, |i| i), vec![0, 1, 2, 3, 2, 1, 0]);
}

#[test]
fn note_pattern_adds_the_base_note() {
    let mut c = build_note_generator(60, METHOD_UP, 3);
    assert_eq!(pull_all(&mut c), vec![60, 72, 84]);
    let mut c = build_note_generator(60, METHOD_DOWNUP, 5);
    assert_eq!(pull_all(&mut c), vec![60, 48, 36, 48, 60]);
}

#[test]
fn chord_methods_climb_an_octave_each_round() {
    let mut c = build_note_generator(0, METHOD_3CHORD, 7);
    assert_eq!(pull_all(&mut c), vec![0, 4, 7, 12, 16, 19, 24]);
    let mut c = build_note_generator(10, METHOD_7MINCHORD, 6);
    assert_eq!(pull_all(&mut c), vec![10, 13, 17, 21, 22, 25]);
}

#[test]
fn unknown_method_steps_by_semitones() {
    let mut c = build_note_generator(50, METHOD_NO_METHOD, 4);
    assert_eq!(pull_all(&mut c), vec![50, 51, 52, 53]);
}

#[test]
fn note_pattern_wraps_after_its_last_voice() {
    let mut c = build_note_generator(0, METHOD_UP, 2);
    assert_eq!(c.next(), Some(0));
    assert_eq!(c.next(), Some(12));
    assert_eq!(c.next(), Some(0));
}

#[test]
fn velocity_counterpart_is_clamped_to_127() {
    // base 100 at 150 % would be 150: held at 127, so the ramp ends at 127
    let mut c = build_velocity_generator(100, VELOCITY_STEP, 150, 2);
    assert_eq!(pull_all(&mut c), vec![127, 100]);
}

#[test]
fn velocity_ramps_interpolate_between_the_ends() {
    // base 100 at 50 %: counterpart 50, range 50..100, four steps of 12
    let mut c = build_velocity_generator(100, VELOCITY_UP, 50, 4);
    assert_eq!(pull_all(&mut c), vec![50, 62, 74, 86]);
    let mut c = build_velocity_generator(100, VELOCITY_DOWN, 50, 4);
    assert_eq!(pull_all(&mut c), vec![100, 88, 76, 64]);
}

#[test]
fn velocity_up_down_mirrors_at_double_step() {
    let mut c = build_velocity_generator(100, VELOCITY_UP_DOWN, 50, 4);
    assert_eq!(pull_all(&mut c), vec![50, 74, 74, 50]);
    let mut c = build_velocity_generator(100, VELOCITY_DOWN_UP, 50, 5);
    assert_eq!(pull_all(&mut c), vec![100, 80, 60, 80, 100]);
}

#[test]
fn velocity_without_automation_is_constant() {
    let mut c = build_velocity_generator(90, VELOCITY_NO_AUTOMATION, 150, 3);
    assert_eq!(pull_all(&mut c), vec![90, 90, 90]);
}

#[test]
fn velocity_at_100_percent_is_constant_under_every_shape() {
    for shape in [VELOCITY_UP, VELOCITY_DOWN, VELOCITY_UP_DOWN, VELOCITY_STEP, VELOCITY_RANDOM] {
        let mut c = build_velocity_generator(80, shape, 100, 8);
        assert_eq!(pull_all(&mut c), vec![80; 8]);
    }
}

#[test]
fn random_velocities_stay_in_range_and_are_drawn_once() {
    let mut c = build_velocity_generator(40, VELOCITY_RANDOM, 200, 16);
    let first = pull_all(&mut c);
    assert_eq!(first.len(), 16);
    for v in &first {
        assert!(40 <= *v && *v <= 80);
    }
    // the second round repeats the first: nothing is drawn again
    let second = pull_all(&mut c);
    assert_eq!(first, second);
}

#[test]
fn velocity_counterpart_rounds_towards_zero() {
    // 7 * 29 / 100 = 2.03 -> 2; range 2..7
    let mut c = build_velocity_generator(7, VELOCITY_STEP, 29, 2);
    assert_eq!(pull_all(&mut c), vec![7, 2]);
}
