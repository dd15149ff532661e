use looper_processor::fixed::Fixed;
use looper_processor::metronome::{tick, MetronomeTick};

fn beats(numerator: i32, denominator: u32) -> Fixed {
    Fixed::from_ratio(numerator, denominator).unwrap()
}

#[test]
fn test_click_starts_at_the_start_of_a_beat() {
    assert_eq!(tick(beats(1, 1), false), MetronomeTick { accent: false, note_on: true });
    assert_eq!(tick(beats(21, 20), false), MetronomeTick { accent: false, note_on: true });
    assert_eq!(tick(beats(3, 2), false), MetronomeTick { accent: false, note_on: false });
}

#[test]
fn test_first_beat_of_a_bar_is_accented() {
    assert_eq!(tick(beats(0, 1), false), MetronomeTick { accent: true, note_on: true });
    assert_eq!(tick(beats(8, 1), false), MetronomeTick { accent: true, note_on: true });
    assert_eq!(tick(beats(65, 8), false), MetronomeTick { accent: false, note_on: false });
    assert_eq!(tick(beats(4, 1), true), MetronomeTick { accent: true, note_on: false });
}

#[test]
fn test_the_first_tenth_ends_at_a_tenth() {
    assert!(tick(beats(3, 32), false).note_on);
    assert!(tick(Fixed::from_raw(429496729), false).note_on);
    assert!(!tick(Fixed::from_raw(429496730), false).note_on);
    assert!(!tick(beats(1, 8), false).note_on);
}

#[test]
fn test_click_does_not_start_twice_in_a_row() {
    let mut playing = false;
    let mut starts = Vec::new();
    for sample in 0..30 {
        let now = tick(beats(sample, 64), playing);
        playing = now.note_on;
        starts.push(now.note_on);
    }
    let expected: Vec<bool> = (0..30).map(|sample| sample < 7 && sample % 2 == 0).collect();
    assert_eq!(starts, expected);
}

#[test]
fn test_beats_before_the_start_count_too() {
    assert_eq!(tick(beats(-4, 1), false), MetronomeTick { accent: true, note_on: true });
    assert_eq!(tick(beats(-1, 20), false), MetronomeTick { accent: false, note_on: false });
    assert_eq!(tick(beats(-19, 20), false), MetronomeTick { accent: false, note_on: true });
}
