use looper_processor::fade::{calculate_fade_out_volume, calculate_fade_volume};
use looper_processor::fixed::{Fraction, Position, ONE};

fn ratio(numerator: u64, denominator: u64) -> Fraction {
    Fraction::from_ratio(numerator, denominator).unwrap()
}

#[test]
fn test_fade_in_is_linear_over_the_ramp() {
    let fade = ratio(1, 2);
    let gains: Vec<u64> = (0..8)
        .map(|sample| calculate_fade_volume(fade, 8, Position::new(sample, 0)).raw())
        .collect();
    assert_eq!(gains, vec![0, ONE / 4, ONE / 2, 3 * ONE / 4, ONE, ONE, ONE, ONE]);
}

#[test]
fn test_fade_in_between_samples() {
    let gain = calculate_fade_volume(ratio(1, 2), 8, Position::new(1, 0x8000_0000));
    assert_eq!(gain.raw(), 3 * ONE / 8);
}

#[test]
fn test_fade_in_never_falls() {
    let fade = ratio(1, 3);
    let mut last = 0;
    for step in 0..200u64 {
        let cursor = Position::from_raw(step as u128 * (ONE as u128) / 8).unwrap();
        let gain = calculate_fade_volume(fade, 20, cursor).raw();
        assert!(gain >= last);
        assert!(gain <= ONE);
        last = gain;
    }
    assert_eq!(last, ONE);
}

#[test]
fn test_fade_out_is_linear_towards_the_end() {
    let fade = ratio(1, 2);
    let gains: Vec<u64> = (0..8)
        .map(|sample| calculate_fade_out_volume(fade, 8, Position::new(sample, 0)).raw())
        .collect();
    assert_eq!(gains, vec![ONE, ONE, ONE, ONE, 3 * ONE / 4, ONE / 2, ONE / 4, 0]);
}

#[test]
fn test_fade_out_never_rises() {
    let fade = ratio(2, 3);
    let mut last = ONE;
    for step in 0..200u64 {
        let cursor = Position::from_raw(step as u128 * (ONE as u128) / 8).unwrap();
        let gain = calculate_fade_out_volume(fade, 20, cursor).raw();
        assert!(gain <= last);
        last = gain;
    }
    assert_eq!(last, 0);
}

#[test]
fn test_fade_out_past_the_last_sample_is_silent() {
    let gain = calculate_fade_out_volume(ratio(1, 2), 4, Position::new(3, 1));
    assert_eq!(gain.raw(), 0);
    let gain = calculate_fade_out_volume(ratio(1, 2), 4, Position::new(100, 0));
    assert_eq!(gain.raw(), 0);
}

#[test]
fn test_fades_of_no_length_are_unity() {
    for length in [0usize, 1, 4, 1000] {
        for sample in [0u64, 1, 3, 999, 5000] {
            let cursor = Position::new(sample, 12345);
            assert_eq!(calculate_fade_volume(Fraction::zero(), length, cursor).raw(), ONE);
            assert_eq!(calculate_fade_out_volume(Fraction::zero(), length, cursor).raw(), ONE);
        }
    }
}

#[test]
fn test_fades_of_an_empty_loop_are_unity() {
    let cursor = Position::new(0, 0);
    assert_eq!(calculate_fade_volume(Fraction::one(), 0, cursor).raw(), ONE);
    assert_eq!(calculate_fade_out_volume(Fraction::one(), 0, cursor).raw(), ONE);
}

#[test]
fn test_fade_over_the_whole_of_a_very_long_loop() {
    let length = usize::MAX;
    let cursor = Position::new(u64::MAX / 2, 0);
    let gain = calculate_fade_volume(Fraction::one(), length, cursor).raw();
    assert_eq!(gain, ONE / 2 - 1);
}
