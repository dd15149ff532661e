use looper_processor::fixed::Fixed;
use looper_processor::loop_quantization::{LoopQuantizer, LoopQuantizerMode, QuantizeInput};
use looper_processor::quantize_mode::{QuantizeMode, QuantizeOptions, GRID_BEATS};

fn input(tempo: i32, sample_rate: u32, beats: Fixed) -> QuantizeInput {
    QuantizeInput {
        tempo: Fixed::from_int(tempo),
        sample_rate,
        position_beats: beats,
        position_samples: 0,
    }
}

fn next(beats: u32) -> LoopQuantizer {
    LoopQuantizer::new(LoopQuantizerMode::SnapNext { beats })
}

fn closest(beats: u32) -> LoopQuantizer {
    LoopQuantizer::new(LoopQuantizerMode::SnapClosest { beats })
}

#[test]
fn test_snap_next_one_sample_into_the_bar() {
    let one_sample = Fixed::from_ratio(1, 100).unwrap();
    assert_eq!(next(4).quantize(input(60, 100, one_sample)), Some(399));
}

#[test]
fn test_snap_closest_one_sample_into_the_bar() {
    let one_sample = Fixed::from_ratio(1, 100).unwrap();
    assert_eq!(closest(4).quantize(input(60, 100, one_sample)), Some(-1));
}

#[test]
fn test_no_mode_gives_no_offset() {
    let quantizer = LoopQuantizer::new(LoopQuantizerMode::Off);
    assert_eq!(quantizer.quantize(input(60, 100, Fixed::from_int(1))), None);
    assert_eq!(quantizer.mode(), LoopQuantizerMode::Off);
}

#[test]
fn test_on_the_grid_the_offset_is_zero() {
    for beat in [0, 4, 8, 400] {
        assert_eq!(next(4).quantize(input(120, 44100, Fixed::from_int(beat))), Some(0));
        assert_eq!(closest(4).quantize(input(120, 44100, Fixed::from_int(beat))), Some(0));
    }
}

#[test]
fn test_snap_next_counts_whole_beats() {
    assert_eq!(next(4).quantize(input(60, 100, Fixed::from_int(1))), Some(300));
    assert_eq!(next(4).quantize(input(120, 100, Fixed::from_int(1))), Some(150));
    assert_eq!(next(1).quantize(input(60, 48000, Fixed::from_ratio(1, 4).unwrap())), Some(36000));
}

#[test]
fn test_snap_closest_goes_back_before_the_middle() {
    assert_eq!(closest(4).quantize(input(60, 100, Fixed::from_int(1))), Some(-100));
    assert_eq!(closest(4).quantize(input(60, 100, Fixed::from_int(3))), Some(100));
}

#[test]
fn test_snap_closest_tie_goes_forward() {
    assert_eq!(closest(4).quantize(input(60, 100, Fixed::from_int(2))), Some(200));
    assert_eq!(closest(4).quantize(input(60, 100, Fixed::from_int(6))), Some(200));
}

#[test]
fn test_before_the_start_the_grid_goes_on() {
    assert_eq!(next(4).quantize(input(60, 100, Fixed::from_int(-1))), Some(100));
    assert_eq!(closest(4).quantize(input(60, 100, Fixed::from_int(-1))), Some(100));
    assert_eq!(closest(4).quantize(input(60, 100, Fixed::from_int(-3))), Some(-100));
    assert_eq!(next(4).quantize(input(60, 100, Fixed::from_int(-8))), Some(0));
}

#[test]
fn test_offset_is_rounded_to_the_nearest_sample() {
    let third = Fixed::from_ratio(1, 3).unwrap();
    assert_eq!(next(1).quantize(input(60, 10, third)), Some(7));
    assert_eq!(closest(1).quantize(input(60, 10, third)), Some(-3));
    let quarter = Fixed::from_ratio(1, 4).unwrap();
    assert_eq!(closest(1).quantize(input(60, 10, quarter)), Some(-3));
    assert_eq!(next(1).quantize(input(60, 10, quarter)), Some(8));
}

#[test]
fn test_offset_stays_within_32_bits() {
    let slow = QuantizeInput {
        tempo: Fixed::from_raw(1),
        sample_rate: u32::MAX,
        position_beats: Fixed::from_raw(1),
        position_samples: 0,
    };
    assert_eq!(next(u32::MAX).quantize(slow), Some(i32::MAX));
    assert_eq!(closest(u32::MAX).quantize(slow), Some(i32::MIN));
}

#[test]
fn test_without_grid_or_tempo_there_is_no_offset() {
    assert_eq!(next(0).quantize(input(60, 100, Fixed::from_int(1))), None);
    assert_eq!(closest(0).quantize(input(60, 100, Fixed::from_int(1))), None);
    assert_eq!(next(4).quantize(input(0, 100, Fixed::from_int(1))), None);
    assert_eq!(closest(4).quantize(input(-60, 100, Fixed::from_int(1))), None);
}

#[test]
fn test_options_map_modes_to_a_grid_of_bars() {
    let mut options = QuantizeOptions::default();
    assert_eq!(options.mode(), QuantizeMode::Off);
    assert_eq!(options.inner(), LoopQuantizerMode::Off);
    options.set_mode(QuantizeMode::SnapNext);
    assert_eq!(options.inner(), LoopQuantizerMode::SnapNext { beats: GRID_BEATS });
    options.set_mode(QuantizeMode::SnapClosest);
    assert_eq!(options.inner(), LoopQuantizerMode::SnapClosest { beats: 4 });
}
