use looper_processor::fixed::{Fixed, Fraction, Position, ONE};
use looper_processor::handle::LooperHandle;
use looper_processor::looper_state::{
    LoopOutput, LooperOptions, LooperState, PrepareError, ToggleRecordingResult,
};
use looper_processor::quantize_mode::QuantizeMode;
use looper_processor::settings::AudioProcessorSettings;

fn volume(fraction: Fraction) -> f64 {
    fraction.raw() as f64 / ONE as f64
}

fn at(sample: u64) -> Position {
    Position::new(sample, 0)
}

fn default_handle() -> LooperHandle<f32> {
    LooperHandle::from_options(LooperOptions::default(), 0.0)
}

fn half() -> Fraction {
    Fraction::from_ratio(1, 2).unwrap()
}

#[test]
fn test_get_fade_volumes_when_buffer_is_empty() {
    let handle = default_handle();
    assert_eq!(volume(handle.get_fade_in_volume(at(0))), 1.0);
    assert_eq!(volume(handle.get_fade_out_volume(at(0))), 1.0);
    assert_eq!(volume(handle.get_fade_in_volume(at(2))), 1.0);
    assert_eq!(volume(handle.get_fade_out_volume(at(2))), 1.0);
}

#[test]
fn test_get_fade_volumes_when_theres_no_fade_set_return_1() {
    let mut handle = default_handle();
    let buffer = vec![1.0, 2.0, 3.0, 4.0];
    handle.set_looper_buffer(1, &buffer);
    assert_eq!(volume(handle.get_fade_in_volume(at(0))), 1.0);
    assert_eq!(volume(handle.get_fade_out_volume(at(0))), 1.0);
    assert_eq!(volume(handle.get_fade_in_volume(at(2))), 1.0);
    assert_eq!(volume(handle.get_fade_out_volume(at(2))), 1.0);
}

#[test]
fn test_get_fade_in_volume_when_theres_fade_in() {
    let mut handle = default_handle();
    let buffer = vec![1.0, 2.0, 3.0, 4.0];
    handle.set_looper_buffer(1, &buffer);
    handle.set_fade_start(half());
    assert_eq!(volume(handle.get_fade_in_volume(at(0))), 0.0);
    assert_eq!(volume(handle.get_fade_in_volume(at(1))), 0.5);
    assert_eq!(volume(handle.get_fade_in_volume(at(2))), 1.0);
    assert_eq!(volume(handle.get_fade_in_volume(at(3))), 1.0);
}

#[test]
fn test_get_fade_out_volume_when_theres_fade_out() {
    let mut handle = default_handle();
    let buffer = vec![1.0, 2.0, 3.0, 4.0];
    handle.set_looper_buffer(1, &buffer);
    handle.set_fade_end(half());
    assert_eq!(volume(handle.get_fade_out_volume(at(0))), 1.0);
    assert_eq!(volume(handle.get_fade_out_volume(at(1))), 1.0);
    assert_eq!(volume(handle.get_fade_out_volume(at(2))), 0.5);
    assert_eq!(volume(handle.get_fade_out_volume(at(3))), 0.0);
}

#[test]
fn test_stop_recording_does_not_allocate() {
    let mut handle = default_handle();
    handle.start_recording();
    let buffer = vec![1.0, 2.0, 3.0, 4.0];
    for sample in buffer.iter() {
        handle.process(0, *sample);
    }
    assert_eq!(handle.state(), LooperState::Recording);
    let storage = handle.looper_clip().capacity();
    handle.stop_recording_audio_thread_only();
    assert_eq!(handle.looper_clip().capacity(), storage);
    assert_eq!(handle.state(), LooperState::Playing);
    assert_eq!(handle.num_samples(), 0);
}

#[test]
fn test_audio_thread_stop_keeps_the_storage_of_the_clip() {
    let mut handle = prepared(100, 2, 1000);
    let storage = handle.looper_clip().capacity();
    assert!(storage >= 200);
    for round in 0..3 {
        handle.start_recording();
        for sample in 0..(50 + 25 * round) {
            handle.process(0, sample as f32);
            handle.process(1, -(sample as f32));
            handle.after_process();
        }
        handle.stop_recording_audio_thread_only();
        assert_eq!(handle.state(), LooperState::Playing);
        assert_eq!(handle.num_samples(), 50 + 25 * round);
        assert_eq!(handle.looper_clip().capacity(), storage);
        handle.clear();
        assert_eq!(handle.looper_clip().capacity(), storage);
    }
}

#[test]
fn test_get_offset_cursor_without_tempo() {
    let mut handle = default_handle();
    handle.prepare(AudioProcessorSettings::default()).unwrap();
    handle.set_quantize_mode(QuantizeMode::SnapNext);

    let offset = handle.get_quantized_offset();
    assert!(offset.is_none());
}

#[test]
fn test_get_offset_cursor_with_tempo_but_disabled_quantize() {
    let mut handle = default_handle();
    handle.prepare(AudioProcessorSettings::new(100, 1, 1, 512)).unwrap();
    handle.set_tempo(Fixed::from_int(60));

    let offset = handle.get_quantized_offset();
    assert_eq!(offset, None);
    handle.process(0, 0.0);
    handle.after_process();
    assert_eq!(handle.time_info_provider().get_time_info().position_samples(), 1);
    let offset = handle.get_quantized_offset();
    assert_eq!(offset, None);
}

#[test]
fn test_get_offset_cursor_with_tempo_snap_next() {
    let mut handle = default_handle();
    handle.prepare(AudioProcessorSettings::new(100, 1, 1, 512)).unwrap();
    handle.set_tempo(Fixed::from_int(60));
    handle.set_quantize_mode(QuantizeMode::SnapNext);

    let offset = handle.get_quantized_offset();
    assert_eq!(offset, Some(0));
    handle.process(0, 0.0);
    handle.after_process();
    assert_eq!(handle.time_info_provider().get_time_info().position_samples(), 1);

    let offset = handle.get_quantized_offset();
    assert_eq!(offset, Some(399));
}

#[test]
fn test_get_offset_cursor_with_tempo_snap_closest() {
    let mut handle = default_handle();
    handle.prepare(AudioProcessorSettings::new(100, 1, 1, 512)).unwrap();
    handle.set_tempo(Fixed::from_int(60));
    handle.set_quantize_mode(QuantizeMode::SnapClosest);

    let offset = handle.get_quantized_offset();
    assert_eq!(offset, Some(0));
    handle.process(0, 0.0);
    handle.after_process();
    assert_eq!(handle.time_info_provider().get_time_info().position_samples(), 1);

    let offset = handle.get_quantized_offset();
    assert_eq!(offset, Some(-1));
}

fn prepared(sample_rate: u32, channels: usize, millis: u64) -> LooperHandle<f32> {
    let mut handle =
        LooperHandle::from_options(LooperOptions { max_loop_length_millis: millis }, 0.0);
    handle.prepare(AudioProcessorSettings::new(sample_rate, channels, channels, 64)).unwrap();
    handle
}

fn frame(handle: &mut LooperHandle<f32>, sample: f32) -> f32 {
    let processed = handle.process(0, sample);
    let out = match processed.output {
        LoopOutput::Silence => 0.0,
        LoopOutput::Interpolated { first, second, weight } => {
            first + (volume(weight) as f32) * (second - first)
        }
        LoopOutput::Overdubbed { stored } => {
            handle.overdub(0, stored + sample);
            stored
        }
    };
    assert!(handle.can_tick());
    handle.after_process();
    out
}

#[test]
fn test_new_handle_has_documented_defaults() {
    let handle = default_handle();
    assert_eq!(handle.state(), LooperState::Empty);
    assert_eq!(handle.num_samples(), 0);
    assert_eq!(handle.playhead(), 0);
    assert_eq!(handle.dry_volume(), Fixed::from_int(0));
    assert_eq!(handle.wet_volume(), Fixed::from_int(1));
    assert_eq!(handle.speed(), Fixed::from_int(1));
    assert_eq!(handle.quantize_options().mode(), QuantizeMode::Off);
    assert!(!handle.is_recording());
    assert!(!handle.is_playing_back());
    assert_eq!(handle.looper_clip().num_channels(), 0);
}

#[test]
fn test_prepare_sizes_buffers_to_longest_loop() {
    let handle = prepared(100, 2, 1500);
    assert_eq!(handle.state(), LooperState::Empty);
    assert_eq!(handle.looper_clip().num_channels(), 2);
    assert_eq!(handle.looper_clip().num_samples(), 150);
    assert_eq!(handle.time_info_provider().sample_rate, 100);
}

#[test]
fn test_prepare_rounds_the_longest_loop_up() {
    let handle = prepared(3, 1, 1001);
    assert_eq!(handle.looper_clip().num_samples(), 4);
}

#[test]
fn test_prepare_rejects_zero_sample_rate() {
    let mut handle = default_handle();
    let result = handle.prepare(AudioProcessorSettings::new(0, 1, 1, 64));
    assert_eq!(result, Err(PrepareError::ZeroSampleRate));
    assert_eq!(handle.looper_clip().num_channels(), 0);
}

#[test]
fn test_prepare_rejects_loop_that_cannot_fit() {
    let mut handle =
        LooperHandle::from_options(LooperOptions { max_loop_length_millis: u64::MAX }, 0.0f32);
    let result = handle.prepare(AudioProcessorSettings::new(u32::MAX, 2, 2, 64));
    assert_eq!(result, Err(PrepareError::LoopTooLong));
    assert_eq!(handle.state(), LooperState::Empty);
}

#[test]
fn test_record_then_stop_yields_clip_of_recorded_samples() {
    let mut handle = prepared(100, 1, 1000);
    frame(&mut handle, 9.0);
    assert_eq!(handle.start_recording(), LooperState::Recording);
    for sample in [1.0, 2.0, 3.0] {
        assert_eq!(frame(&mut handle, sample), 0.0);
    }
    assert_eq!(handle.num_samples(), 3);
    handle.stop_recording_allocating_loop();
    assert_eq!(handle.state(), LooperState::Playing);
    assert_eq!(handle.num_samples(), 3);
    let clip = handle.looper_clip();
    assert_eq!(clip.num_samples(), 3);
    assert_eq!(clip.get(0, 0), 1.0);
    assert_eq!(clip.get(0, 1), 2.0);
    assert_eq!(clip.get(0, 2), 3.0);
    assert_eq!(handle.playhead(), 0);
}

#[test]
fn test_audio_thread_stop_yields_same_clip() {
    let mut handle = prepared(100, 1, 1000);
    handle.start_recording();
    for sample in [4.0, 5.0] {
        frame(&mut handle, sample);
    }
    handle.stop_recording_audio_thread_only();
    assert_eq!(handle.state(), LooperState::Playing);
    assert_eq!(handle.looper_clip().num_samples(), 2);
    assert_eq!(handle.looper_clip().get(0, 0), 4.0);
    assert_eq!(handle.looper_clip().get(0, 1), 5.0);
}

#[test]
fn test_playback_loops_over_the_clip() {
    let mut handle = default_handle();
    handle.set_looper_buffer(1, &[1.0, 2.0, 3.0, 4.0]);
    handle.play();
    let played: Vec<f32> = (0..6).map(|_| frame(&mut handle, 0.0)).collect();
    assert_eq!(played, vec![1.0, 2.0, 3.0, 4.0, 1.0, 2.0]);
}

#[test]
fn test_playback_interpolates_between_samples() {
    let mut handle = default_handle();
    handle.set_looper_buffer(1, &[0.0, 2.0, 4.0, 6.0]);
    handle.set_speed(Fixed::from_raw((ONE / 2) as i64));
    handle.play();
    let played: Vec<f32> = (0..4).map(|_| frame(&mut handle, 0.0)).collect();
    assert_eq!(played, vec![0.0, 1.0, 2.0, 3.0]);
}

#[test]
fn test_last_sample_interpolates_towards_the_first() {
    let mut handle = default_handle();
    handle.set_looper_buffer(1, &[0.0, 8.0]);
    handle.set_speed(Fixed::from_raw((ONE / 2) as i64));
    handle.play();
    let played: Vec<f32> = (0..4).map(|_| frame(&mut handle, 0.0)).collect();
    assert_eq!(played, vec![0.0, 4.0, 8.0, 4.0]);
}

#[test]
fn test_reverse_playback_wraps_to_the_end() {
    let mut handle = default_handle();
    handle.set_looper_buffer(1, &[1.0, 2.0, 3.0, 4.0]);
    handle.set_speed(Fixed::from_int(-1));
    handle.play();
    assert_eq!(handle.playhead(), 0);
    handle.after_process();
    assert_eq!(handle.cursor().raw(), 4 * ONE as u128);
    handle.after_process();
    assert_eq!(handle.playhead(), 3);
}

#[test]
fn test_overdub_adds_to_the_clip() {
    let mut handle = default_handle();
    handle.set_looper_buffer(1, &[1.0, 2.0]);
    handle.play();
    assert_eq!(handle.start_recording(), LooperState::Overdubbing);
    assert!(handle.is_recording());
    assert_eq!(frame(&mut handle, 10.0), 1.0);
    assert_eq!(frame(&mut handle, 20.0), 2.0);
    handle.stop_recording_audio_thread_only();
    assert_eq!(handle.state(), LooperState::Playing);
    assert_eq!(handle.looper_clip().get(0, 0), 11.0);
    assert_eq!(handle.looper_clip().get(0, 1), 22.0);
}

#[test]
fn test_overdub_outside_overdubbing_changes_nothing() {
    let mut handle = default_handle();
    handle.set_looper_buffer(1, &[1.0, 2.0]);
    handle.play();
    handle.overdub(0, 5.0);
    assert_eq!(handle.looper_clip().get(0, 0), 1.0);
}

#[test]
fn test_toggle_recording_starts_then_stops() {
    let mut handle = prepared(100, 1, 1000);
    assert_eq!(handle.toggle_recording(), ToggleRecordingResult::StartedRecording);
    assert_eq!(handle.state(), LooperState::Recording);
    frame(&mut handle, 1.0);
    assert_eq!(handle.toggle_recording(), ToggleRecordingResult::StoppedRecording);
    assert_eq!(handle.state(), LooperState::Playing);
    assert_eq!(handle.num_samples(), 1);
}

#[test]
fn test_toggle_recording_waits_for_the_grid() {
    let mut handle = prepared(100, 1, 10_000);
    handle.set_tempo(Fixed::from_int(60));
    handle.set_quantize_mode(QuantizeMode::SnapNext);
    frame(&mut handle, 0.0);
    assert_eq!(handle.toggle_recording(), ToggleRecordingResult::StartedRecording);
    assert_eq!(handle.state(), LooperState::RecordingScheduled);
    for _ in 0..398 {
        frame(&mut handle, 0.0);
        assert_eq!(handle.state(), LooperState::RecordingScheduled);
    }
    frame(&mut handle, 0.0);
    assert_eq!(handle.state(), LooperState::Recording);
    assert_eq!(handle.num_samples(), 0);
}

#[test]
fn test_scheduled_stop_finalizes_on_the_grid() {
    let mut handle = prepared(100, 1, 10_000);
    handle.set_tempo(Fixed::from_int(60));
    handle.start_recording();
    assert_eq!(handle.state(), LooperState::Recording);
    for _ in 0..10 {
        frame(&mut handle, 1.0);
    }
    handle.set_quantize_mode(QuantizeMode::SnapNext);
    handle.stop_recording_allocating_loop();
    assert_eq!(handle.state(), LooperState::PlayingScheduled);
    for _ in 0..389 {
        frame(&mut handle, 1.0);
        assert_eq!(handle.state(), LooperState::PlayingScheduled);
    }
    frame(&mut handle, 1.0);
    assert_eq!(handle.state(), LooperState::Playing);
    assert_eq!(handle.num_samples(), 399);
    assert_eq!(handle.looper_clip().num_samples(), 399);
}

#[test]
fn test_recording_stops_at_capacity() {
    let mut handle = prepared(100, 1, 50);
    handle.start_recording();
    for sample in [1.0, 2.0, 3.0, 4.0, 5.0] {
        frame(&mut handle, sample);
        assert_eq!(handle.state(), LooperState::Recording);
    }
    assert_eq!(handle.num_samples(), 5);
    frame(&mut handle, 6.0);
    assert_eq!(handle.state(), LooperState::Playing);
    assert_eq!(handle.num_samples(), 5);
    assert_eq!(handle.looper_clip().get(0, 0), 6.0);
    assert_eq!(handle.looper_clip().get(0, 4), 5.0);
}

#[test]
fn test_import_then_play() {
    let mut handle = default_handle();
    handle.set_looper_buffer(1, &[1.0, 2.0, 3.0, 4.0]);
    assert_eq!(handle.num_samples(), 4);
    assert_eq!(handle.state(), LooperState::Paused);
    handle.set_start_offset(half());
    handle.play();
    assert_eq!(handle.state(), LooperState::Playing);
    assert_eq!(handle.cursor().raw(), 2 * ONE as u128);
    assert_eq!(handle.playhead(), 2);
}

#[test]
fn test_import_splits_frames_into_channels() {
    let mut handle = default_handle();
    handle.set_looper_buffer(2, &[1.0, -1.0, 2.0, -2.0, 3.0]);
    assert_eq!(handle.num_samples(), 2);
    let clip = handle.looper_clip();
    assert_eq!(clip.num_channels(), 2);
    assert_eq!(clip.get(0, 1), 2.0);
    assert_eq!(clip.get(1, 0), -1.0);
    assert_eq!(clip.get(1, 1), -2.0);
}

#[test]
fn test_import_without_channels_is_an_empty_loop() {
    let mut handle = default_handle();
    handle.set_looper_buffer(0, &[1.0, 2.0]);
    assert_eq!(handle.num_samples(), 0);
    assert_eq!(handle.state(), LooperState::Paused);
    handle.play();
    assert_eq!(frame(&mut handle, 0.5), 0.0);
}

#[test]
fn test_one_shot_freezes_at_the_end() {
    let mut handle = default_handle();
    handle.set_looper_buffer(1, &[1.0, 2.0, 3.0, 4.0]);
    handle.set_loop_enabled(false);
    handle.play();
    for _ in 0..3 {
        handle.after_process();
    }
    assert_eq!(handle.playhead(), 3);
    for _ in 0..5 {
        handle.after_process();
        assert_eq!(handle.cursor().raw(), 3 * ONE as u128);
    }
}

#[test]
fn test_one_shot_freezes_before_end_offset() {
    let mut handle = default_handle();
    handle.set_looper_buffer(1, &[1.0, 2.0, 3.0, 4.0]);
    handle.set_loop_enabled(false);
    handle.set_end_offset(half());
    handle.play();
    handle.after_process();
    assert_eq!(handle.playhead(), 1);
    handle.after_process();
    assert_eq!(handle.playhead(), 1);
}

#[test]
fn test_wrap_snaps_to_start_offset() {
    let mut handle = default_handle();
    handle.set_looper_buffer(1, &[1.0, 2.0, 3.0, 4.0]);
    handle.set_start_offset(half());
    handle.play();
    assert_eq!(handle.playhead(), 2);
    handle.after_process();
    assert_eq!(handle.playhead(), 3);
    handle.after_process();
    assert_eq!(handle.playhead(), 2);
}

#[test]
fn test_trigger_resets_cursor_without_changing_state() {
    let mut handle = default_handle();
    handle.set_looper_buffer(1, &[1.0, 2.0, 3.0, 4.0]);
    handle.play();
    handle.after_process();
    handle.after_process();
    assert_eq!(handle.playhead(), 2);
    handle.trigger();
    assert_eq!(handle.playhead(), 0);
    assert_eq!(handle.state(), LooperState::Playing);
}

#[test]
fn test_clear_silences_the_clip() {
    let mut handle = default_handle();
    handle.set_looper_buffer(1, &[1.0, 2.0]);
    handle.play();
    handle.clear();
    assert_eq!(handle.state(), LooperState::Empty);
    assert_eq!(handle.num_samples(), 0);
    assert_eq!(handle.looper_clip().num_samples(), 2);
    assert_eq!(handle.looper_clip().get(0, 0), 0.0);
    assert_eq!(handle.looper_clip().get(0, 1), 0.0);
}

#[test]
fn test_clear_supersedes_a_scheduled_start() {
    let mut handle = prepared(100, 1, 10_000);
    handle.set_tempo(Fixed::from_int(60));
    handle.set_quantize_mode(QuantizeMode::SnapNext);
    frame(&mut handle, 0.0);
    handle.start_recording();
    assert_eq!(handle.state(), LooperState::RecordingScheduled);
    handle.clear();
    assert_eq!(handle.state(), LooperState::Empty);
    for _ in 0..500 {
        frame(&mut handle, 0.0);
    }
    assert_eq!(handle.state(), LooperState::Empty);
}

#[test]
fn test_requests_that_do_not_fit_the_state_change_nothing() {
    let mut handle = prepared(100, 1, 1000);
    handle.pause();
    assert_eq!(handle.state(), LooperState::Empty);
    handle.stop_recording_allocating_loop();
    assert_eq!(handle.state(), LooperState::Empty);
    handle.start_recording();
    assert_eq!(handle.start_recording(), LooperState::Recording);
    handle.play();
    assert_eq!(handle.state(), LooperState::Recording);
    handle.pause();
    assert_eq!(handle.state(), LooperState::Recording);
}

#[test]
fn test_toggle_playback_walks_the_table() {
    let mut handle = prepared(100, 1, 1000);
    assert!(handle.toggle_playback());
    assert_eq!(handle.state(), LooperState::Playing);
    assert!(!handle.toggle_playback());
    assert_eq!(handle.state(), LooperState::Paused);
    assert!(handle.toggle_playback());
    handle.start_recording();
    assert_eq!(handle.state(), LooperState::Overdubbing);
    assert!(!handle.toggle_playback());
    assert_eq!(handle.state(), LooperState::Paused);
    handle.clear();
    handle.start_recording();
    assert!(!handle.toggle_playback());
    assert_eq!(handle.state(), LooperState::Paused);
}

#[test]
fn test_toggle_playback_while_recording_makes_the_clip_at_once() {
    let mut handle = prepared(100, 1, 10_000);
    handle.set_tempo(Fixed::from_int(60));
    handle.set_quantize_mode(QuantizeMode::SnapNext);
    assert_eq!(handle.start_recording(), LooperState::Recording);
    for sample in [1.0, 2.0, 3.0] {
        frame(&mut handle, sample);
    }
    assert_eq!(handle.get_quantized_offset(), Some(397));
    assert!(!handle.toggle_playback());
    assert_eq!(handle.state(), LooperState::Paused);
    assert_eq!(handle.num_samples(), 3);
    assert_eq!(handle.looper_clip().num_samples(), 3);
    assert_eq!(handle.looper_clip().get(0, 0), 1.0);
    assert_eq!(handle.looper_clip().get(0, 2), 3.0);
    assert_eq!(handle.playhead(), 0);
    for _ in 0..500 {
        frame(&mut handle, 0.0);
        assert_eq!(handle.state(), LooperState::Paused);
    }
}

#[test]
fn test_toggle_playback_leaves_a_looper_that_waits_as_it_is() {
    let mut handle = prepared(100, 1, 10_000);
    handle.set_tempo(Fixed::from_int(60));
    handle.set_quantize_mode(QuantizeMode::SnapNext);
    frame(&mut handle, 0.0);
    assert_eq!(handle.start_recording(), LooperState::RecordingScheduled);
    assert!(!handle.toggle_playback());
    assert_eq!(handle.state(), LooperState::RecordingScheduled);
}

#[test]
fn test_without_quantization_nothing_waits_for_the_grid() {
    let mut handle = prepared(100, 1, 10_000);
    handle.set_tempo(Fixed::from_int(60));
    frame(&mut handle, 0.0);
    assert_eq!(handle.get_quantized_offset(), None);
    assert_eq!(handle.start_recording(), LooperState::Recording);
    frame(&mut handle, 1.0);
    handle.stop_recording_allocating_loop();
    assert_eq!(handle.state(), LooperState::Playing);
    assert_eq!(handle.num_samples(), 1);
}

#[test]
fn test_clips_made_on_the_control_side_have_storage_for_the_longest_loop() {
    let mut handle = prepared(100, 2, 1000);
    handle.start_recording();
    for sample in 0..10 {
        handle.process(0, sample as f32);
        handle.process(1, sample as f32);
        handle.after_process();
    }
    handle.stop_recording_allocating_loop();
    assert_eq!(handle.looper_clip().num_samples(), 10);
    let storage = handle.looper_clip().capacity();
    assert!(storage >= 200);
    handle.clear();
    handle.start_recording();
    for sample in 0..100 {
        handle.process(0, sample as f32);
        handle.process(1, sample as f32);
        handle.after_process();
    }
    handle.stop_recording_audio_thread_only();
    assert_eq!(handle.looper_clip().num_samples(), 100);
    assert_eq!(handle.looper_clip().capacity(), storage);
    handle.set_looper_buffer(1, &[1.0, 2.0]);
    assert!(handle.looper_clip().capacity() >= 200);
}

#[test]
fn test_from_options_makes_the_looper_that_new_makes() {
    let handle = default_handle();
    assert_eq!(handle.dry_volume(), Fixed::from_int(0));
    assert_eq!(handle.wet_volume(), Fixed::from_int(1));
    assert_eq!(handle.speed(), Fixed::from_int(1));
    assert_eq!(handle.cursor().raw(), 0);
    assert!(handle.can_tick());
    assert_eq!(handle.time_info_provider().get_time_info().tempo(), None);
    let mut handle = default_handle();
    handle.set_looper_buffer(1, &[1.0, 2.0, 3.0, 4.0]);
    handle.play();
    let played: Vec<f32> = (0..9).map(|_| frame(&mut handle, 5.0)).collect();
    assert_eq!(played, vec![1.0, 2.0, 3.0, 4.0, 1.0, 2.0, 3.0, 4.0, 1.0]);
    assert_eq!(handle.time_info_provider().get_time_info().position_samples(), 9);
}

#[test]
fn test_process_reports_volumes_and_fades() {
    let mut handle = default_handle();
    handle.set_looper_buffer(1, &[1.0, 2.0, 3.0, 4.0]);
    handle.set_dry_volume(Fixed::from_int(2));
    handle.set_wet_volume(Fixed::from_int(3));
    handle.set_fade_start(half());
    handle.set_fade_end(half());
    handle.play();
    handle.after_process();
    let processed = handle.process(0, 0.25);
    assert_eq!(processed.input, 0.25);
    assert_eq!(processed.dry_volume, Fixed::from_int(2));
    assert_eq!(processed.wet_volume, Fixed::from_int(3));
    assert_eq!(volume(processed.fade_in), 0.5);
    assert_eq!(volume(processed.fade_out), 1.0);
    assert!(matches!(
        processed.output,
        LoopOutput::Interpolated { first, second, .. } if first == 2.0 && second == 3.0
    ));
}

#[test]
fn test_process_ignores_channels_the_pad_lacks() {
    let mut handle = prepared(100, 1, 1000);
    handle.start_recording();
    handle.process(3, 7.0);
    handle.process(0, 1.0);
    handle.after_process();
    handle.stop_recording_audio_thread_only();
    assert_eq!(handle.looper_clip().num_channels(), 1);
    assert_eq!(handle.looper_clip().get(0, 0), 1.0);
}

#[test]
fn test_import_puts_the_cursor_by_the_length_before() {
    let mut handle = default_handle();
    let long: Vec<f32> = (0..100).map(|sample| sample as f32).collect();
    handle.set_looper_buffer(1, &long);
    handle.set_start_offset(half());
    handle.set_looper_buffer(1, &[1.0, 2.0, 3.0, 4.0]);
    assert_eq!(handle.num_samples(), 4);
    assert_eq!(handle.playhead(), 50);
    handle.trigger();
    assert_eq!(handle.playhead(), 2);
}

#[test]
fn test_stale_cursor_reads_inside_the_loop() {
    let mut handle = default_handle();
    let long: Vec<f32> = (0..100).map(|sample| sample as f32).collect();
    handle.set_looper_buffer(1, &long);
    handle.set_start_offset(half());
    handle.set_looper_buffer(1, &[1.0, 2.0, 3.0, 4.0]);
    handle.start_recording();
    assert_eq!(handle.state(), LooperState::Overdubbing);
    assert_eq!(handle.playhead(), 50);
    let processed = handle.process(0, 0.0);
    assert!(matches!(processed.output, LoopOutput::Overdubbed { stored } if stored == 3.0));
}
