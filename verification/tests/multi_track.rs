use looper_processor::fixed::Fixed;
use looper_processor::looper_state::{LooperOptions, LooperState};
use looper_processor::multi_track_looper::{LooperId, MultiTrackLooper, MultiTrackLooperHandle};

fn looper(num_voices: usize) -> MultiTrackLooperHandle<f32> {
    MultiTrackLooperHandle::new(LooperOptions::default(), num_voices, 0.0)
}

fn state(handle: &MultiTrackLooperHandle<f32>, id: usize) -> LooperState {
    handle.get(LooperId(id)).unwrap().looper().state()
}

#[test]
fn test_voices_start_empty() {
    let handle = looper(3);
    assert_eq!(handle.voices().len(), 3);
    for id in 0..3 {
        assert_eq!(state(&handle, id), LooperState::Empty);
    }
    assert!(handle.get(LooperId(3)).is_none());
}

#[test]
fn test_operations_reach_one_voice() {
    let mut handle = looper(3);
    handle.start_recording(LooperId(1));
    assert_eq!(state(&handle, 0), LooperState::Empty);
    assert_eq!(state(&handle, 1), LooperState::Recording);
    assert_eq!(state(&handle, 2), LooperState::Empty);
    handle.toggle_playback(LooperId(2));
    assert_eq!(state(&handle, 2), LooperState::Playing);
    handle.toggle_playback(LooperId(1));
    assert_eq!(state(&handle, 1), LooperState::Paused);
    handle.clear(LooperId(1));
    assert_eq!(state(&handle, 1), LooperState::Empty);
    assert_eq!(state(&handle, 2), LooperState::Playing);
}

#[test]
fn test_unknown_voice_changes_nothing() {
    let mut handle = looper(2);
    handle.start_recording(LooperId(2));
    handle.toggle_playback(LooperId(7));
    handle.clear(LooperId(usize::MAX));
    assert_eq!(state(&handle, 0), LooperState::Empty);
    assert_eq!(state(&handle, 1), LooperState::Empty);
}

#[test]
fn test_voices_share_the_transport() {
    let mut handle = looper(2);
    assert!(!handle.time_info_provider().playing);
    handle.toggle_playback(LooperId(0));
    assert!(!handle.time_info_provider().playing);
    handle.start_recording(LooperId(0));
    assert_eq!(state(&handle, 0), LooperState::Overdubbing);
    assert!(handle.time_info_provider().playing);
    assert_eq!(handle.time_info_provider().tempo, None::<Fixed>);
}

#[test]
fn test_multi_track_looper_owns_its_handle() {
    let mut looper: MultiTrackLooper<f32> = MultiTrackLooper::new(LooperOptions::default(), 2, 0.0);
    assert_eq!(looper.handle().voices().len(), 2);
    looper.handle_mut().start_recording(LooperId(0));
    assert_eq!(state(looper.handle(), 0), LooperState::Recording);
    assert_eq!(state(looper.handle(), 1), LooperState::Empty);
}

#[test]
fn test_voices_are_made_as_loopers_are() {
    let handle = looper(2);
    for id in 0..2 {
        let voice = handle.get(LooperId(id)).unwrap().looper();
        assert_eq!(voice.wet_volume(), Fixed::from_int(1));
        assert_eq!(voice.dry_volume(), Fixed::from_int(0));
        assert_eq!(voice.speed(), Fixed::from_int(1));
        assert_eq!(voice.num_samples(), 0);
        assert_eq!(voice.time_info_provider().get_time_info().position_samples(), 0);
    }
}

#[test]
fn test_toggle_playback_of_a_voice_that_records_pauses_it() {
    let mut handle = looper(2);
    handle.start_recording(LooperId(1));
    handle.toggle_playback(LooperId(1));
    assert_eq!(state(&handle, 1), LooperState::Paused);
    assert_eq!(state(&handle, 0), LooperState::Empty);
}
