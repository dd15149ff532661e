use looper_processor::audio_buffer::VecAudioBuffer;
use looper_processor::scratch_pad::ScratchPad;

fn contents(buffer: &VecAudioBuffer<i32>) -> Vec<Vec<i32>> {
    (0..buffer.num_channels())
        .map(|channel| (0..buffer.num_samples()).map(|i| buffer.get(channel, i)).collect())
        .collect()
}

#[test]
fn test_new_buffer_is_empty() {
    let buffer: VecAudioBuffer<i32> = VecAudioBuffer::new();
    assert_eq!(buffer.num_channels(), 0);
    assert_eq!(buffer.num_samples(), 0);
}

#[test]
fn test_silent_buffer() {
    let buffer = VecAudioBuffer::silent(2, 3, 7);
    assert_eq!(contents(&buffer), vec![vec![7, 7, 7], vec![7, 7, 7]]);
    let none = VecAudioBuffer::silent(0, 3, 7);
    assert_eq!(none.num_samples(), 0);
}

#[test]
fn test_set_changes_one_sample() {
    let mut buffer = VecAudioBuffer::silent(2, 3, 0);
    buffer.set(1, 2, 9);
    buffer.set(0, 0, 4);
    assert_eq!(contents(&buffer), vec![vec![4, 0, 0], vec![0, 0, 9]]);
}

#[test]
fn test_fill_overwrites_every_sample() {
    let mut buffer = VecAudioBuffer::from_interleaved(2, &[1, 2, 3, 4]);
    buffer.fill(0);
    assert_eq!(contents(&buffer), vec![vec![0, 0], vec![0, 0]]);
}

#[test]
fn test_from_interleaved_drops_an_incomplete_frame() {
    let buffer = VecAudioBuffer::from_interleaved(3, &[1, 2, 3, 4, 5, 6, 7, 8]);
    assert_eq!(contents(&buffer), vec![vec![1, 4], vec![2, 5], vec![3, 6]]);
}

#[test]
fn test_copy_window_wraps_around_the_ring() {
    let source = VecAudioBuffer::from_interleaved(2, &[0, 10, 1, 11, 2, 12, 3, 13]);
    let mut target = VecAudioBuffer::silent(1, 9, -1);
    target.copy_window(&source, 3, 3);
    assert_eq!(contents(&target), vec![vec![3, 0, 1], vec![13, 10, 11]]);
    target.copy_window(&source, 4 * 1000 + 2, 4);
    assert_eq!(contents(&target), vec![vec![2, 3, 0, 1], vec![12, 13, 10, 11]]);
    target.copy_window(&source, usize::MAX, 2);
    assert_eq!(contents(&target), vec![vec![3, 0], vec![13, 10]]);
}

#[test]
fn test_copy_window_of_no_length() {
    let source = VecAudioBuffer::from_interleaved(2, &[0, 10, 1, 11]);
    let mut target = VecAudioBuffer::silent(1, 2, -1);
    target.copy_window(&source, 1, 0);
    assert_eq!(target.num_channels(), 2);
    assert_eq!(target.num_samples(), 0);
}

#[test]
fn test_scratch_pad_writes_at_the_cursor_and_wraps() {
    let mut pad = ScratchPad::new(VecAudioBuffer::silent(2, 3, 0));
    assert_eq!(pad.max_len(), 3);
    assert_eq!(pad.num_channels(), 2);
    for frame in 1..=4 {
        pad.write(0, frame);
        pad.write(1, -frame);
        pad.after_process();
    }
    assert_eq!(pad.cursor(), 4);
    assert_eq!(contents(pad.buffer()), vec![vec![4, 2, 3], vec![-4, -2, -3]]);
    assert_eq!(pad.get(0, 3), 4);
    assert_eq!(pad.get(1, 5), -3);
}

#[test]
fn test_scratch_pad_cursor_moves_only_after_the_frame() {
    let mut pad = ScratchPad::new(VecAudioBuffer::silent(1, 4, 0));
    pad.write(0, 1);
    pad.write(0, 2);
    assert_eq!(pad.cursor(), 0);
    assert_eq!(pad.get(0, 0), 2);
    pad.after_process();
    assert_eq!(pad.cursor(), 1);
}

#[test]
fn test_scratch_pad_without_capacity_takes_nothing() {
    let mut pad = ScratchPad::new(VecAudioBuffer::silent(1, 0, 0));
    pad.write(0, 5);
    pad.after_process();
    assert_eq!(pad.cursor(), 1);
    assert_eq!(pad.max_len(), 0);
}

#[test]
fn test_copy_window_uses_the_storage_again() {
    let source = VecAudioBuffer::from_interleaved(1, &[1, 2, 3, 4, 5, 6, 7, 8]);
    let mut target = VecAudioBuffer::silent(1, 8, 0);
    let storage = target.capacity();
    assert!(storage >= 8);
    target.copy_window(&source, 5, 6);
    assert_eq!(target.capacity(), storage);
    assert_eq!(contents(&target), vec![vec![6, 7, 8, 1, 2, 3]]);
}
