use looper_processor::synth::{
    handle_midi_message, note, Status, SynthCommand, VoiceAllocation, VoiceCommand,
};

const FREE: [Option<u8>; 4] = [None, None, None, None];

#[test]
fn test_note_on_takes_the_first_free_voice() {
    let notes = [Some(60), None, Some(64), None];
    let allocation = note(0, &notes, false, &[0x90, 67, 100]);
    assert_eq!(
        allocation,
        VoiceAllocation {
            current_voice: 0,
            command: VoiceCommand::NoteOn { voice: 1, note: 67, velocity: 100 }
        }
    );
}

#[test]
fn test_note_on_steals_the_next_voice_when_all_play() {
    let notes = [Some(60), Some(62), Some(64), Some(65)];
    let allocation = note(1, &notes, false, &[0x90, 67, 100]);
    assert_eq!(allocation.current_voice, 2);
    assert_eq!(allocation.command, VoiceCommand::NoteOn { voice: 2, note: 67, velocity: 100 });
    let allocation = note(3, &notes, false, &[0x90, 67, 100]);
    assert_eq!(allocation.current_voice, 0);
    assert_eq!(allocation.command, VoiceCommand::NoteOn { voice: 0, note: 67, velocity: 100 });
}

#[test]
fn test_note_off_releases_the_first_voice_that_plays_the_note() {
    let notes = [Some(60), Some(64), Some(64), None];
    let allocation = note(2, &notes, true, &[0x80, 64, 0]);
    assert_eq!(allocation.current_voice, 2);
    assert_eq!(allocation.command, VoiceCommand::NoteOff { voice: 1 });
}

#[test]
fn test_note_on_without_velocity_is_a_note_off() {
    let notes = [Some(60), None, None, None];
    let allocation = note(0, &notes, false, &[0x90, 60, 0]);
    assert_eq!(allocation.command, VoiceCommand::NoteOff { voice: 0 });
}

#[test]
fn test_note_off_for_a_note_that_no_voice_plays() {
    let notes = [Some(60), None, None, None];
    assert_eq!(note(0, &notes, true, &[0x80, 61, 10]).command, VoiceCommand::Nothing);
    assert_eq!(note(0, &FREE, true, &[0x80, 61, 10]).command, VoiceCommand::Nothing);
}

#[test]
fn test_messages_are_told_apart_by_their_status() {
    assert_eq!(
        handle_midi_message(0, &FREE, Status::NoteOn, &[0x90, 60, 90]),
        SynthCommand::Voices(VoiceAllocation {
            current_voice: 0,
            command: VoiceCommand::NoteOn { voice: 0, note: 60, velocity: 90 }
        })
    );
    assert_eq!(
        handle_midi_message(0, &[Some(60)], Status::NoteOff, &[0x80, 60, 90]),
        SynthCommand::Voices(VoiceAllocation {
            current_voice: 0,
            command: VoiceCommand::NoteOff { voice: 0 }
        })
    );
    assert_eq!(handle_midi_message(0, &FREE, Status::Other, &[0xf8]), SynthCommand::Nothing);
}

#[test]
fn test_controllers_set_the_filter() {
    assert_eq!(
        handle_midi_message(0, &FREE, Status::ControlChange, &[0xb0, 21, 127]),
        SynthCommand::SetCutoff { value: 127 }
    );
    assert_eq!(
        handle_midi_message(0, &FREE, Status::ControlChange, &[0xb0, 22, 64]),
        SynthCommand::SetQ { value: 64 }
    );
    assert_eq!(
        handle_midi_message(0, &FREE, Status::ControlChange, &[0xb0, 7, 64]),
        SynthCommand::Nothing
    );
}
