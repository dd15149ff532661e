//! The decisions of a synthesizer with a fixed number of voices: which voice
//! takes a note and which lets one go, and what a controller changes.
use vstd::prelude::*;

verus! {

/// What a MIDI message asks of the voices.
#[derive(Clone, Copy, Debug, PartialEq, Eq, Structural)]
pub enum VoiceCommand {
    /// Nothing: no voice plays the note that ended.
    Nothing,
    /// The voice `voice` lets its note go.
    NoteOff { voice: usize },
    /// The voice `voice` plays `note`.
    NoteOn { voice: usize, note: u8, velocity: u8 },
}

/// The voice to steal next, and what the voices are asked.
#[derive(Clone, Copy, Debug, PartialEq, Eq, Structural)]
pub struct VoiceAllocation {
    pub current_voice: usize,
    pub command: VoiceCommand,
}

/// The kinds of MIDI message that the synthesizer tells apart.
#[derive(Clone, Copy, Debug, PartialEq, Eq, Structural)]
pub enum Status {
    NoteOn,
    NoteOff,
    ControlChange,
    Other,
}

/// What a MIDI message makes the synthesizer do.
#[derive(Clone, Copy, Debug, PartialEq, Eq, Structural)]
pub enum SynthCommand {
    Nothing,
    /// The voices take or let go a note.
    Voices(VoiceAllocation),
    /// The filter's cutoff goes to the part `value / 127` of its range.
    SetCutoff { value: u8 },
    /// The filter's resonance goes to the part `value / 127` of its range.
    SetQ { value: u8 },
}

/// The controller that sets the filter's cutoff.
pub const CUTOFF_CONTROLLER: u8 = 21;

/// The controller that sets the filter's resonance.
pub const Q_CONTROLLER: u8 = 22;

/// The index of the first voice among the first `upto` that plays `note`,
/// or `upto` if none of them does.
pub open spec fn first_playing(current_notes: Seq<Option<u8>>, note: u8, upto: int) -> int
    decreases upto,
{
    if upto <= 0 {
        0
    } else {
        let before = first_playing(current_notes, note, upto - 1);
        if before < upto - 1 || current_notes[upto - 1] == Some(note) {
            before
        } else {
            upto
        }
    }
}

/// The index of the first voice among the first `upto` that plays nothing,
/// or `upto` if all of them play.
pub open spec fn first_free(current_notes: Seq<Option<u8>>, upto: int) -> int
    decreases upto,
{
    if upto <= 0 {
        0
    } else {
        let before = first_free(current_notes, upto - 1);
        if before < upto - 1 || current_notes[upto - 1] is None {
            before
        } else {
            upto
        }
    }
}

/// The first voice that plays `note` plays it, and no voice before it does.
pub proof fn lemma_first_playing(current_notes: Seq<Option<u8>>, note: u8, upto: int)
    requires
        0 <= upto <= current_notes.len(),
    ensures
        0 <= first_playing(current_notes, note, upto) <= upto,
        first_playing(current_notes, note, upto) < upto ==> current_notes[first_playing(
            current_notes,
            note,
            upto,
        )] == Some(note),
        forall|i: int|
            0 <= i < first_playing(current_notes, note, upto) ==> #[trigger] current_notes[i]
                != Some(note),
    decreases upto,
{
    if upto > 0 {
        lemma_first_playing(current_notes, note, upto - 1);
    }
}

/// The first free voice is free, and every voice before it plays.
pub proof fn lemma_first_free(current_notes: Seq<Option<u8>>, upto: int)
    requires
        0 <= upto <= current_notes.len(),
    ensures
        0 <= first_free(current_notes, upto) <= upto,
        first_free(current_notes, upto) < upto ==> current_notes[first_free(
            current_notes,
            upto,
        )] is None,
        forall|i: int|
            0 <= i < first_free(current_notes, upto) ==> (#[trigger] current_notes[i]) is Some,
    decreases upto,
{
    if upto > 0 {
        lemma_first_free(current_notes, upto - 1);
    }
}

/// What a note that starts or ends asks of the voices. A note ends with a
/// note-off or with a velocity of zero: the first voice that plays it lets
/// it go. A note that starts goes to the first voice that is free; if none
/// is, to the voice after the one that was stolen last.
pub open spec fn note_spec(
    current_voice: usize,
    current_notes: Seq<Option<u8>>,
    is_off: bool,
    note: u8,
    velocity: u8,
) -> VoiceAllocation {
    let voices = current_notes.len() as int;
    if velocity == 0 || is_off {
        let voice = first_playing(current_notes, note, voices);
        VoiceAllocation {
            current_voice,
            command: if voice < voices {
                VoiceCommand::NoteOff { voice: voice as usize }
            } else {
                VoiceCommand::Nothing
            },
        }
    } else {
        let voice = first_free(current_notes, voices);
        if voice < voices {
            VoiceAllocation {
                current_voice,
                command: VoiceCommand::NoteOn { voice: voice as usize, note, velocity },
            }
        } else {
            let stolen = ((current_voice + 1) % voices) as usize;
            VoiceAllocation {
                current_voice: stolen,
                command: VoiceCommand::NoteOn { voice: stolen, note, velocity },
            }
        }
    }
}

/// What the note message `bytes` asks of voices that play `current_notes`,
/// where `current_voice` is the voice that was stolen last.
pub fn note(current_voice: usize, current_notes: &[Option<u8>], is_off: bool, bytes: &[u8]) -> (allocation:
    VoiceAllocation)
    requires
        bytes@.len() >= 3,
        current_notes@.len() > 0,
        current_voice < current_notes@.len(),
    ensures
        allocation == note_spec(current_voice, current_notes@, is_off, bytes@[1], bytes@[2]),
{
    let note: u8 = bytes[1];
    let velocity: u8 = bytes[2];
    let voices: usize = current_notes.len();
    if velocity == 0 || is_off {
        let mut voice: usize = 0;
        while voice < voices
            invariant
                voice <= voices,
                voices == current_notes@.len(),
                bytes@.len() >= 3,
                note == bytes@[1],
                velocity == bytes@[2],
                velocity == 0 || is_off,
                first_playing(current_notes@, note, voice as int) == voice,
            decreases voices - voice,
        {
            if current_notes[voice] == Some(note) {
                proof {
                    lemma_found_playing(current_notes@, note, voice as int, voices as int);
                }
                return VoiceAllocation { current_voice, command: VoiceCommand::NoteOff { voice } };
            }
            voice = voice + 1;
        }
        VoiceAllocation { current_voice, command: VoiceCommand::Nothing }
    } else {
        let mut voice: usize = 0;
        while voice < voices
            invariant
                voice <= voices,
                voices == current_notes@.len(),
                bytes@.len() >= 3,
                note == bytes@[1],
                velocity == bytes@[2],
                !(velocity == 0 || is_off),
                first_free(current_notes@, voice as int) == voice,
            decreases voices - voice,
        {
            if current_notes[voice].is_none() {
                proof {
                    lemma_found_free(current_notes@, voice as int, voices as int);
                }
                return VoiceAllocation {
                    current_voice,
                    command: VoiceCommand::NoteOn { voice, note, velocity },
                };
            }
            voice = voice + 1;
        }
        let stolen: usize = (current_voice + 1) % voices;
        VoiceAllocation {
            current_voice: stolen,
            command: VoiceCommand::NoteOn { voice: stolen, note, velocity },
        }
    }
}

/// A voice that plays `note`, before which none does, is the first that
/// plays it among any number of voices that includes it.
pub proof fn lemma_found_playing(current_notes: Seq<Option<u8>>, note: u8, voice: int, upto: int)
    requires
        0 <= voice < upto <= current_notes.len(),
        first_playing(current_notes, note, voice) == voice,
        current_notes[voice] == Some(note),
    ensures
        first_playing(current_notes, note, upto) == voice,
    decreases upto,
{
    if upto > voice + 1 {
        lemma_found_playing(current_notes, note, voice, upto - 1);
    }
}

/// A free voice, before which none is free, is the first free one among any
/// number of voices that includes it.
pub proof fn lemma_found_free(current_notes: Seq<Option<u8>>, voice: int, upto: int)
    requires
        0 <= voice < upto <= current_notes.len(),
        first_free(current_notes, voice) == voice,
        current_notes[voice] is None,
    ensures
        first_free(current_notes, upto) == voice,
    decreases upto,
{
    if upto > voice + 1 {
        lemma_found_free(current_notes, voice, upto - 1);
    }
}

/// What a MIDI message of the kind `status` makes the synthesizer do.
pub open spec fn handle_midi_message_spec(
    current_voice: usize,
    current_notes: Seq<Option<u8>>,
    status: Status,
    bytes: Seq<u8>,
) -> SynthCommand {
    match status {
        Status::NoteOn => SynthCommand::Voices(
            note_spec(current_voice, current_notes, false, bytes[1], bytes[2]),
        ),
        Status::NoteOff => SynthCommand::Voices(
            note_spec(current_voice, current_notes, true, bytes[1], bytes[2]),
        ),
        Status::ControlChange => if bytes[1] == CUTOFF_CONTROLLER {
            SynthCommand::SetCutoff { value: bytes[2] }
        } else if bytes[1] == Q_CONTROLLER {
            SynthCommand::SetQ { value: bytes[2] }
        } else {
            SynthCommand::Nothing
        },
        Status::Other => SynthCommand::Nothing,
    }
}

/// What the MIDI message `bytes` of the kind `status` makes a synthesizer do
/// whose voices play `current_notes`.
pub fn handle_midi_message(
    current_voice: usize,
    current_notes: &[Option<u8>],
    status: Status,
    bytes: &[u8],
) -> (command: SynthCommand)
    requires
        status != Status::Other ==> bytes@.len() >= 3,
        current_notes@.len() > 0,
        current_voice < current_notes@.len(),
    ensures
        command == handle_midi_message_spec(current_voice, current_notes@, status, bytes@),
{
    match status {
        Status::NoteOn => SynthCommand::Voices(note(current_voice, current_notes, false, bytes)),
        Status::NoteOff => SynthCommand::Voices(note(current_voice, current_notes, true, bytes)),
        Status::ControlChange => {
            if bytes[1] == CUTOFF_CONTROLLER {
                SynthCommand::SetCutoff { value: bytes[2] }
            } else if bytes[1] == Q_CONTROLLER {
                SynthCommand::SetQ { value: bytes[2] }
            } else {
                SynthCommand::Nothing
            }
        },
        Status::Other => SynthCommand::Nothing,
    }
}

} // verus!
