use looper_processor::midi::{
    MIDIFile, MIDIFileChunk, MIDIFileDivision, MIDIFileFormat, MIDIFileHeader, MIDIMessage,
    MIDIMessageNote, MIDIMetaEvent, MIDISysExEvent, MIDITrackEvent, MIDITrackInner,
};

type Message = MIDIMessage<Vec<u8>>;
type Chunk = MIDIFileChunk<String, Vec<u8>>;
type Event = MIDITrackEvent<Vec<u8>>;

fn header(division: MIDIFileDivision) -> Chunk {
    MIDIFileChunk::Header(MIDIFileHeader { format: MIDIFileFormat::Single, num_tracks: 1, division })
}

fn note(delta_time: u32, note: u8) -> Event {
    MIDITrackEvent::new(delta_time, MIDITrackInner::Message(MIDIMessage::note_on(0, note, 100)))
}

#[test]
fn test_message_helpers() {
    assert_eq!(
        Message::note_on(1, 60, 127),
        MIDIMessage::NoteOn(MIDIMessageNote { channel: 1, note: 60, velocity: 127 })
    );
    assert_eq!(
        Message::note_off(2, 61, 0),
        MIDIMessage::NoteOff(MIDIMessageNote { channel: 2, note: 61, velocity: 0 })
    );
    assert_eq!(
        Message::control_change(3, 21, 64),
        MIDIMessage::ControlChange { channel: 3, controller_number: 21, value: 64 }
    );
}

#[test]
fn test_size_hint_of_every_message() {
    let messages: Vec<Message> = vec![
        MIDIMessage::note_on(0, 1, 2),
        MIDIMessage::note_off(0, 1, 2),
        MIDIMessage::PolyphonicKeyPressure { channel: 0, note: 1, pressure: 2 },
        MIDIMessage::control_change(0, 1, 2),
        MIDIMessage::ProgramChange { channel: 0, program_number: 1 },
        MIDIMessage::ChannelPressure { channel: 0, pressure: 1 },
        MIDIMessage::PitchWheelChange { channel: 0, value: 8192 },
        MIDIMessage::SysExMessage(MIDISysExEvent::new(vec![1, 2, 3, 4, 5])),
        MIDIMessage::SysExMessage(MIDISysExEvent::new(vec![])),
        MIDIMessage::SongPositionPointer { beats: 1 },
        MIDIMessage::SongSelect { song: 1 },
        MIDIMessage::TuneRequest,
        MIDIMessage::TimingClock,
        MIDIMessage::Start,
        MIDIMessage::Continue,
        MIDIMessage::Stop,
        MIDIMessage::ActiveSensing,
        MIDIMessage::Reset,
        MIDIMessage::Other { status: 0xf4 },
    ];
    let sizes: Vec<usize> = messages.iter().map(|message| message.size_hint()).collect();
    assert_eq!(sizes, vec![3, 3, 3, 3, 2, 2, 3, 7, 2, 3, 2, 1, 1, 1, 1, 1, 1, 1, 1]);
}

#[test]
fn test_track_event_accessors() {
    let event = note(96, 60);
    assert_eq!(event.delta_time(), 96);
    assert_eq!(event.message(), Some(&MIDIMessage::note_on(0, 60, 100)));
    let meta: Event =
        MIDITrackEvent::new(0, MIDITrackInner::Meta(MIDIMetaEvent::new(0x2f, 0, vec![])));
    assert_eq!(meta.message(), None);
    let sysex: Event =
        MIDITrackEvent::new(0, MIDITrackInner::SysEx(MIDISysExEvent::new(vec![1])));
    assert_eq!(sysex.message(), None);
}

#[test]
fn test_event_constructors_keep_their_fields() {
    let meta = MIDIMetaEvent::new(0x51, 3, vec![7, 8, 9]);
    assert_eq!(meta.meta_type, 0x51);
    assert_eq!(meta.length, 3);
    assert_eq!(meta.bytes, vec![7, 8, 9]);
    assert_eq!(MIDISysExEvent::new(vec![1, 2]).message, vec![1, 2]);
}

#[test]
fn test_file_header_is_the_first_header_chunk() {
    let file = MIDIFile::new(vec![
        MIDIFileChunk::Unknown { name: String::from("XFIH"), body: vec![1] },
        header(MIDIFileDivision::TicksPerQuarterNote { ticks_per_quarter_note: 480 }),
        header(MIDIFileDivision::TicksPerQuarterNote { ticks_per_quarter_note: 96 }),
    ]);
    assert_eq!(file.chunks().len(), 3);
    assert_eq!(file.header().unwrap().num_tracks, 1);
    assert_eq!(file.ticks_per_quarter_note(), 480);
}

#[test]
fn test_file_without_header() {
    let file: MIDIFile<String, Vec<u8>> =
        MIDIFile::new(vec![MIDIFileChunk::Track { events: vec![note(0, 60)] }]);
    assert!(file.header().is_none());
    assert_eq!(file.ticks_per_quarter_note(), 0);
    let empty: MIDIFile<String, Vec<u8>> = MIDIFile::new(vec![]);
    assert!(empty.header().is_none());
    assert_eq!(empty.track_chunks().len(), 0);
}

#[test]
fn test_smpte_header_has_no_ticks_per_quarter_note() {
    let file = MIDIFile::new(vec![header(MIDIFileDivision::SMPTE {
        format: 25,
        ticks_per_frame: 40,
    })]);
    assert!(file.header().is_some());
    assert_eq!(file.ticks_per_quarter_note(), 0);
}

#[test]
fn test_track_chunks_flattens_tracks_in_order() {
    let file = MIDIFile::new(vec![
        header(MIDIFileDivision::TicksPerQuarterNote { ticks_per_quarter_note: 96 }),
        MIDIFileChunk::Track { events: vec![note(0, 60), note(10, 62)] },
        MIDIFileChunk::Unknown { name: String::from("junk"), body: vec![] },
        MIDIFileChunk::Track { events: vec![] },
        MIDIFileChunk::Track { events: vec![note(20, 64)] },
    ]);
    let events = file.track_chunks();
    let notes: Vec<u32> = events.iter().map(|event| event.delta_time()).collect();
    assert_eq!(notes, vec![0, 10, 20]);
    assert_eq!(events[2], &note(20, 64));
}

#[test]
fn test_messages_over_borrowed_bytes() {
    let body: [u8; 3] = [0x7e, 0x7f, 0x09];
    let message: MIDIMessage<&[u8]> = MIDIMessage::SysExMessage(MIDISysExEvent::new(&body[..]));
    assert_eq!(message.size_hint(), 5);
    let file: MIDIFile<&str, &[u8]> = MIDIFile::new(vec![
        MIDIFileChunk::Unknown { name: "XFIH", body: &body[..] },
        MIDIFileChunk::Track {
            events: vec![MIDITrackEvent::new(7, MIDITrackInner::Message(message))],
        },
    ]);
    assert!(file.header().is_none());
    assert_eq!(file.track_chunks()[0].delta_time(), 7);
}
