//! MIDI messages and the chunks of a MIDI file, as data.
use vstd::prelude::*;

verus! {

/// What a note-on or a note-off says.
#[derive(Eq, Ord, PartialEq, PartialOrd, Debug, Clone)]
pub struct MIDIMessageNote {
    pub channel: u8,
    pub note: u8,
    pub velocity: u8,
}

/// A buffer of bytes that a message or an event holds: owned, or borrowed
/// from the bytes that were read.
pub trait ByteBuffer {
    /// The bytes of the buffer.
    spec fn bytes(&self) -> Seq<u8>;

    /// The number of bytes of the buffer.
    fn len(&self) -> (len: usize)
        ensures
            len == self.bytes().len(),
    ;
}

impl ByteBuffer for Vec<u8> {
    open spec fn bytes(&self) -> Seq<u8> {
        self@
    }

    fn len(&self) -> (len: usize) {
        Vec::len(self)
    }
}

impl<'a> ByteBuffer for &'a [u8] {
    open spec fn bytes(&self) -> Seq<u8> {
        self@
    }

    fn len(&self) -> (len: usize) {
        <[u8]>::len(self)
    }
}

/// A MIDI message.
#[derive(Eq, Ord, PartialEq, PartialOrd, Debug, Clone)]
pub enum MIDIMessage<Buffer> {
    NoteOn(MIDIMessageNote),
    NoteOff(MIDIMessageNote),
    PolyphonicKeyPressure { channel: u8, note: u8, pressure: u8 },
    ControlChange { channel: u8, controller_number: u8, value: u8 },
    ProgramChange { channel: u8, program_number: u8 },
    ChannelPressure { channel: u8, pressure: u8 },
    PitchWheelChange { channel: u8, value: u16 },
    SysExMessage(MIDISysExEvent<Buffer>),
    SongPositionPointer { beats: u16 },
    SongSelect { song: u8 },
    TuneRequest,
    TimingClock,
    Start,
    Continue,
    Stop,
    ActiveSensing,
    Reset,
    Other { status: u8 },
}

impl<Buffer: ByteBuffer> MIDIMessage<Buffer> {
    /// The number of bytes the message takes on the wire: the status byte
    /// and the data bytes; for a system-exclusive message its body between
    /// the byte that opens and the byte that closes it.
    pub open spec fn size_hint_spec(self) -> nat {
        match self {
            MIDIMessage::NoteOn(_) => 3,
            MIDIMessage::NoteOff(_) => 3,
            MIDIMessage::PolyphonicKeyPressure { .. } => 3,
            MIDIMessage::ControlChange { .. } => 3,
            MIDIMessage::ProgramChange { .. } => 2,
            MIDIMessage::ChannelPressure { .. } => 2,
            MIDIMessage::PitchWheelChange { .. } => 3,
            MIDIMessage::SysExMessage(inner) => 2 + inner.message.bytes().len(),
            MIDIMessage::SongPositionPointer { .. } => 3,
            MIDIMessage::SongSelect { .. } => 2,
            MIDIMessage::TuneRequest => 1,
            MIDIMessage::TimingClock => 1,
            MIDIMessage::Start => 1,
            MIDIMessage::Continue => 1,
            MIDIMessage::Stop => 1,
            MIDIMessage::ActiveSensing => 1,
            MIDIMessage::Reset => 1,
            MIDIMessage::Other { .. } => 1,
        }
    }

    pub fn note_on(channel: u8, note: u8, velocity: u8) -> (message: Self)
        ensures
            message == Self::NoteOn(MIDIMessageNote { channel, note, velocity }),
    {
        MIDIMessage::NoteOn(MIDIMessageNote { channel, note, velocity })
    }

    pub fn note_off(channel: u8, note: u8, velocity: u8) -> (message: Self)
        ensures
            message == Self::NoteOff(MIDIMessageNote { channel, note, velocity }),
    {
        MIDIMessage::NoteOff(MIDIMessageNote { channel, note, velocity })
    }

    pub fn control_change(channel: u8, controller_number: u8, value: u8) -> (message: Self)
        ensures
            message == (Self::ControlChange { channel, controller_number, value }),
    {
        MIDIMessage::ControlChange { channel, controller_number, value }
    }

    /// The number of bytes the message takes on the wire.
    pub fn size_hint(&self) -> (size: usize)
        requires
            self.size_hint_spec() <= usize::MAX,
        ensures
            size == self.size_hint_spec(),
    {
        match self {
            MIDIMessage::NoteOn(_) => 3,
            MIDIMessage::NoteOff(_) => 3,
            MIDIMessage::PolyphonicKeyPressure { .. } => 3,
            MIDIMessage::ControlChange { .. } => 3,
            MIDIMessage::ProgramChange { .. } => 2,
            MIDIMessage::ChannelPressure { .. } => 2,
            MIDIMessage::PitchWheelChange { .. } => 3,
            MIDIMessage::SysExMessage(inner) => 2 + inner.message.len(),
            MIDIMessage::SongPositionPointer { .. } => 3,
            MIDIMessage::SongSelect { .. } => 2,
            MIDIMessage::TuneRequest => 1,
            MIDIMessage::TimingClock => 1,
            MIDIMessage::Start => 1,
            MIDIMessage::Continue => 1,
            MIDIMessage::Stop => 1,
            MIDIMessage::ActiveSensing => 1,
            MIDIMessage::Reset => 1,
            MIDIMessage::Other { .. } => 1,
        }
    }
}

#[derive(Debug, PartialEq)]
pub enum MIDIFileFormat {
    Single,
    Simultaneous,
    Sequential,
    Unknown,
}

#[derive(Debug)]
pub enum MIDIFileDivision {
    TicksPerQuarterNote { ticks_per_quarter_note: u16 },
    SMPTE { format: u8, ticks_per_frame: u8 },
}

#[derive(Debug)]
pub struct MIDIFileHeader {
    pub format: MIDIFileFormat,
    pub num_tracks: u16,
    pub division: MIDIFileDivision,
}

#[derive(Debug)]
pub enum MIDIFileChunk<StringRepr, Buffer> {
    Header(MIDIFileHeader),
    Track { events: Vec<MIDITrackEvent<Buffer>> },
    Unknown { name: StringRepr, body: Buffer },
}

#[derive(Eq, Ord, PartialEq, PartialOrd, Debug, Clone)]
pub enum MIDITrackInner<Buffer> {
    Message(MIDIMessage<Buffer>),
    Meta(MIDIMetaEvent<Buffer>),
    SysEx(MIDISysExEvent<Buffer>),
}

#[derive(Eq, Ord, PartialEq, PartialOrd, Debug, Clone)]
pub struct MIDITrackEvent<Buffer> {
    pub delta_time: u32,
    pub inner: MIDITrackInner<Buffer>,
}

impl<Buffer> MIDITrackEvent<Buffer> {
    pub fn new(delta_time: u32, event: MIDITrackInner<Buffer>) -> (track_event: Self)
        ensures
            track_event == (MIDITrackEvent { delta_time, inner: event }),
    {
        MIDITrackEvent { delta_time, inner: event }
    }

    pub fn delta_time(&self) -> (r: u32)
        ensures
            r == self.delta_time,
    {
        self.delta_time
    }

    /// The message that the event carries, if it carries one.
    pub fn message(&self) -> (r: Option<&MIDIMessage<Buffer>>)
        ensures
            match self.inner {
                MIDITrackInner::Message(message) => r == Some(&message),
                _ => r is None,
            },
    {
        match &self.inner {
            MIDITrackInner::Message(message) => Some(message),
            _ => None,
        }
    }
}

#[derive(Eq, Ord, PartialEq, PartialOrd, Debug, Clone)]
pub struct MIDIMetaEvent<Buffer> {
    pub meta_type: u8,
    pub length: u32,
    pub bytes: Buffer,
}

impl<Buffer> MIDIMetaEvent<Buffer> {
    pub fn new(meta_type: u8, length: u32, bytes: Buffer) -> (event: Self)
        ensures
            event == (MIDIMetaEvent { meta_type, length, bytes }),
    {
        MIDIMetaEvent { meta_type, length, bytes }
    }
}

#[derive(Eq, Ord, PartialEq, PartialOrd, Debug, Clone)]
pub struct MIDISysExEvent<Buffer> {
    pub message: Buffer,
}

impl<Buffer> MIDISysExEvent<Buffer> {
    pub fn new(message: Buffer) -> (event: Self)
        ensures
            event == (MIDISysExEvent { message }),
    {
        MIDISysExEvent { message }
    }
}

/// The index of the first header among `chunks`, or their number if none is
/// a header.
pub open spec fn first_header_index<StringRepr, Buffer>(
    chunks: Seq<MIDIFileChunk<StringRepr, Buffer>>,
) -> nat
    decreases chunks.len(),
{
    if chunks.len() == 0 {
        0
    } else if chunks[0] is Header {
        0
    } else {
        1 + first_header_index(chunks.subrange(1, chunks.len() as int))
    }
}

/// The events of the track chunks among `chunks`, in the order of the file.
pub open spec fn track_events<StringRepr, Buffer>(
    chunks: Seq<MIDIFileChunk<StringRepr, Buffer>>,
) -> Seq<MIDITrackEvent<Buffer>>
    decreases chunks.len(),
{
    if chunks.len() == 0 {
        Seq::empty()
    } else {
        track_events(chunks.drop_last()) + match chunks.last() {
            MIDIFileChunk::Track { events } => events@,
            _ => Seq::empty(),
        }
    }
}

/// The first header lies among the chunks or nowhere, and no chunk before it
/// is a header.
pub proof fn lemma_first_header_index<StringRepr, Buffer>(
    chunks: Seq<MIDIFileChunk<StringRepr, Buffer>>,
)
    ensures
        first_header_index(chunks) <= chunks.len(),
        first_header_index(chunks) < chunks.len() ==> chunks[first_header_index(chunks) as int]
            is Header,
        forall|i: int| 0 <= i < first_header_index(chunks) ==> !(#[trigger] chunks[i] is Header),
    decreases chunks.len(),
{
    if chunks.len() > 0 && !(chunks[0] is Header) {
        let rest = chunks.subrange(1, chunks.len() as int);
        lemma_first_header_index(rest);
        assert forall|i: int| 0 <= i < first_header_index(chunks) implies !(#[trigger] chunks[i]
            is Header) by {
            if i > 0 {
                assert(chunks[i] == rest[i - 1]);
            }
        }
    }
}

/// An index before which no chunk is a header, and at which there is one or
/// the chunks end, is the index of the first header.
pub proof fn lemma_first_header_unique<StringRepr, Buffer>(
    chunks: Seq<MIDIFileChunk<StringRepr, Buffer>>,
    index: nat,
)
    requires
        index <= chunks.len(),
        forall|i: int| 0 <= i < index ==> !(#[trigger] chunks[i] is Header),
        index < chunks.len() ==> chunks[index as int] is Header,
    ensures
        first_header_index(chunks) == index,
{
    lemma_first_header_index(chunks);
    let found = first_header_index(chunks);
    if found < index {
        assert(chunks[found as int] is Header);
    } else if found > index {
        assert(!(chunks[index as int] is Header));
    }
}

#[derive(Debug)]
pub struct MIDIFile<StringRepr, Buffer> {
    pub chunks: Vec<MIDIFileChunk<StringRepr, Buffer>>,
}

impl<StringRepr, Buffer> MIDIFile<StringRepr, Buffer> {
    pub fn new(chunks: Vec<MIDIFileChunk<StringRepr, Buffer>>) -> (file: Self)
        ensures
            file.chunks == chunks,
    {
        MIDIFile { chunks }
    }

    pub fn chunks(&self) -> (chunks: &Vec<MIDIFileChunk<StringRepr, Buffer>>)
        ensures
            chunks == &self.chunks,
    {
        &self.chunks
    }

    /// The ticks per quarter note that the first header names, or zero.
    pub open spec fn ticks_per_quarter_note_spec(self) -> u16 {
        let index = first_header_index(self.chunks@);
        if index < self.chunks@.len() {
            match self.chunks@[index as int] {
                MIDIFileChunk::Header(
                    MIDIFileHeader {
                        division: MIDIFileDivision::TicksPerQuarterNote { ticks_per_quarter_note },
                        ..
                    },
                ) => ticks_per_quarter_note,
                _ => 0,
            }
        } else {
            0
        }
    }

    /// The first header chunk of the file, if it has one.
    pub fn header(&self) -> (header: Option<&MIDIFileHeader>)
        ensures
            header is Some <==> first_header_index(self.chunks@) < self.chunks@.len(),
            header matches Some(found) ==> self.chunks@[first_header_index(self.chunks@) as int]
                == MIDIFileChunk::<StringRepr, Buffer>::Header(*found),
    {
        let mut index: usize = 0;
        while index < self.chunks.len()
            invariant
                index <= self.chunks@.len(),
                forall|i: int| 0 <= i < index ==> !(#[trigger] self.chunks@[i] is Header),
            decreases self.chunks@.len() - index,
        {
            match &self.chunks[index] {
                MIDIFileChunk::Header(header) => {
                    proof {
                        lemma_first_header_unique(self.chunks@, index as nat);
                    }
                    return Some(header);
                },
                _ => {},
            }
            index = index + 1;
        }
        proof {
            lemma_first_header_unique(self.chunks@, index as nat);
        }
        None
    }

    /// The events of all track chunks, in the order of the file.
    pub fn track_chunks(&self) -> (events: Vec<&MIDITrackEvent<Buffer>>)
        ensures
            events@.len() == track_events(self.chunks@).len(),
            forall|i: int| 0 <= i < events@.len() ==> *(#[trigger] events@[i]) == track_events(
                self.chunks@,
            )[i],
    {
        let mut found: Vec<&MIDITrackEvent<Buffer>> = Vec::new();
        let mut index: usize = 0;
        while index < self.chunks.len()
            invariant
                index <= self.chunks@.len(),
                found@.len() == track_events(self.chunks@.take(index as int)).len(),
                forall|i: int| 0 <= i < found@.len() ==> *(#[trigger] found@[i]) == track_events(
                    self.chunks@.take(index as int),
                )[i],
            decreases self.chunks@.len() - index,
        {
            let ghost before = self.chunks@.take(index as int);
            let ghost after = self.chunks@.take(index as int + 1);
            proof {
                assert(after.drop_last() =~= before);
            }
            match &self.chunks[index] {
                MIDIFileChunk::Track { events } => {
                    let mut place: usize = 0;
                    while place < events.len()
                        invariant
                            place <= events@.len(),
                            found@.len() == track_events(before).len() + place,
                            forall|i: int|
                                0 <= i < track_events(before).len() ==> *(#[trigger] found@[i])
                                    == track_events(before)[i],
                            forall|i: int|
                                0 <= i < place ==> *(#[trigger] found@[track_events(before).len()
                                    + i]) == events@[i],
                        decreases events@.len() - place,
                    {
                        found.push(&events[place]);
                        place = place + 1;
                    }
                    proof {
                        assert forall|i: int| 0 <= i < found@.len() implies *(
                        #[trigger] found@[i]) == track_events(after)[i] by {
                            if i >= track_events(before).len() {
                                let k = i - track_events(before).len();
                                assert(*found@[track_events(before).len() + k] == events@[k]);
                            }
                        }
                    }
                },
                _ => {
                },
            }
            index = index + 1;
        }
        proof {
            assert(self.chunks@.take(index as int) =~= self.chunks@);
        }
        found
    }

    /// The ticks per quarter note that the first header names; zero where
    /// the file has no header or its header counts time otherwise.
    pub fn ticks_per_quarter_note(&self) -> (ticks: u16)
        ensures
            ticks == self.ticks_per_quarter_note_spec(),
    {
        match self.header() {
            Some(MIDIFileHeader {
                division: MIDIFileDivision::TicksPerQuarterNote { ticks_per_quarter_note },
                ..
            }) => *ticks_per_quarter_note,
            _ => 0,
        }
    }
}

} // verus!
