//! The scratch pad: a circular capture buffer that is written on every frame,
//! whatever the looper is doing, so that a recording can reach back in time.
use vstd::prelude::*;
use crate::audio_buffer::{VecAudioBuffer, circular_window, num_samples_of, rectangular};

verus! {

/// What a scratch pad holds: one ring of samples per channel, all of the same
/// capacity, and the absolute number of frames captured so far.
pub struct ScratchPadView<S> {
    pub channels: Seq<Seq<S>>,
    pub cursor: nat,
}

impl<S> ScratchPadView<S> {
    /// The number of frames each ring holds.
    pub open spec fn max_len(self) -> nat {
        num_samples_of(self.channels)
    }

    /// The slot of the rings that the frame at the absolute position
    /// `position` lands in.
    pub open spec fn slot(self, position: int) -> int {
        position % (self.max_len() as int)
    }

    /// The pad after `sample` was written to `channel` of the current frame.
    /// A pad without capacity takes no sample.
    pub open spec fn write(self, channel: int, sample: S) -> Self {
        if self.max_len() == 0 {
            self
        } else {
            ScratchPadView {
                channels: self.channels.update(
                    channel,
                    self.channels[channel].update(self.slot(self.cursor as int), sample),
                ),
                cursor: self.cursor,
            }
        }
    }

    /// The pad after the current frame was closed.
    pub open spec fn advance(self) -> Self {
        ScratchPadView { channels: self.channels, cursor: self.cursor + 1 }
    }

    /// The `length` frames captured from the absolute position `start` on,
    /// channel by channel.
    pub open spec fn window(self, start: int, length: nat) -> Seq<Seq<S>> {
        circular_window(self.channels, start, length)
    }
}

pub struct ScratchPad<S> {
    buffer: VecAudioBuffer<S>,
    cursor: usize,
}

impl<S> View for ScratchPad<S> {
    type V = ScratchPadView<S>;

    closed spec fn view(&self) -> ScratchPadView<S> {
        ScratchPadView { channels: self.buffer@, cursor: self.cursor as nat }
    }
}

impl<S: Copy> ScratchPad<S> {
    /// Whether the rings are well formed.
    pub closed spec fn wf(&self) -> bool {
        self.buffer.wf()
    }

    /// A well-formed pad is a rectangle whose sides, like its clock, fit the
    /// machine.
    pub proof fn lemma_view_shape(&self)
        requires
            self.wf(),
        ensures
            rectangular(self@.channels),
            self@.cursor <= usize::MAX,
            self@.channels.len() <= usize::MAX,
            self@.max_len() <= usize::MAX,
    {
        self.buffer.lemma_view_shape();
    }

    /// A pad that captures into `buffer`, with nothing captured yet.
    pub fn new(buffer: VecAudioBuffer<S>) -> (pad: Self)
        requires
            buffer.wf(),
        ensures
            pad.wf(),
            pad@.channels == buffer@,
            pad@.cursor == 0,
    {
        ScratchPad { buffer, cursor: 0 }
    }

    /// The rings themselves.
    pub fn buffer(&self) -> (buffer: &VecAudioBuffer<S>)
        requires
            self.wf(),
        ensures
            buffer.wf(),
            buffer@ == self@.channels,
    {
        &self.buffer
    }

    /// The absolute number of frames captured so far: the clock by which
    /// recordings are scheduled. It only grows.
    pub fn cursor(&self) -> (r: usize)
        ensures
            r == self@.cursor,
    {
        self.cursor
    }

    /// The number of frames each ring holds.
    pub fn max_len(&self) -> (r: usize)
        requires
            self.wf(),
        ensures
            r == self@.max_len(),
    {
        self.buffer.num_samples()
    }

    pub fn num_channels(&self) -> (r: usize)
        ensures
            r == self@.channels.len(),
    {
        self.buffer.num_channels()
    }

    /// Writes `sample` to `channel` of the current frame: to the slot that
    /// the cursor, taken modulo the capacity, names.
    pub fn write(&mut self, channel: usize, sample: S)
        requires
            old(self).wf(),
            channel < old(self)@.channels.len(),
        ensures
            final(self).wf(),
            final(self)@ == old(self)@.write(channel as int, sample),
    {
        let max_len: usize = self.buffer.num_samples();
        if max_len == 0 {
            return ;
        }
        let slot: usize = self.cursor % max_len;
        self.buffer.set(channel, slot, sample);
    }

    /// Closes the current frame, after its last channel was written: the
    /// cursor moves on by one and the next writes go to the next slot.
    pub fn after_process(&mut self)
        requires
            old(self).wf(),
            old(self)@.cursor < usize::MAX,
        ensures
            final(self).wf(),
            final(self)@ == old(self)@.advance(),
    {
        self.cursor = self.cursor + 1;
    }

    /// The sample that `channel` holds for the frame at the absolute position
    /// `position`.
    pub fn get(&self, channel: usize, position: usize) -> (sample: S)
        requires
            self.wf(),
            channel < self@.channels.len(),
            self@.max_len() > 0,
        ensures
            sample == self@.channels[channel as int][self@.slot(position as int)],
    {
        let max_len: usize = self.buffer.num_samples();
        self.buffer.get(channel, position % max_len)
    }
}

} // verus!
