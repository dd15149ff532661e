//! What a looper is at one moment, and what each operation makes of it.
//!
//! `LooperView` is the looper as a mathematical value. Every operation of the
//! handle is a function from one such value to the next; the handle's
//! contracts say that the executable code computes exactly these functions.
use vstd::prelude::*;
use crate::audio_buffer::{deinterleaved, num_samples_of, rectangular, silent_channels};
use crate::fade::{fade_in_units, fade_out_units};
use crate::fixed::{Fixed, Fraction, ONE};
use crate::loop_quantization::{QuantizeInput, quantized_offset};
use crate::quantize_mode::{QuantizeMode, quantizer_mode_of};
use crate::scratch_pad::ScratchPadView;
use crate::settings::AudioProcessorSettings;
use crate::time_info_provider::TimeInfoProviderImpl;

verus! {

/// The seven states of a looper. It is in exactly one of them.
#[derive(Debug, PartialEq, Eq, Clone, Copy, Structural)]
pub enum LooperState {
    Empty,
    Recording,
    Playing,
    Paused,
    Overdubbing,
    RecordingScheduled,
    PlayingScheduled,
}

/// What a looper is built with.
#[derive(Clone, Copy, Debug, PartialEq, Eq, Structural)]
pub struct LooperOptions {
    /// The longest loop, in milliseconds.
    pub max_loop_length_millis: u64,
}

/// The longest loop of a looper built with default options, in seconds.
pub const MAX_LOOP_LENGTH_SECS: u64 = 10;

impl Default for LooperOptions {
    fn default() -> (options: Self)
        ensures
            options.max_loop_length_millis == MAX_LOOP_LENGTH_SECS * 1000,
    {
        LooperOptions { max_loop_length_millis: MAX_LOOP_LENGTH_SECS * 1000 }
    }
}

/// What a press on the record button did.
#[derive(Debug, PartialEq, Eq, Clone, Copy, Structural)]
pub enum ToggleRecordingResult {
    StartedRecording,
    StoppedRecording,
}

/// Why a looper could not be prepared.
#[derive(Debug, PartialEq, Eq, Clone, Copy, Structural)]
pub enum PrepareError {
    /// The settings name a sample rate of zero.
    ZeroSampleRate,
    /// The buffers for the longest loop would not fit in memory.
    LoopTooLong,
}

/// What the loop contributes to one output sample.
#[derive(Debug)]
pub enum LoopOutput<S> {
    /// Nothing.
    Silence,
    /// The value `weight` of the way from `first` to `second`: the two
    /// stored samples on either side of the cursor.
    Interpolated { first: S, second: S, weight: Fraction },
    /// The stored sample under the cursor, before the incoming sample is
    /// added to it.
    Overdubbed { stored: S },
}

/// All that goes into one output sample: the output is
/// `dry_volume * input + wet_volume * loop * fade_in * fade_out`.
#[derive(Debug)]
pub struct ProcessedSample<S> {
    pub input: S,
    pub output: LoopOutput<S>,
    pub dry_volume: Fixed,
    pub wet_volume: Fixed,
    pub fade_in: Fraction,
    pub fade_out: Fraction,
}

/// `x` kept within the range of the machine's sizes.
pub open spec fn clamp_usize(x: int) -> nat {
    if x < 0 {
        0
    } else if x > usize::MAX as int {
        usize::MAX as nat
    } else {
        x as nat
    }
}

/// The remainder of `x` by a positive `m` that has the sign of `x`.
pub open spec fn truncated_rem(x: int, m: int) -> int {
    if x >= 0 {
        x % m
    } else {
        -((-x) % m)
    }
}

/// The number of samples that `millis` milliseconds last at `sample_rate`
/// samples per second, rounded up.
pub open spec fn samples_for(sample_rate: int, millis: int) -> int {
    (sample_rate * millis + 999) / 1000
}

/// A looper as a mathematical value.
pub struct LooperView<S> {
    pub state: LooperState,
    /// The clock value at which the recording starts or started.
    pub start_cursor: nat,
    /// The number of samples of the loop, or of the recording so far.
    pub length: nat,
    /// The clock value at which a scheduled stop takes place.
    pub scheduled_playback: nat,
    /// The place of playback in the clip, in raw units of a sample.
    pub cursor: int,
    pub dry_volume: Fixed,
    pub wet_volume: Fixed,
    pub start_offset: Fraction,
    pub end_offset: Fraction,
    pub fade_start: Fraction,
    pub fade_end: Fraction,
    pub speed: Fixed,
    pub loop_enabled: bool,
    pub scratch_pad: ScratchPadView<S>,
    pub clip: Seq<Seq<S>>,
    pub time: TimeInfoProviderImpl,
    pub tick_time: bool,
    pub options: LooperOptions,
    pub settings: AudioProcessorSettings,
    pub quantize_mode: QuantizeMode,
    pub silence: S,
}

impl<S> LooperView<S> {
    /// A looper as it is made: empty, with nothing captured and no buffers
    /// yet; the loop at full and the input at no volume; the playable region
    /// the whole loop; no fades; forward at recorded speed, repeating; no
    /// quantization; driving the transport `time`; with the settings that a
    /// host has until it says otherwise.
    pub open spec fn initial(
        options: LooperOptions,
        time: TimeInfoProviderImpl,
        silence: S,
    ) -> Self {
        LooperView {
            state: LooperState::Empty,
            start_cursor: 0,
            length: 0,
            scheduled_playback: 0,
            cursor: 0,
            dry_volume: Fixed { raw: 0 },
            wet_volume: Fixed { raw: 0x1_0000_0000 },
            start_offset: Fraction::of_units(0),
            end_offset: Fraction::of_units(ONE as int),
            fade_start: Fraction::of_units(0),
            fade_end: Fraction::of_units(0),
            speed: Fixed { raw: 0x1_0000_0000 },
            loop_enabled: true,
            scratch_pad: ScratchPadView { channels: Seq::empty(), cursor: 0 },
            clip: Seq::empty(),
            time,
            tick_time: true,
            options,
            settings: AudioProcessorSettings {
                sample_rate: 44100,
                input_channels: 2,
                output_channels: 2,
                block_size: 512,
            },
            quantize_mode: QuantizeMode::Off,
            silence,
        }
    }

    /// Whether the looper is recording into the scratch pad's window.
    pub open spec fn is_capturing(self) -> bool {
        self.state == LooperState::Recording || self.state == LooperState::RecordingScheduled
            || self.state == LooperState::PlayingScheduled
    }

    /// What holds of every looper that the handle can reach.
    pub open spec fn wf(self) -> bool {
        &&& rectangular(self.scratch_pad.channels)
        &&& rectangular(self.clip)
        &&& self.scratch_pad.channels.len() * self.scratch_pad.max_len() <= usize::MAX
        &&& self.clip.len() * num_samples_of(self.clip) <= usize::MAX
        &&& self.scratch_pad.cursor <= usize::MAX
        &&& self.start_cursor <= usize::MAX
        &&& self.scheduled_playback <= usize::MAX
        &&& self.length <= usize::MAX
        &&& self.start_offset.is_valid()
        &&& self.end_offset.is_valid()
        &&& self.fade_start.is_valid()
        &&& self.fade_end.is_valid()
        &&& 0 <= self.cursor <= usize::MAX as int * ONE as int
        &&& self.is_capturing() ==> self.length <= self.scratch_pad.max_len()
        &&& !self.is_capturing() ==> self.length <= num_samples_of(self.clip)
        &&& self.state == LooperState::Empty ==> self.length == 0 && self.clip == silent_channels(
            self.clip.len(),
            num_samples_of(self.clip),
            self.silence,
        )
    }

    /// The start of the playable region, in raw units of a sample.
    pub open spec fn start_units(self) -> int {
        self.start_offset.units() * self.length
    }

    /// The end of the playable region, in raw units of a sample.
    pub open spec fn end_units(self) -> int {
        self.end_offset.units() * self.length
    }

    /// The index of the sample at or before the cursor.
    pub open spec fn playhead(self) -> int {
        self.cursor / (ONE as int)
    }

    /// The offset in samples to the grid line that a recording should start
    /// or stop on. There is none while the transport knows no tempo or
    /// cannot tell the beat, and none where no quantization is asked for:
    /// an offset of no samples is a place on the grid, not the lack of one.
    pub open spec fn quantized_offset(self) -> Option<int> {
        let info = self.time.time_info_spec();
        match (info.tempo, info.position_beats) {
            (Some(tempo), Some(position_beats)) => quantized_offset(
                quantizer_mode_of(self.quantize_mode),
                QuantizeInput {
                    tempo,
                    sample_rate: self.settings.sample_rate,
                    position_beats,
                    position_samples: 0,
                },
            ),
            _ => None,
        }
    }

    /// Whether a start or stop asked for now has to wait for the grid:
    /// whether there is an offset and it points forward.
    pub open spec fn must_wait(self) -> bool {
        self.quantized_offset() matches Some(offset) && offset > 0
    }

    /// The clock value that a start or stop asked for now is due at: now,
    /// where there is no offset.
    pub open spec fn due(self) -> nat {
        clamp_usize(
            self.scratch_pad.cursor + match self.quantized_offset() {
                Some(offset) => offset,
                None => 0,
            },
        )
    }

    pub open spec fn start_recording(self) -> Self {
        if self.state == LooperState::Empty {
            LooperView {
                state: if self.must_wait() {
                    LooperState::RecordingScheduled
                } else {
                    LooperState::Recording
                },
                start_cursor: self.due(),
                length: 0,
                ..self
            }
        } else if self.state == LooperState::Paused || self.state == LooperState::Playing {
            LooperView {
                state: LooperState::Overdubbing,
                time: TimeInfoProviderImpl { playing: true, ..self.time },
                ..self
            }
        } else {
            self
        }
    }

    /// The recording made into a clip: the window of the scratch pad that
    /// starts at `start_cursor` and is `length` samples long becomes the
    /// clip, and playback starts at its first sample.
    pub open spec fn finalize(self) -> Self {
        LooperView {
            state: LooperState::Playing,
            clip: self.scratch_pad.window(self.start_cursor as int, self.length),
            cursor: 0,
            time: TimeInfoProviderImpl { playing: true, ..self.time },
            ..self
        }
    }

    pub open spec fn stop_recording_allocating_loop(self) -> Self {
        if self.state == LooperState::Recording {
            if self.must_wait() {
                LooperView {
                    state: LooperState::PlayingScheduled,
                    scheduled_playback: self.due(),
                    ..self
                }
            } else {
                self.finalize()
            }
        } else if self.state == LooperState::Overdubbing {
            LooperView { state: LooperState::Playing, ..self }
        } else {
            self
        }
    }

    pub open spec fn stop_recording_audio_thread_only(self) -> Self {
        if self.state == LooperState::Recording || self.state == LooperState::PlayingScheduled {
            self.finalize()
        } else if self.state == LooperState::Overdubbing {
            LooperView { state: LooperState::Playing, ..self }
        } else {
            self
        }
    }

    /// What a press on the record button does: it stops the recording or
    /// overdub that runs, or else starts one.
    pub open spec fn toggle_recording_result(self) -> ToggleRecordingResult {
        if self.state == LooperState::Recording || self.state == LooperState::Overdubbing {
            ToggleRecordingResult::StoppedRecording
        } else {
            ToggleRecordingResult::StartedRecording
        }
    }

    pub open spec fn toggle_recording(self) -> Self {
        if self.state == LooperState::Recording || self.state == LooperState::Overdubbing {
            self.stop_recording_allocating_loop()
        } else {
            self.start_recording()
        }
    }

    pub open spec fn clear(self) -> Self {
        LooperView {
            state: LooperState::Empty,
            clip: silent_channels(self.clip.len(), num_samples_of(self.clip), self.silence),
            length: 0,
            ..self
        }
    }

    pub open spec fn trigger(self) -> Self {
        LooperView { cursor: self.start_units(), ..self }
    }

    pub open spec fn play(self) -> Self {
        if self.state == LooperState::Empty || self.state == LooperState::Paused {
            LooperView {
                state: LooperState::Playing,
                cursor: self.start_units(),
                time: if self.tick_time {
                    TimeInfoProviderImpl { playing: true, ..self.time }
                } else {
                    self.time
                },
                ..self
            }
        } else {
            self
        }
    }

    pub open spec fn pause(self) -> Self {
        if self.state == LooperState::Playing {
            LooperView {
                state: LooperState::Paused,
                time: if self.tick_time {
                    TimeInfoProviderImpl { playing: false, ..self.time }
                } else {
                    self.time
                },
                ..self
            }
        } else {
            self
        }
    }

    /// The looper after a press on the play button. A looper that records
    /// makes its recording into the clip at once, whatever the grid says,
    /// and pauses; one that plays or overdubs pauses; an empty or paused one
    /// plays; one that waits for the grid stays as it is.
    pub open spec fn toggle_playback(self) -> Self {
        if self.state == LooperState::Recording {
            self.finalize().pause()
        } else if self.state == LooperState::Playing || self.state == LooperState::Overdubbing {
            self.stop_recording_allocating_loop().pause()
        } else {
            self.play()
        }
    }

    /// The looper with the frames of `samples` as its clip: paused, as long
    /// as the clip, the cursor at the start offset's part of the length that
    /// the loop had before.
    pub open spec fn set_looper_buffer(self, num_channels: nat, samples: Seq<S>) -> Self {
        LooperView {
            state: LooperState::Paused,
            cursor: self.start_units(),
            length: num_samples_of(deinterleaved(num_channels, samples)),
            clip: deinterleaved(num_channels, samples),
            ..self
        }
    }

    /// The index in the clip of the sample `ahead` samples past the one under
    /// the cursor, where the loop is read as a ring.
    pub open spec fn clip_index(self, ahead: int) -> int {
        (self.playhead() + ahead) % (self.length as int)
    }

    /// Whether the clip has a sample to read for `channel`.
    pub open spec fn can_read(self, channel: int) -> bool {
        0 <= channel < self.clip.len() && self.length > 0
    }

    /// What the loop contributes to the output of `channel`.
    pub open spec fn loop_output(self, channel: int) -> LoopOutput<S> {
        if self.state == LooperState::Playing && self.can_read(channel) {
            LoopOutput::Interpolated {
                first: self.clip[channel][self.clip_index(0)],
                second: self.clip[channel][self.clip_index(1)],
                weight: Fraction::of_units(self.cursor % (ONE as int)),
            }
        } else if self.state == LooperState::Overdubbing && self.can_read(channel) {
            LoopOutput::Overdubbed { stored: self.clip[channel][self.clip_index(0)] }
        } else {
            LoopOutput::Silence
        }
    }

    /// All that goes into the output sample of `channel` for the input
    /// `sample`.
    pub open spec fn processed(self, channel: int, sample: S) -> ProcessedSample<S> {
        ProcessedSample {
            input: sample,
            output: self.loop_output(channel),
            dry_volume: self.dry_volume,
            wet_volume: self.wet_volume,
            fade_in: Fraction::of_units(
                fade_in_units(self.fade_start.units(), self.length as int, self.cursor),
            ),
            fade_out: Fraction::of_units(
                fade_out_units(self.fade_end.units(), self.length as int, self.cursor),
            ),
        }
    }

    /// The looper after `sample` was captured for `channel`. A channel that
    /// the scratch pad does not have is not captured.
    pub open spec fn process(self, channel: int, sample: S) -> Self {
        if 0 <= channel < self.scratch_pad.channels.len() {
            LooperView { scratch_pad: self.scratch_pad.write(channel, sample), ..self }
        } else {
            self
        }
    }

    /// The looper after `value` took the place of the sample under the
    /// cursor: the step of an overdub that stores the sum of what was there
    /// and what came in.
    pub open spec fn overdub(self, channel: int, value: S) -> Self {
        if self.state == LooperState::Overdubbing && self.can_read(channel) {
            LooperView {
                clip: self.clip.update(
                    channel,
                    self.clip[channel].update(self.clip_index(0), value),
                ),
                ..self
            }
        } else {
            self
        }
    }

    /// Whether playback, moved on by one step, stands at or past the end of
    /// the playable region.
    pub open spec fn reaches_end(self) -> bool {
        self.cursor + self.speed.units() >= self.end_units()
    }

    /// The looper after playback moved on by one step of `speed` samples:
    /// wrapped at the end of the playable region and brought back into it; or
    /// held where it is, if the loop plays once and the step would reach the
    /// end of the region.
    pub open spec fn advance_cursor(self) -> Self {
        if self.end_units() > 0 {
            if !self.loop_enabled && self.reaches_end() {
                self
            } else {
                let wrapped = truncated_rem(
                    truncated_rem(self.cursor + self.speed.units(), self.end_units()),
                    self.length as int * ONE as int,
                );
                LooperView {
                    cursor: if wrapped < self.start_units() {
                        if self.speed.units() > 0 {
                            self.start_units()
                        } else {
                            self.end_units()
                        }
                    } else {
                        wrapped
                    },
                    ..self
                }
            }
        } else {
            self
        }
    }

    /// Whether the clocks can move on by one frame: neither the scratch
    /// pad's nor, where this looper drives it, the transport's is at the
    /// largest value the machine can hold.
    pub open spec fn can_tick(self) -> bool {
        &&& self.scratch_pad.cursor < usize::MAX
        &&& self.tick_time ==> self.time.can_tick()
    }

    /// The looper with the frame closed and the transport moved on, before
    /// the state is looked at.
    pub open spec fn ticked(self) -> Self {
        LooperView {
            scratch_pad: self.scratch_pad.advance(),
            time: if self.tick_time {
                self.time.tick_spec()
            } else {
                self.time
            },
            ..self
        }
    }

    /// The looper after one more sample was captured: one longer, or made
    /// into a clip if it already fills the scratch pad.
    pub open spec fn capture_one(self) -> Self {
        if self.length + 1 > self.scratch_pad.max_len() {
            self.stop_recording_audio_thread_only()
        } else {
            LooperView { length: self.length + 1, ..self }
        }
    }

    /// The looper after a frame.
    pub open spec fn after_process(self) -> Self {
        let ticked = self.ticked();
        match self.state {
            LooperState::PlayingScheduled => if ticked.scratch_pad.cursor
                >= ticked.scheduled_playback {
                ticked.stop_recording_audio_thread_only()
            } else {
                ticked.capture_one()
            },
            LooperState::RecordingScheduled => if ticked.scratch_pad.cursor
                >= ticked.start_cursor {
                LooperView { state: LooperState::Recording, ..ticked }
            } else {
                ticked
            },
            LooperState::Recording => ticked.capture_one(),
            LooperState::Playing | LooperState::Overdubbing => ticked.advance_cursor(),
            _ => ticked,
        }
    }

    /// The looper with fresh, silent buffers for `settings`: empty, with
    /// nothing captured.
    pub open spec fn prepared(self, settings: AudioProcessorSettings) -> Self {
        let max_len = samples_for(
            settings.sample_rate as int,
            self.options.max_loop_length_millis as int,
        ) as nat;
        LooperView {
            state: LooperState::Empty,
            length: 0,
            scratch_pad: ScratchPadView {
                channels: silent_channels(settings.output_channels as nat, max_len, self.silence),
                cursor: 0,
            },
            clip: silent_channels(settings.output_channels as nat, max_len, self.silence),
            time: TimeInfoProviderImpl { sample_rate: settings.sample_rate, ..self.time },
            settings,
            ..self
        }
    }

    /// Why the looper cannot be prepared for `settings`, if it cannot.
    pub open spec fn prepare_error(self, settings: AudioProcessorSettings) -> Option<
        PrepareError,
    > {
        if settings.sample_rate == 0 {
            Some(PrepareError::ZeroSampleRate)
        } else if settings.output_channels * samples_for(
            settings.sample_rate as int,
            self.options.max_loop_length_millis as int,
        ) > usize::MAX || samples_for(
            settings.sample_rate as int,
            self.options.max_loop_length_millis as int,
        ) > usize::MAX {
            Some(PrepareError::LoopTooLong)
        } else {
            None
        }
    }
}

} // verus!
