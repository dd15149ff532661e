//! The looper handle: the state machine of one voice.
//!
//! The control side arms, stops, plays, pauses, clears and imports; the audio
//! side calls `process` once per sample and channel and `after_process` once
//! per frame. Every operation is total: a request that makes no sense in the
//! current state changes nothing.
use vstd::prelude::*;
use crate::audio_buffer::{VecAudioBuffer, num_samples_of};
use crate::fade::{calculate_fade_out_volume, calculate_fade_volume};
use crate::fixed::{Fixed, Fraction, Position, ONE, lemma_product_bounded};
use crate::loop_quantization::{LoopQuantizer, QuantizeInput};
use crate::looper_state::{LoopOutput, LooperOptions, LooperState, LooperView, PrepareError,
    ProcessedSample, ToggleRecordingResult};
use crate::quantize_mode::{QuantizeMode, QuantizeOptions};
use crate::scratch_pad::ScratchPad;
use crate::settings::AudioProcessorSettings;
use crate::time_info_provider::TimeInfoProviderImpl;

verus! {

pub struct LooperHandle<S> {
    /// Volume of the input as it passes through.
    dry_volume: Fixed,
    /// Volume of the loop.
    wet_volume: Fixed,
    /// Where in the loop the playable region starts.
    start_offset: Fraction,
    /// Where in the loop the playable region ends.
    end_offset: Fraction,
    /// The part of the loop over which it fades in.
    fade_start: Fraction,
    /// The part of the loop over which it fades out.
    fade_end: Fraction,
    /// Samples per frame: one plays as recorded, negative plays backwards.
    speed: Fixed,
    /// Whether the loop repeats, or plays once and holds.
    loop_enabled: bool,
    state: LooperState,
    start_cursor: usize,
    length: usize,
    scheduled_playback: usize,
    /// The ring that is always capturing.
    scratch_pad: ScratchPad<S>,
    /// The loop that plays.
    looper_clip: VecAudioBuffer<S>,
    /// Where playback stands in the clip.
    cursor: Position,
    time_info_provider: TimeInfoProviderImpl,
    /// Whether this looper moves the transport on.
    tick_time: bool,
    options: LooperOptions,
    settings: AudioProcessorSettings,
    quantize_options: QuantizeOptions,
    silence: S,
}

impl<S> View for LooperHandle<S> {
    type V = LooperView<S>;

    closed spec fn view(&self) -> LooperView<S> {
        LooperView {
            state: self.state,
            start_cursor: self.start_cursor as nat,
            length: self.length as nat,
            scheduled_playback: self.scheduled_playback as nat,
            cursor: self.cursor.units(),
            dry_volume: self.dry_volume,
            wet_volume: self.wet_volume,
            start_offset: self.start_offset,
            end_offset: self.end_offset,
            fade_start: self.fade_start,
            fade_end: self.fade_end,
            speed: self.speed,
            loop_enabled: self.loop_enabled,
            scratch_pad: self.scratch_pad@,
            clip: self.looper_clip@,
            time: self.time_info_provider,
            tick_time: self.tick_time,
            options: self.options,
            settings: self.settings,
            quantize_mode: self.quantize_options.mode_spec(),
            silence: self.silence,
        }
    }
}

impl<S: Copy> LooperHandle<S> {
    /// Whether the handle is in a state that its operations keep it in.
    pub closed spec fn wf(&self) -> bool {
        &&& self.scratch_pad.wf()
        &&& self.looper_clip.wf()
        &&& self.cursor.is_valid()
        &&& self@.wf()
    }

    /// Of a well-formed handle all holds that holds of every reachable
    /// looper.
    pub proof fn lemma_wf_view(&self)
        requires
            self.wf(),
        ensures
            self@.wf(),
    {
    }

    /// A looper with `options` that consults `time_info_provider`: empty,
    /// with the loop at full and the input at no volume, no offsets, no
    /// fades, forward at recorded speed, repeating. `silence` is the sample
    /// that fresh and cleared buffers hold.
    pub fn new(options: LooperOptions, time_info_provider: TimeInfoProviderImpl, silence: S) -> (handle:
        Self)
        ensures
            handle.wf(),
            handle@ == LooperView::initial(options, time_info_provider, silence),
            handle@.state == LooperState::Empty,
            handle@.start_cursor == 0,
            handle@.length == 0,
            handle@.scheduled_playback == 0,
            handle@.cursor == 0,
            handle@.dry_volume.units() == 0,
            handle@.wet_volume.units() == ONE,
            handle@.start_offset.units() == 0,
            handle@.end_offset.units() == ONE,
            handle@.fade_start.units() == 0,
            handle@.fade_end.units() == 0,
            handle@.speed.units() == ONE,
            handle@.loop_enabled,
            handle@.scratch_pad.channels.len() == 0,
            handle@.scratch_pad.cursor == 0,
            handle@.clip.len() == 0,
            handle@.time == time_info_provider,
            handle@.tick_time,
            handle@.options == options,
            handle@.settings == (AudioProcessorSettings {
                sample_rate: 44100,
                input_channels: 2,
                output_channels: 2,
                block_size: 512,
            }),
            handle@.quantize_mode == QuantizeMode::Off,
            handle@.silence == silence,
    {
        let handle = LooperHandle {
            dry_volume: Fixed::from_int(0),
            wet_volume: Fixed::from_int(1),
            start_offset: Fraction::zero(),
            end_offset: Fraction::one(),
            fade_start: Fraction::zero(),
            fade_end: Fraction::zero(),
            speed: Fixed::from_int(1),
            loop_enabled: true,
            state: LooperState::Empty,
            start_cursor: 0,
            length: 0,
            scheduled_playback: 0,
            scratch_pad: ScratchPad::new(VecAudioBuffer::new()),
            looper_clip: VecAudioBuffer::new(),
            cursor: Position::new(0, 0),
            time_info_provider,
            tick_time: true,
            options,
            settings: AudioProcessorSettings::default(),
            quantize_options: QuantizeOptions::default(),
            silence,
        };
        proof {
            assert(handle@.clip =~~= crate::audio_buffer::silent_channels(0, 0, silence));
            assert(handle@.clip =~= Seq::empty());
            assert(handle@.scratch_pad.channels =~= Seq::empty());
            handle.start_offset.lemma_of_own_units();
            handle.end_offset.lemma_of_own_units();
            handle.fade_start.lemma_of_own_units();
            handle.fade_end.lemma_of_own_units();
        }
        handle
    }

    /// A looper with `options` and a transport of its own, which stands at
    /// the start, stopped, and knows neither tempo nor sample rate. All else
    /// is as `new` makes it.
    pub fn from_options(options: LooperOptions, silence: S) -> (handle: Self)
        ensures
            handle.wf(),
            handle@ == LooperView::initial(options, TimeInfoProviderImpl::new_spec(), silence),
            handle@.dry_volume.units() == 0,
            handle@.wet_volume.units() == ONE,
            handle@.start_offset.units() == 0,
            handle@.end_offset.units() == ONE,
            handle@.fade_start.units() == 0,
            handle@.fade_end.units() == 0,
            handle@.speed.units() == ONE,
            handle@.loop_enabled,
            handle@.tick_time,
    {
        LooperHandle::new(options, TimeInfoProviderImpl::new(), silence)
    }

    /// Volume of the input as it passes through.
    pub fn dry_volume(&self) -> (r: Fixed)
        ensures
            r == self@.dry_volume,
    {
        self.dry_volume
    }

    /// Volume of the loop.
    pub fn wet_volume(&self) -> (r: Fixed)
        ensures
            r == self@.wet_volume,
    {
        self.wet_volume
    }

    /// Playback speed in samples per frame; negative plays backwards.
    pub fn speed(&self) -> (r: Fixed)
        ensures
            r == self@.speed,
    {
        self.speed
    }

    pub fn set_dry_volume(&mut self, value: Fixed)
        requires
            old(self).wf(),
        ensures
            final(self).wf(),
            final(self)@ == (LooperView { dry_volume: value, ..old(self)@ }),
    {
        self.dry_volume = value;
    }

    pub fn set_wet_volume(&mut self, value: Fixed)
        requires
            old(self).wf(),
        ensures
            final(self).wf(),
            final(self)@ == (LooperView { wet_volume: value, ..old(self)@ }),
    {
        self.wet_volume = value;
    }

    /// Sets where the playable region starts, as a part of the loop. The
    /// cursor goes there when the loop is triggered or wraps.
    pub fn set_start_offset(&mut self, value: Fraction)
        requires
            old(self).wf(),
        ensures
            final(self).wf(),
            final(self)@ == (LooperView { start_offset: value, ..old(self)@ }),
    {
        proof {
            use_type_invariant(&value);
        }
        self.start_offset = value;
    }

    /// Sets where the playable region ends, as a part of the loop.
    pub fn set_end_offset(&mut self, value: Fraction)
        requires
            old(self).wf(),
        ensures
            final(self).wf(),
            final(self)@ == (LooperView { end_offset: value, ..old(self)@ }),
    {
        proof {
            use_type_invariant(&value);
        }
        self.end_offset = value;
    }

    pub fn set_fade_start(&mut self, value: Fraction)
        requires
            old(self).wf(),
        ensures
            final(self).wf(),
            final(self)@ == (LooperView { fade_start: value, ..old(self)@ }),
    {
        proof {
            use_type_invariant(&value);
        }
        self.fade_start = value;
    }

    pub fn set_fade_end(&mut self, value: Fraction)
        requires
            old(self).wf(),
        ensures
            final(self).wf(),
            final(self)@ == (LooperView { fade_end: value, ..old(self)@ }),
    {
        proof {
            use_type_invariant(&value);
        }
        self.fade_end = value;
    }

    pub fn set_speed(&mut self, value: Fixed)
        requires
            old(self).wf(),
        ensures
            final(self).wf(),
            final(self)@ == (LooperView { speed: value, ..old(self)@ }),
    {
        self.speed = value;
    }

    pub fn set_loop_enabled(&mut self, value: bool)
        requires
            old(self).wf(),
        ensures
            final(self).wf(),
            final(self)@ == (LooperView { loop_enabled: value, ..old(self)@ }),
    {
        self.loop_enabled = value;
    }

    /// Sets whether this looper moves the transport on with every frame.
    pub fn set_tick_time(&mut self, value: bool)
        requires
            old(self).wf(),
        ensures
            final(self).wf(),
            final(self)@ == (LooperView { tick_time: value, ..old(self)@ }),
    {
        self.tick_time = value;
    }

    pub fn set_quantize_mode(&mut self, mode: QuantizeMode)
        requires
            old(self).wf(),
        ensures
            final(self).wf(),
            final(self)@ == (LooperView { quantize_mode: mode, ..old(self)@ }),
    {
        self.quantize_options.set_mode(mode);
    }

    /// Sets the tempo of the transport and starts it.
    pub fn set_tempo(&mut self, tempo: Fixed)
        requires
            old(self).wf(),
        ensures
            final(self).wf(),
            final(self)@ == (LooperView {
                time: TimeInfoProviderImpl { tempo: Some(tempo), playing: true, ..old(self)@.time },
                ..old(self)@
            }),
    {
        self.time_info_provider.set_tempo(tempo);
        self.time_info_provider.play();
    }

    /// Makes the looper consult `time_info_provider` from now on.
    pub fn set_time_info_provider(&mut self, time_info_provider: TimeInfoProviderImpl)
        requires
            old(self).wf(),
        ensures
            final(self).wf(),
            final(self)@ == (LooperView { time: time_info_provider, ..old(self)@ }),
    {
        self.time_info_provider = time_info_provider;
    }

    pub fn state(&self) -> (r: LooperState)
        ensures
            r == self@.state,
    {
        self.state
    }

    /// The number of samples of the loop, or of the recording so far.
    pub fn num_samples(&self) -> (r: usize)
        ensures
            r == self@.length,
    {
        self.length
    }

    pub fn is_recording(&self) -> (r: bool)
        ensures
            r == (self@.state == LooperState::Recording || self@.state
                == LooperState::Overdubbing),
    {
        self.state == LooperState::Recording || self.state == LooperState::Overdubbing
    }

    pub fn is_playing_back(&self) -> (r: bool)
        ensures
            r == (self@.state == LooperState::Playing || self@.state == LooperState::Recording
                || self@.state == LooperState::Overdubbing),
    {
        self.state == LooperState::Playing || self.state == LooperState::Recording || self.state
            == LooperState::Overdubbing
    }

    /// The index of the sample at or before the cursor.
    pub fn playhead(&self) -> (r: usize)
        requires
            self.wf(),
        ensures
            r == self@.playhead(),
    {
        self.cursor.whole() as usize
    }

    /// Where playback stands in the clip.
    pub fn cursor(&self) -> (r: Position)
        ensures
            r.units() == self@.cursor,
    {
        self.cursor
    }

    pub fn quantize_options(&self) -> (r: &QuantizeOptions)
        ensures
            r.mode_spec() == self@.quantize_mode,
    {
        &self.quantize_options
    }

    pub fn time_info_provider(&self) -> (r: &TimeInfoProviderImpl)
        ensures
            *r == self@.time,
    {
        &self.time_info_provider
    }

    /// The clip that plays.
    pub fn looper_clip(&self) -> (clip: &VecAudioBuffer<S>)
        requires
            self.wf(),
        ensures
            clip.wf(),
            clip@ == self@.clip,
    {
        &self.looper_clip
    }
}

impl<S: Copy> LooperHandle<S> {
    /// The offset in samples to the grid line that a recording should start
    /// or stop on now. `None` while the transport knows no tempo or cannot
    /// tell the beat, and `None` where no quantization is asked for.
    pub fn get_quantized_offset(&self) -> (offset: Option<i32>)
        ensures
            offset is Some <==> self@.quantized_offset() is Some,
            offset matches Some(samples) ==> self@.quantized_offset() == Some(samples as int),
    {
        let info = self.time_info_provider.get_time_info();
        match (info.tempo(), info.position_beats()) {
            (Some(tempo), Some(position_beats)) => {
                let quantizer = LoopQuantizer::new(self.quantize_options.inner());
                let input = QuantizeInput {
                    tempo,
                    sample_rate: self.settings.sample_rate(),
                    position_beats,
                    position_samples: 0,
                };
                quantizer.quantize(input)
            },
            _ => None,
        }
    }

    /// The clock value that lies `offset` samples from now, kept within the
    /// range of the clock.
    fn due(&self, offset: Option<i32>) -> (due: usize)
        requires
            offset is Some <==> self@.quantized_offset() is Some,
            offset matches Some(samples) ==> self@.quantized_offset() == Some(samples as int),
        ensures
            due == self@.due(),
    {
        let now: i128 = self.scratch_pad.cursor() as i128;
        let target: i128 = match offset {
            Some(samples) => now + (samples as i128),
            None => now,
        };
        if target < 0 {
            0
        } else if target > (usize::MAX as i128) {
            usize::MAX
        } else {
            target as usize
        }
    }

    /// Starts a recording on an empty looper, at once or on the next grid
    /// line; starts an overdub on a loop that plays or is paused. Returns the
    /// state the looper is in afterwards.
    pub fn start_recording(&mut self) -> (state: LooperState)
        requires
            old(self).wf(),
        ensures
            final(self).wf(),
            final(self)@ == old(self)@.start_recording(),
            state == final(self)@.state,
    {
        if self.state == LooperState::Empty {
            let offset = self.get_quantized_offset();
            let scheduled = match offset {
                Some(samples) => samples > 0,
                None => false,
            };
            self.start_cursor = self.due(offset);
            self.state = if scheduled {
                LooperState::RecordingScheduled
            } else {
                LooperState::Recording
            };
            self.length = 0;
        } else if self.state == LooperState::Paused || self.state == LooperState::Playing {
            self.time_info_provider.play();
            self.state = LooperState::Overdubbing;
        }
        self.state
    }

    /// Stops a recording from the control side: at once, into a clip that is
    /// built afresh, or on the next grid line, where the audio side makes the
    /// clip. Ends an overdub.
    pub fn stop_recording_allocating_loop(&mut self)
        requires
            old(self).wf(),
        ensures
            final(self).wf(),
            final(self)@ == old(self)@.stop_recording_allocating_loop(),
    {
        if self.state == LooperState::Recording {
            let offset = self.get_quantized_offset();
            let scheduled = match offset {
                Some(samples) => samples > 0,
                None => false,
            };
            if scheduled {
                self.scheduled_playback = self.due(offset);
                self.state = LooperState::PlayingScheduled;
            } else {
                self.make_clip();
            }
        } else if self.state == LooperState::Overdubbing {
            self.state = LooperState::Playing;
        }
    }

    /// Makes the recording into a clip that is built afresh, with storage
    /// for the longest loop, and plays it from its first sample.
    fn make_clip(&mut self)
        requires
            old(self).wf(),
            old(self)@.state == LooperState::Recording,
        ensures
            final(self).wf(),
            final(self)@ == old(self)@.finalize(),
    {
        let longest: usize = self.scratch_pad.num_channels() * self.scratch_pad.max_len();
        let mut new_buffer: VecAudioBuffer<S> = VecAudioBuffer::with_capacity(longest);
        new_buffer.copy_window(self.scratch_pad.buffer(), self.start_cursor, self.length);
        proof {
            new_buffer.lemma_view_shape();
        }
        self.looper_clip = new_buffer;
        self.time_info_provider.play();
        self.state = LooperState::Playing;
        self.cursor = Position::new(0, 0);
    }

    /// Stops a recording from the audio side: the recorded window is copied
    /// into the clip that is already there. Ends an overdub.
    pub fn stop_recording_audio_thread_only(&mut self)
        requires
            old(self).wf(),
        ensures
            final(self).wf(),
            final(self)@ == old(self)@.stop_recording_audio_thread_only(),
    {
        if self.state == LooperState::Recording || self.state == LooperState::PlayingScheduled {
            self.looper_clip.copy_window(
                self.scratch_pad.buffer(),
                self.start_cursor,
                self.length,
            );
            proof {
                self.looper_clip.lemma_view_shape();
            }
            self.time_info_provider.play();
            self.state = LooperState::Playing;
            self.cursor = Position::new(0, 0);
        } else if self.state == LooperState::Overdubbing {
            self.state = LooperState::Playing;
        }
    }

    /// Stops the recording or overdub that runs, or else starts one.
    pub fn toggle_recording(&mut self) -> (result: ToggleRecordingResult)
        requires
            old(self).wf(),
        ensures
            final(self).wf(),
            final(self)@ == old(self)@.toggle_recording(),
            result == old(self)@.toggle_recording_result(),
    {
        if self.state == LooperState::Recording || self.state == LooperState::Overdubbing {
            self.stop_recording_allocating_loop();
            ToggleRecordingResult::StoppedRecording
        } else {
            self.start_recording();
            ToggleRecordingResult::StartedRecording
        }
    }

    /// Empties the looper: the clip is silenced where it is and the loop has
    /// no length.
    pub fn clear(&mut self)
        requires
            old(self).wf(),
        ensures
            final(self).wf(),
            final(self)@ == old(self)@.clear(),
    {
        self.state = LooperState::Empty;
        self.looper_clip.fill(self.silence);
        self.length = 0;
    }

    /// The start of the playable region as a place in the clip.
    fn get_start_samples(&self) -> (start: Position)
        ensures
            start.is_valid(),
            start.units() == self@.start_units(),
            0 <= start.units() <= usize::MAX as int * ONE as int,
    {
        scaled(self.start_offset, self.length)
    }

    /// The end of the playable region as a place in the clip.
    fn get_end_samples(&self) -> (end: Position)
        ensures
            end.is_valid(),
            end.units() == self@.end_units(),
            0 <= end.units() <= usize::MAX as int * ONE as int,
    {
        scaled(self.end_offset, self.length)
    }

    /// Puts the cursor at the start of the playable region.
    pub fn trigger(&mut self)
        requires
            old(self).wf(),
        ensures
            final(self).wf(),
            final(self)@ == old(self)@.trigger(),
    {
        self.cursor = self.get_start_samples();
    }

    /// Plays an empty or paused looper from the start of the playable
    /// region.
    pub fn play(&mut self)
        requires
            old(self).wf(),
        ensures
            final(self).wf(),
            final(self)@ == old(self)@.play(),
    {
        if self.state == LooperState::Empty || self.state == LooperState::Paused {
            if self.tick_time {
                self.time_info_provider.play();
            }
            self.state = LooperState::Playing;
            self.cursor = self.get_start_samples();
        }
    }

    /// Pauses a looper that plays.
    pub fn pause(&mut self)
        requires
            old(self).wf(),
        ensures
            final(self).wf(),
            final(self)@ == old(self)@.pause(),
    {
        if self.state == LooperState::Playing {
            if self.tick_time {
                self.time_info_provider.pause();
            }
            self.state = LooperState::Paused;
        }
    }

    /// Pauses a looper that plays or overdubs; makes the recording of one
    /// that records into the clip at once, without waiting for the grid, and
    /// pauses it; plays one that is empty or paused. Returns whether the
    /// looper plays afterwards.
    pub fn toggle_playback(&mut self) -> (playing: bool)
        requires
            old(self).wf(),
        ensures
            final(self).wf(),
            final(self)@ == old(self)@.toggle_playback(),
            playing == (final(self)@.state == LooperState::Playing),
    {
        if self.state == LooperState::Recording {
            self.make_clip();
            self.pause();
        } else if self.state == LooperState::Playing || self.state == LooperState::Overdubbing {
            self.stop_recording_allocating_loop();
            self.pause();
        } else {
            self.play();
        }
        self.state == LooperState::Playing
    }

    /// Replaces the clip by the frames of `samples`, each one sample of each
    /// of `num_channels` channels, and pauses. The new clip has storage for
    /// the longest loop as well.
    pub fn set_looper_buffer(&mut self, num_channels: usize, samples: &[S])
        requires
            old(self).wf(),
        ensures
            final(self).wf(),
            final(self)@ == old(self)@.set_looper_buffer(num_channels as nat, samples@),
    {
        let mut new_buffer: VecAudioBuffer<S> = VecAudioBuffer::from_interleaved(
            num_channels,
            samples,
        );
        let longest: usize = self.scratch_pad.num_channels() * self.scratch_pad.max_len();
        new_buffer.reserve(longest);
        proof {
            new_buffer.lemma_view_shape();
        }
        self.cursor = self.get_start_samples();
        self.state = LooperState::Paused;
        self.length = new_buffer.num_samples();
        self.looper_clip = new_buffer;
    }
}

impl<S: Copy> LooperHandle<S> {
    /// The fade-in gain at `cursor`.
    pub fn get_fade_in_volume(&self, cursor: Position) -> (r: Fraction)
        ensures
            r.is_valid(),
            r.units() == crate::fade::fade_in_units(
                self@.fade_start.units(),
                self@.length as int,
                cursor.units(),
            ),
    {
        calculate_fade_volume(self.fade_start, self.length, cursor)
    }

    /// The fade-out gain at `cursor`.
    pub fn get_fade_out_volume(&self, cursor: Position) -> (r: Fraction)
        ensures
            r.is_valid(),
            r.units() == crate::fade::fade_out_units(
                self@.fade_end.units(),
                self@.length as int,
                cursor.units(),
            ),
    {
        calculate_fade_out_volume(self.fade_end, self.length, cursor)
    }

    /// The index in the clip of the sample under the cursor, where the loop
    /// is read as a ring.
    fn clip_index(&self) -> (index: usize)
        requires
            self.wf(),
            self@.length > 0,
        ensures
            index == self@.clip_index(0),
            index < self@.length,
            self@.clip_index(1) == if index + 1 == self@.length {
                0
            } else {
                index + 1
            },
    {
        let playhead: usize = self.playhead();
        proof {
            lemma_next_index(playhead as int, self.length as int);
        }
        playhead % self.length
    }

    /// Captures `sample` for `channel` of the current frame and tells what
    /// goes into the output sample: the input, what the loop contributes,
    /// the two volumes and the two fade gains. While the looper plays, the
    /// loop contributes the two stored samples on either side of the cursor
    /// and the weight between them; while it overdubs, the stored sample
    /// under the cursor, to which the caller adds the input and hands the
    /// sum to `overdub`; otherwise nothing.
    pub fn process(&mut self, channel: usize, sample: S) -> (processed: ProcessedSample<S>)
        requires
            old(self).wf(),
        ensures
            final(self).wf(),
            final(self)@ == old(self)@.process(channel as int, sample),
            processed == old(self)@.processed(channel as int, sample),
            processed.fade_in.units() == crate::fade::fade_in_units(
                old(self)@.fade_start.units(),
                old(self)@.length as int,
                old(self)@.cursor,
            ),
            processed.fade_out.units() == crate::fade::fade_out_units(
                old(self)@.fade_end.units(),
                old(self)@.length as int,
                old(self)@.cursor,
            ),
    {
        if channel < self.scratch_pad.num_channels() {
            self.scratch_pad.write(channel, sample);
        }
        let readable: bool = channel < self.looper_clip.num_channels() && self.length > 0;
        let output: LoopOutput<S> = if self.state == LooperState::Playing && readable {
            let first_index: usize = self.clip_index();
            let second_index: usize = if first_index + 1 == self.length {
                0
            } else {
                first_index + 1
            };
            let weight: Fraction = self.cursor.part();
            proof {
                weight.lemma_of_own_units();
            }
            LoopOutput::Interpolated {
                first: self.looper_clip.get(channel, first_index),
                second: self.looper_clip.get(channel, second_index),
                weight,
            }
        } else if self.state == LooperState::Overdubbing && readable {
            let index: usize = self.clip_index();
            LoopOutput::Overdubbed { stored: self.looper_clip.get(channel, index) }
        } else {
            LoopOutput::Silence
        };
        let fade_in: Fraction = self.get_fade_in_volume(self.cursor);
        let fade_out: Fraction = self.get_fade_out_volume(self.cursor);
        proof {
            fade_in.lemma_of_own_units();
            fade_out.lemma_of_own_units();
        }
        ProcessedSample {
            input: sample,
            output,
            dry_volume: self.dry_volume,
            wet_volume: self.wet_volume,
            fade_in,
            fade_out,
        }
    }

    /// Stores `value` in the place of the sample under the cursor, while the
    /// looper overdubs: the second half of an overdub, whose first half is
    /// the stored sample that `process` handed out.
    pub fn overdub(&mut self, channel: usize, value: S)
        requires
            old(self).wf(),
        ensures
            final(self).wf(),
            final(self)@ == old(self)@.overdub(channel as int, value),
    {
        if self.state == LooperState::Overdubbing && channel < self.looper_clip.num_channels()
            && self.length > 0 {
            let index: usize = self.clip_index();
            self.looper_clip.set(channel, index, value);
        }
    }
}

impl<S: Copy> LooperHandle<S> {
    /// Moves playback on by one step of `speed` samples.
    fn advance_cursor(&mut self)
        requires
            old(self).wf(),
            old(self)@.state == LooperState::Playing || old(self)@.state
                == LooperState::Overdubbing,
        ensures
            final(self).wf(),
            final(self)@ == old(self)@.advance_cursor(),
    {
        let end: u128 = self.get_end_samples().raw();
        if end > 0 {
            let start: u128 = self.get_start_samples().raw();
            let cursor: i128 = self.cursor.raw() as i128;
            let speed: i128 = self.speed.raw() as i128;
            let moved: i128 = cursor + speed;
            if !self.loop_enabled && moved >= (end as i128) {
                return ;
            }
            proof {
                self.end_offset.lemma_valid_range();
                lemma_region_in_loop(self@.end_offset.units(), self@.length as int);
                lemma_wrap_once(moved as int, end as int, self@.length as int * ONE as int);
            }
            let wrapped: i128 = if moved >= 0 {
                ((moved as u128) % end) as i128
            } else {
                -((((-moved) as u128) % end) as i128)
            };
            let next: i128 = if wrapped < (start as i128) {
                if speed > 0 {
                    start as i128
                } else {
                    end as i128
                }
            } else {
                wrapped
            };
            let place = Position::from_raw(next as u128);
            self.cursor = place.unwrap();
        }
    }

    /// Makes the recording one sample longer, or into a clip if it already
    /// fills the scratch pad.
    fn capture_one(&mut self)
        requires
            old(self).wf(),
            old(self)@.state == LooperState::Recording || old(self)@.state
                == LooperState::PlayingScheduled,
        ensures
            final(self).wf(),
            final(self)@ == old(self)@.capture_one(),
    {
        if self.length >= self.scratch_pad.max_len() {
            self.stop_recording_audio_thread_only();
        } else {
            self.length = self.length + 1;
        }
    }

    /// Whether the clocks can move on by one frame. It holds until a clock
    /// reaches the largest value the machine can hold.
    pub fn can_tick(&self) -> (r: bool)
        ensures
            r == self@.can_tick(),
    {
        self.scratch_pad.cursor() < usize::MAX && (!self.tick_time
            || !self.time_info_provider.playing || self.time_info_provider.position_samples
            < u64::MAX)
    }

    /// Closes a frame. The scratch pad moves on to its next slot and, where
    /// this looper drives it, the transport to its next sample. Then a
    /// scheduled start or stop that is due takes place, a recording grows by
    /// one sample or, at the scratch pad's capacity, becomes the clip, and
    /// playback moves on by one step.
    pub fn after_process(&mut self)
        requires
            old(self).wf(),
            old(self)@.can_tick(),
        ensures
            final(self).wf(),
            final(self)@ == old(self)@.after_process(),
    {
        self.scratch_pad.after_process();
        if self.tick_time {
            self.time_info_provider.tick();
        }
        match self.state {
            LooperState::PlayingScheduled => {
                if self.scratch_pad.cursor() >= self.scheduled_playback {
                    self.stop_recording_audio_thread_only();
                } else {
                    self.capture_one();
                }
            },
            LooperState::RecordingScheduled => {
                if self.scratch_pad.cursor() >= self.start_cursor {
                    self.state = LooperState::Recording;
                }
            },
            LooperState::Recording => {
                self.capture_one();
            },
            LooperState::Playing => {
                self.advance_cursor();
            },
            LooperState::Overdubbing => {
                self.advance_cursor();
            },
            _ => {},
        }
    }

    /// Makes the looper ready for `settings`: a scratch pad and a clip of
    /// silence, each as long as the longest loop lasts at the sample rate,
    /// with one channel per output channel; the transport told the sample
    /// rate; the looper empty. Fails, and changes nothing, where the sample
    /// rate is zero or the buffers would not fit in memory.
    pub fn prepare(&mut self, settings: AudioProcessorSettings) -> (result: Result<
        (),
        PrepareError,
    >)
        requires
            old(self).wf(),
        ensures
            final(self).wf(),
            match result {
                Ok(_) => old(self)@.prepare_error(settings) is None && final(self)@ == old(
                    self,
                )@.prepared(settings),
                Err(error) => old(self)@.prepare_error(settings) == Some(error) && final(self)@
                    == old(self)@,
            },
    {
        if settings.sample_rate() == 0 {
            return Err(PrepareError::ZeroSampleRate);
        }
        proof {
            lemma_product_bounded(
                settings.sample_rate as int,
                self.options.max_loop_length_millis as int,
                u32::MAX as int,
                u64::MAX as int,
            );
        }
        let covered: u128 = (settings.sample_rate() as u128) * (
        self.options.max_loop_length_millis as u128) + 999;
        let max_len: u128 = covered / 1000;
        if max_len > (usize::MAX as u128) {
            proof {
                assert(settings.output_channels * max_len >= 0) by (nonlinear_arith);
            }
            return Err(PrepareError::LoopTooLong);
        }
        let num_channels: usize = settings.output_channels();
        proof {
            lemma_product_bounded(
                num_channels as int,
                max_len as int,
                usize::MAX as int,
                usize::MAX as int,
            );
            assert(usize::MAX as int * usize::MAX as int <= 0xffff_ffff_ffff_ffff
                * 0xffff_ffff_ffff_ffff) by (nonlinear_arith)
                requires
                    usize::MAX <= 0xffff_ffff_ffff_ffff,
            ;
        }
        if (num_channels as u128) * max_len > (usize::MAX as u128) {
            return Err(PrepareError::LoopTooLong);
        }
        let max_len: usize = max_len as usize;
        self.scratch_pad = ScratchPad::new(VecAudioBuffer::silent(num_channels, max_len, self.silence));
        self.looper_clip = VecAudioBuffer::silent(num_channels, max_len, self.silence);
        self.time_info_provider.set_sample_rate(settings.sample_rate());
        self.settings = settings;
        self.state = LooperState::Empty;
        self.length = 0;
        proof {
            self.scratch_pad.lemma_view_shape();
            self.looper_clip.lemma_view_shape();
            if num_channels > 0 {
                assert(self.looper_clip@[0].len() == max_len);
            }
            assert(self.looper_clip@ =~~= crate::audio_buffer::silent_channels(
                self.looper_clip@.len(),
                num_samples_of(self.looper_clip@),
                self.silence,
            ));
        }
        Ok(())
    }
}

/// The playable region ends inside the loop.
pub proof fn lemma_region_in_loop(offset: int, length: int)
    by (nonlinear_arith)
    requires
        0 <= offset <= ONE,
        0 <= length,
    ensures
        0 <= offset * length <= length * ONE as int,
{
}

/// A place wrapped at the end of the playable region lies inside the loop,
/// so wrapping it at the end of the loop changes nothing.
pub proof fn lemma_wrap_once(moved: int, end: int, total: int)
    requires
        0 < end <= total,
    ensures
        crate::looper_state::truncated_rem(crate::looper_state::truncated_rem(moved, end), total)
            == crate::looper_state::truncated_rem(moved, end),
        -end < crate::looper_state::truncated_rem(moved, end) < end,
{
    let wrapped = crate::looper_state::truncated_rem(moved, end);
    if moved >= 0 {
        vstd::arithmetic::div_mod::lemma_small_mod(wrapped as nat, total as nat);
    } else {
        vstd::arithmetic::div_mod::lemma_mod_bound(-moved, end);
        vstd::arithmetic::div_mod::lemma_small_mod((-wrapped) as nat, total as nat);
    }
}

/// The sample after the one that a whole position names, in a ring.
pub proof fn lemma_next_index(position: int, ring: int)
    requires
        0 <= position,
        0 < ring,
    ensures
        0 <= position % ring < ring,
        (position + 1) % ring == if position % ring + 1 == ring {
            0
        } else {
            position % ring + 1
        },
{
    let q = position / ring;
    let r = position % ring;
    vstd::arithmetic::div_mod::lemma_fundamental_div_mod(position, ring);
    if r + 1 == ring {
        assert(position + 1 == (q + 1) * ring + 0) by (nonlinear_arith)
            requires
                position == ring * q + r,
                r + 1 == ring,
        ;
        vstd::arithmetic::div_mod::lemma_fundamental_div_mod_converse(
            position + 1,
            ring,
            q + 1,
            0,
        );
    } else {
        assert(position + 1 == q * ring + (r + 1)) by (nonlinear_arith)
            requires
                position == ring * q + r,
        ;
        vstd::arithmetic::div_mod::lemma_fundamental_div_mod_converse(
            position + 1,
            ring,
            q,
            r + 1,
        );
    }
}

/// The place that lies the part `offset` of the way through `length`
/// samples.
fn scaled(offset: Fraction, length: usize) -> (place: Position)
    ensures
        place.is_valid(),
        place.units() == offset.units() * length,
        0 <= place.units() <= usize::MAX as int * ONE as int,
{
    let raw: u64 = offset.raw();
    proof {
        lemma_product_bounded(raw as int, length as int, ONE as int, usize::MAX as int);
        assert(ONE as int * usize::MAX as int == usize::MAX as int * ONE as int)
            by (nonlinear_arith);
        assert(usize::MAX as int * ONE as int <= 0xffff_ffff_ffff_ffff * 0x1_0000_0000)
            by (nonlinear_arith)
            requires
                usize::MAX <= 0xffff_ffff_ffff_ffff,
                ONE == 0x1_0000_0000,
        ;
    }
    let place = Position::from_raw((raw as u128) * (length as u128));
    place.unwrap()
}

} // verus!
