//! What holds of the looper whatever it is asked to do.
use vstd::prelude::*;
use crate::audio_buffer::{deinterleaved, num_samples_of};
use crate::fixed::ONE;
use crate::looper_state::{LooperState, LooperView, ToggleRecordingResult};

verus! {

/// What the control side asks for keeps a well-formed looper well formed.
pub proof fn lemma_control_keeps_wf<S>(looper: LooperView<S>)
    requires
        looper.wf(),
    ensures
        looper.start_recording().wf(),
        looper.stop_recording_allocating_loop().wf(),
        looper.toggle_recording().wf(),
        looper.clear().wf(),
        looper.trigger().wf(),
        looper.play().wf(),
        looper.pause().wf(),
        looper.toggle_playback().wf(),
{
    lemma_finalize_keeps_wf(looper);
    lemma_region_bounds(looper);
}

/// The start and the end of the playable region lie in the loop.
pub proof fn lemma_region_bounds<S>(looper: LooperView<S>)
    requires
        looper.start_offset.is_valid(),
        looper.end_offset.is_valid(),
        looper.length <= usize::MAX,
    ensures
        0 <= looper.start_units() <= usize::MAX as int * ONE as int,
        0 <= looper.end_units() <= usize::MAX as int * ONE as int,
        looper.start_units() <= looper.length as int * ONE as int,
        looper.end_units() <= looper.length as int * ONE as int,
{
    looper.start_offset.lemma_valid_range();
    looper.end_offset.lemma_valid_range();
    crate::handle::lemma_region_in_loop(looper.start_offset.units(), looper.length as int);
    crate::handle::lemma_region_in_loop(looper.end_offset.units(), looper.length as int);
    assert(looper.length as int * ONE as int <= usize::MAX as int * ONE as int)
        by (nonlinear_arith)
        requires
            looper.length <= usize::MAX,
    ;
}

/// A recording made into a clip leaves a well-formed looper.
pub proof fn lemma_finalize_keeps_wf<S>(looper: LooperView<S>)
    requires
        looper.wf(),
    ensures
        looper.is_capturing() ==> looper.finalize().wf(),
        looper.stop_recording_audio_thread_only().wf(),
{
    if looper.is_capturing() {
        let made = looper.finalize();
        assert(made.clip.len() * num_samples_of(made.clip) <= usize::MAX) by {
            if made.clip.len() > 0 {
                crate::fixed::lemma_product_bounded(
                    made.clip.len() as int,
                    looper.length as int,
                    looper.scratch_pad.channels.len() as int,
                    looper.scratch_pad.max_len() as int,
                );
            }
        }
    }
}

/// What the audio side does keeps a well-formed looper well formed, as long
/// as the clocks can move on.
pub proof fn lemma_audio_keeps_wf<S>(looper: LooperView<S>, channel: int, sample: S)
    requires
        looper.wf(),
    ensures
        looper.process(channel, sample).wf(),
        looper.overdub(channel, sample).wf(),
        looper.can_tick() ==> looper.after_process().wf(),
{
    lemma_region_bounds(looper);
    if looper.can_tick() {
        lemma_finalize_keeps_wf(looper.ticked());
        if looper.scratch_pad.channels.len() > 0 {
            crate::fixed::lemma_product_bounded(
                1,
                looper.scratch_pad.max_len() as int,
                looper.scratch_pad.channels.len() as int,
                looper.scratch_pad.max_len() as int,
            );
        }
    }
}

/// An import and a successful preparation leave a well-formed looper.
pub proof fn lemma_replacing_buffers_keeps_wf<S>(
    looper: LooperView<S>,
    num_channels: nat,
    samples: Seq<S>,
    settings: crate::settings::AudioProcessorSettings,
)
    requires
        looper.wf(),
    ensures
        samples.len() <= usize::MAX ==> looper.set_looper_buffer(num_channels, samples).wf(),
        looper.prepare_error(settings) is None ==> looper.prepared(settings).wf(),
{
    lemma_region_bounds(looper);
    if samples.len() <= usize::MAX && num_channels > 0 {
        let clip = deinterleaved(num_channels, samples);
        vstd::arithmetic::div_mod::lemma_fundamental_div_mod(
            samples.len() as int,
            num_channels as int,
        );
        assert(clip.len() * num_samples_of(clip) <= samples.len()) by (nonlinear_arith)
            requires
                clip.len() == num_channels,
                num_samples_of(clip) == samples.len() / num_channels,
                samples.len() == num_channels * (samples.len() / num_channels) + samples.len()
                    % num_channels,
                samples.len() % num_channels >= 0,
        ;
    }
    if looper.prepare_error(settings) is None {
        let ready = looper.prepared(settings);
        let covered = settings.sample_rate as int * looper.options.max_loop_length_millis as int;
        assert(covered >= 0) by (nonlinear_arith)
            requires
                covered == settings.sample_rate as int
                    * looper.options.max_loop_length_millis as int,
        ;
        let max_len = crate::looper_state::samples_for(
            settings.sample_rate as int,
            looper.options.max_loop_length_millis as int,
        );
        if settings.output_channels > 0 {
            assert(ready.clip[0].len() == max_len);
            assert(ready.scratch_pad.channels[0].len() == max_len);
            assert(ready.scratch_pad.channels.len() * ready.scratch_pad.max_len()
                == settings.output_channels * max_len);
        } else {
            assert(ready.scratch_pad.max_len() == 0);
        }
        assert(ready.clip =~~= crate::audio_buffer::silent_channels(
            ready.clip.len(),
            num_samples_of(ready.clip),
            ready.silence,
        ));
    }
}

/// Without quantization there is no offset, whatever the transport knows:
/// nothing waits for the grid, and what is asked for is due now.
pub proof fn lemma_no_quantization_no_offset<S>(looper: LooperView<S>)
    requires
        looper.quantize_mode == crate::quantize_mode::QuantizeMode::Off,
    ensures
        looper.quantized_offset() is None,
        !looper.must_wait(),
        looper.due() == crate::looper_state::clamp_usize(looper.scratch_pad.cursor as int),
{
}

/// A press on the play button plays an empty or a paused looper and pauses
/// one that plays, overdubs or records. The recording of one that records
/// becomes the clip at once, grid or no grid: the window of the scratch pad
/// that it has recorded. A looper that waits for the grid stays as it is.
pub proof fn lemma_toggle_playback_table<S>(looper: LooperView<S>)
    ensures
        looper.state == LooperState::Empty || looper.state == LooperState::Paused
            ==> looper.toggle_playback().state == LooperState::Playing,
        looper.state == LooperState::Playing || looper.state == LooperState::Overdubbing
            || looper.state == LooperState::Recording ==> looper.toggle_playback().state
            == LooperState::Paused,
        looper.state == LooperState::Recording ==> looper.toggle_playback().clip
            == looper.scratch_pad.window(looper.start_cursor as int, looper.length)
            && looper.toggle_playback().length == looper.length
            && looper.toggle_playback().cursor == 0,
        looper.state == LooperState::Playing || looper.state == LooperState::Overdubbing
            ==> looper.toggle_playback().clip == looper.clip,
        looper.state == LooperState::RecordingScheduled || looper.state
            == LooperState::PlayingScheduled ==> looper.toggle_playback() == looper,
{
}

/// A press on the record button of an empty looper starts a recording: at
/// once, or on the grid where the start has to wait for it. A second press
/// on a looper that records stops the recording: the looper plays, or waits
/// for the grid to play.
pub proof fn lemma_toggle_recording_twice<S>(looper: LooperView<S>)
    requires
        looper.state == LooperState::Empty,
    ensures
        looper.toggle_recording_result() == ToggleRecordingResult::StartedRecording,
        looper.toggle_recording().state == if looper.must_wait() {
            LooperState::RecordingScheduled
        } else {
            LooperState::Recording
        },
        looper.toggle_recording().length == 0,
        !looper.must_wait() ==> looper.toggle_recording().toggle_recording_result()
            == ToggleRecordingResult::StoppedRecording,
        !looper.must_wait() ==> looper.toggle_recording().toggle_recording().state
            == if looper.toggle_recording().must_wait() {
            LooperState::PlayingScheduled
        } else {
            LooperState::Playing
        },
{
}

/// An imported buffer becomes the loop, paused; to play it puts the cursor
/// at the start offset's part of its length.
pub proof fn lemma_import_then_play<S>(looper: LooperView<S>, num_channels: nat, samples: Seq<S>)
    requires
        num_channels > 0,
    ensures
        looper.set_looper_buffer(num_channels, samples).state == LooperState::Paused,
        looper.set_looper_buffer(num_channels, samples).length == samples.len() / num_channels,
        looper.set_looper_buffer(num_channels, samples).clip == deinterleaved(
            num_channels,
            samples,
        ),
        looper.set_looper_buffer(num_channels, samples).play().state == LooperState::Playing,
        looper.set_looper_buffer(num_channels, samples).play().cursor
            == looper.start_offset.units() * (samples.len() / num_channels),
{
}

/// A loop that plays once holds where it is when the next step would reach
/// the end of the playable region: the frame moves the clocks and nothing
/// else.
pub proof fn lemma_one_shot_freezes<S>(looper: LooperView<S>)
    requires
        looper.state == LooperState::Playing || looper.state == LooperState::Overdubbing,
        !looper.loop_enabled,
        looper.end_units() > 0,
        looper.reaches_end(),
    ensures
        looper.after_process() == looper.ticked(),
        looper.after_process().cursor == looper.cursor,
        looper.after_process().state == looper.state,
{
}

/// A loop that plays once, forwards, never wraps: no frame takes the cursor
/// back.
pub proof fn lemma_one_shot_never_goes_back<S>(looper: LooperView<S>)
    requires
        looper.wf(),
        looper.state == LooperState::Playing || looper.state == LooperState::Overdubbing,
        !looper.loop_enabled,
        looper.speed.units() > 0,
    ensures
        looper.after_process().cursor >= looper.cursor,
        looper.end_units() > 0 && !looper.reaches_end() ==> looper.after_process().cursor
            > looper.cursor,
{
    if looper.end_units() > 0 && !looper.reaches_end() {
        let moved = looper.cursor + looper.speed.units();
        let end = looper.end_units();
        let total = looper.length as int * ONE as int;
        looper.end_offset.lemma_valid_range();
        crate::handle::lemma_region_in_loop(looper.end_offset.units(), looper.length as int);
        crate::handle::lemma_wrap_once(moved, end, total);
        vstd::arithmetic::div_mod::lemma_small_mod(moved as nat, end as nat);
    }
}

/// While the loop repeats, a frame leaves the cursor inside the playable
/// region: at or after its start, at or before its end.
pub proof fn lemma_cursor_stays_in_region<S>(looper: LooperView<S>)
    requires
        looper.wf(),
        looper.state == LooperState::Playing || looper.state == LooperState::Overdubbing,
        looper.loop_enabled,
        looper.end_units() > 0,
        looper.start_units() <= looper.end_units(),
    ensures
        looper.start_units() <= looper.after_process().cursor <= looper.end_units(),
{
    let moved = looper.cursor + looper.speed.units();
    let end = looper.end_units();
    let total = looper.length as int * ONE as int;
    looper.end_offset.lemma_valid_range();
    crate::handle::lemma_region_in_loop(looper.end_offset.units(), looper.length as int);
    crate::handle::lemma_wrap_once(moved, end, total);
}

/// What goes into an output sample is in range: both fade gains lie between
/// zero and one and are the gains of the two ramps at the cursor, and the
/// weight of an interpolation is the cursor's part of a sample, less than
/// one. The two samples it lies between are the one under the cursor and the
/// one after it, which after the last sample of the loop is the first.
pub proof fn lemma_processed_sample<S>(looper: LooperView<S>, channel: int, sample: S)
    requires
        looper.wf(),
    ensures
        looper.processed(channel, sample).fade_in.is_valid(),
        looper.processed(channel, sample).fade_in.units() == crate::fade::fade_in_units(
            looper.fade_start.units(),
            looper.length as int,
            looper.cursor,
        ),
        looper.processed(channel, sample).fade_out.is_valid(),
        looper.processed(channel, sample).fade_out.units() == crate::fade::fade_out_units(
            looper.fade_end.units(),
            looper.length as int,
            looper.cursor,
        ),
        looper.loop_output(channel) matches crate::looper_state::LoopOutput::Interpolated {
            first,
            second,
            weight,
        } ==> {
            &&& weight.is_valid()
            &&& weight.units() == looper.cursor % (ONE as int)
            &&& weight.units() < ONE
            &&& 0 <= looper.clip_index(0) < looper.length
            &&& first == looper.clip[channel][looper.clip_index(0)]
            &&& second == looper.clip[channel][looper.clip_index(1)]
            &&& looper.clip_index(1) == if looper.clip_index(0) + 1 == looper.length {
                0
            } else {
                looper.clip_index(0) + 1
            }
        },
{
    crate::fixed::Fraction::lemma_of_units(
        crate::fade::fade_in_units(looper.fade_start.units(), looper.length as int, looper.cursor),
    );
    crate::fixed::Fraction::lemma_of_units(
        crate::fade::fade_out_units(looper.fade_end.units(), looper.length as int, looper.cursor),
    );
    crate::fixed::Fraction::lemma_of_units(looper.cursor % (ONE as int));
    if looper.length > 0 {
        crate::handle::lemma_next_index(looper.playhead(), looper.length as int);
    }
}

/// Whether the looper plays its whole loop forwards, as recorded, again and
/// again.
pub open spec fn plays_plainly<S>(looper: LooperView<S>) -> bool {
    &&& looper.state == LooperState::Playing
    &&& looper.loop_enabled
    &&& looper.speed.units() == ONE
    &&& looper.start_offset.units() == 0
    &&& looper.end_offset.units() == ONE
    &&& looper.length > 0
}

/// The looper after `count` frames in which nothing but the frames' ends
/// happened.
pub open spec fn after_ticks<S>(looper: LooperView<S>, count: nat) -> LooperView<S>
    decreases count,
{
    if count == 0 {
        looper
    } else {
        after_ticks(looper, (count - 1) as nat).after_process()
    }
}

/// A loop that plays plainly from a whole sample stands, one frame later, on
/// the next sample, and after the last sample on the first.
pub proof fn lemma_plain_step<S>(looper: LooperView<S>, sample: int)
    requires
        plays_plainly(looper),
        0 <= sample < looper.length,
        looper.cursor == sample * ONE as int,
    ensures
        plays_plainly(looper.after_process()),
        looper.after_process().cursor == ((sample + 1) % (looper.length as int)) * ONE as int,
        looper.after_process().clip == looper.clip,
        looper.after_process().length == looper.length,
        0 <= (sample + 1) % (looper.length as int) < looper.length,
{
    let one = ONE as int;
    let length = looper.length as int;
    let end = looper.end_units();
    let moved = looper.cursor + looper.speed.units();
    assert(end == length * one) by (nonlinear_arith)
        requires
            end == one * length,
    ;
    assert(moved == (sample + 1) * one) by (nonlinear_arith)
        requires
            moved == sample * one + one,
    ;
    assert(looper.start_units() == 0) by (nonlinear_arith)
        requires
            looper.start_units() == 0 * length,
    ;
    assert(moved > 0) by (nonlinear_arith)
        requires
            moved == (sample + 1) * one,
            sample >= 0,
            one > 0,
    ;
    if sample + 1 < length {
        assert(moved < end) by (nonlinear_arith)
            requires
                moved == (sample + 1) * one,
                end == length * one,
                sample + 1 < length,
                one > 0,
        ;
        vstd::arithmetic::div_mod::lemma_small_mod(moved as nat, end as nat);
        vstd::arithmetic::div_mod::lemma_small_mod((sample + 1) as nat, length as nat);
    } else {
        vstd::arithmetic::div_mod::lemma_mod_self_0(end);
        vstd::arithmetic::div_mod::lemma_mod_self_0(length);
        vstd::arithmetic::div_mod::lemma_small_mod(0, end as nat);
    }
}

/// A loop that plays plainly is periodic: `count` frames after it stood on a
/// sample it stands on the sample `count` further on in the ring, and what
/// it contributes to the output there is that sample of the clip, with the
/// next one beside it at no weight.
pub proof fn lemma_playback_is_periodic<S>(looper: LooperView<S>, sample: int, count: nat)
    requires
        plays_plainly(looper),
        0 <= sample < looper.length,
        looper.cursor == sample * ONE as int,
    ensures
        plays_plainly(after_ticks(looper, count)),
        after_ticks(looper, count).clip == looper.clip,
        after_ticks(looper, count).length == looper.length,
        after_ticks(looper, count).cursor == ((sample + count) % (looper.length as int))
            * ONE as int,
        after_ticks(looper, count).playhead() == (sample + count) % (looper.length as int),
        forall|channel: int|
            0 <= channel < looper.clip.len() ==> #[trigger] after_ticks(
                looper,
                count,
            ).loop_output(channel) == (crate::looper_state::LoopOutput::Interpolated {
                first: looper.clip[channel][(sample + count) % (looper.length as int)],
                second: looper.clip[channel][(sample + count + 1) % (looper.length as int)],
                weight: crate::fixed::Fraction::of_units(0),
            }),
    decreases count,
{
    let length = looper.length as int;
    if count == 0 {
        vstd::arithmetic::div_mod::lemma_small_mod(sample as nat, length as nat);
    } else {
        let before = after_ticks(looper, (count - 1) as nat);
        lemma_playback_is_periodic(looper, sample, (count - 1) as nat);
        let place = (sample + count - 1) % length;
        lemma_plain_step(before, place);
        vstd::arithmetic::div_mod::lemma_add_mod_noop(sample + count - 1, 1, length);
    }
    let place = (sample + count) % length;
    vstd::arithmetic::div_mod::lemma_small_mod(place as nat, length as nat);
    vstd::arithmetic::div_mod::lemma_add_mod_noop(sample + count, 1, length);
    if length != 1 {
        vstd::arithmetic::div_mod::lemma_small_mod(1, length as nat);
    }
}

/// Clearing empties the looper whatever state it is in, and an empty looper
/// is as it was after it is cleared again.
pub proof fn lemma_clear_empties<S>(looper: LooperView<S>)
    requires
        looper.wf(),
    ensures
        looper.clear().wf(),
        looper.clear().state == LooperState::Empty,
        looper.clear().length == 0,
        looper.state == LooperState::Empty ==> looper.clear() == looper,
        looper.clear().clear() == looper.clear(),
{
}

/// The looper after the first `upto` channels of `frame` were processed.
pub open spec fn captured<S>(looper: LooperView<S>, frame: Seq<S>, upto: nat) -> LooperView<S>
    decreases upto,
{
    if upto == 0 {
        looper
    } else {
        captured(looper, frame, (upto - 1) as nat).process(upto - 1, frame[upto - 1])
    }
}

/// The looper after `frame`, one sample per channel, was processed and the
/// frame closed.
pub open spec fn after_frame<S>(looper: LooperView<S>, frame: Seq<S>) -> LooperView<S> {
    captured(looper, frame, frame.len()).after_process()
}

/// The looper after `frames` were processed, one after the other.
pub open spec fn after_frames<S>(looper: LooperView<S>, frames: Seq<Seq<S>>) -> LooperView<S>
    decreases frames.len(),
{
    if frames.len() == 0 {
        looper
    } else {
        after_frame(after_frames(looper, frames.drop_last()), frames.last())
    }
}

/// Two frames less than the capacity apart land in different slots of the
/// scratch pad.
pub proof fn lemma_slots_distinct(start: int, earlier: int, later: int, ring: int)
    requires
        0 <= start,
        0 <= earlier < later,
        later - earlier < ring,
    ensures
        (start + earlier) % ring != (start + later) % ring,
{
    let a = (start + earlier) % ring;
    let b = (start + later) % ring;
    let qa = (start + earlier) / ring;
    let qb = (start + later) / ring;
    vstd::arithmetic::div_mod::lemma_fundamental_div_mod(start + earlier, ring);
    vstd::arithmetic::div_mod::lemma_fundamental_div_mod(start + later, ring);
    if a == b {
        assert(later - earlier == ring * (qb - qa)) by (nonlinear_arith)
            requires
                start + earlier == ring * qa + a,
                start + later == ring * qb + b,
                a == b,
        ;
        assert(false) by (nonlinear_arith)
            requires
                later - earlier == ring * (qb - qa),
                0 < later - earlier < ring,
        ;
    }
}

/// Whether `recorded` is a recording that started at the clock value `start`
/// and holds `frames` in the scratch pad, in a pad of `num_channels` rings of
/// `ring` slots.
pub open spec fn holds_frames<S>(
    recorded: LooperView<S>,
    start: nat,
    num_channels: nat,
    ring: nat,
    frames: Seq<Seq<S>>,
) -> bool {
    &&& recorded.state == LooperState::Recording
    &&& recorded.length == frames.len()
    &&& recorded.start_cursor == start
    &&& recorded.scratch_pad.cursor == start + frames.len()
    &&& recorded.scratch_pad.channels.len() == num_channels
    &&& recorded.scratch_pad.max_len() == ring
    &&& crate::audio_buffer::rectangular(recorded.scratch_pad.channels)
    &&& forall|c: int, k: int|
        0 <= c < num_channels && 0 <= k < frames.len() ==> #[trigger] recorded.scratch_pad.channels[c][(
        start + k) % (ring as int)] == #[trigger] frames[k][c]
}

/// Processing the channels of a frame writes its samples to the slot of the
/// current frame and leaves every other slot, and all but the scratch pad,
/// as it was.
pub proof fn lemma_captured<S>(looper: LooperView<S>, frame: Seq<S>, upto: nat)
    requires
        crate::audio_buffer::rectangular(looper.scratch_pad.channels),
        upto <= frame.len(),
        frame.len() == looper.scratch_pad.channels.len(),
        looper.scratch_pad.max_len() > 0,
    ensures
        captured(looper, frame, upto) == (LooperView {
            scratch_pad: captured(looper, frame, upto).scratch_pad,
            ..looper
        }),
        captured(looper, frame, upto).scratch_pad.cursor == looper.scratch_pad.cursor,
        captured(looper, frame, upto).scratch_pad.channels.len()
            == looper.scratch_pad.channels.len(),
        captured(looper, frame, upto).scratch_pad.max_len() == looper.scratch_pad.max_len(),
        crate::audio_buffer::rectangular(captured(looper, frame, upto).scratch_pad.channels),
        forall|c: int, i: int|
            0 <= c < looper.scratch_pad.channels.len() && 0 <= i < looper.scratch_pad.max_len()
                ==> #[trigger] captured(looper, frame, upto).scratch_pad.channels[c][i] == if c
                < upto && i == looper.scratch_pad.slot(looper.scratch_pad.cursor as int) {
                frame[c]
            } else {
                looper.scratch_pad.channels[c][i]
            },
    decreases upto,
{
    if upto > 0 {
        let before = captured(looper, frame, (upto - 1) as nat);
        lemma_captured(looper, frame, (upto - 1) as nat);
        let channel = upto - 1;
        let after = before.process(channel, frame[channel]);
        let ring = looper.scratch_pad.max_len() as int;
        assert forall|c: int, i: int|
            0 <= c < looper.scratch_pad.channels.len() && 0 <= i < ring
                implies #[trigger] after.scratch_pad.channels[c][i] == if c < upto && i
            == looper.scratch_pad.slot(looper.scratch_pad.cursor as int) {
            frame[c]
        } else {
            looper.scratch_pad.channels[c][i]
        } by {
            assert(before.scratch_pad.channels[c].len() == ring);
        }
    }
}

/// A recording that holds some frames holds, one frame later, that frame
/// too.
pub proof fn lemma_frame_recorded<S>(
    recorded: LooperView<S>,
    start: nat,
    num_channels: nat,
    ring: nat,
    frames: Seq<Seq<S>>,
    frame: Seq<S>,
)
    requires
        holds_frames(recorded, start, num_channels, ring, frames),
        frames.len() < ring,
        frame.len() == num_channels,
    ensures
        holds_frames(after_frame(recorded, frame), start, num_channels, ring, frames.push(frame)),
{
    let written = captured(recorded, frame, frame.len());
    lemma_captured(recorded, frame, frame.len());
    let next = written.after_process();
    let longer = frames.push(frame);
    assert forall|c: int, k: int|
        0 <= c < num_channels && 0 <= k < longer.len()
            implies #[trigger] next.scratch_pad.channels[c][(start + k) % (ring as int)]
        == #[trigger] longer[k][c] by {
        if k < frames.len() {
            lemma_slots_distinct(start as int, k, frames.len() as int, ring as int);
        }
    }
}

/// A recording of frames, started without quantization and stopped before
/// the scratch pad is full, becomes a clip of exactly these frames: as many
/// samples as frames were processed while the looper recorded, and in each
/// channel the samples that were processed for it, in their order.
pub proof fn lemma_recording_becomes_the_clip<S>(looper: LooperView<S>, frames: Seq<Seq<S>>)
    requires
        crate::audio_buffer::rectangular(looper.scratch_pad.channels),
        looper.state == LooperState::Recording,
        looper.length == 0,
        looper.start_cursor == looper.scratch_pad.cursor,
        frames.len() <= looper.scratch_pad.max_len(),
        forall|k: int|
            0 <= k < frames.len() ==> (#[trigger] frames[k]).len()
                == looper.scratch_pad.channels.len(),
    ensures
        after_frames(looper, frames).state == LooperState::Recording,
        after_frames(looper, frames).length == frames.len(),
        after_frames(looper, frames).stop_recording_audio_thread_only() == after_frames(
            looper,
            frames,
        ).finalize(),
        !after_frames(looper, frames).must_wait() ==> after_frames(
            looper,
            frames,
        ).stop_recording_allocating_loop() == after_frames(looper, frames).finalize(),
        after_frames(looper, frames).finalize().state == LooperState::Playing,
        after_frames(looper, frames).finalize().length == frames.len(),
        after_frames(looper, frames).finalize().clip.len() == looper.scratch_pad.channels.len(),
        forall|c: int|
            0 <= c < looper.scratch_pad.channels.len() ==> (#[trigger] after_frames(
                looper,
                frames,
            ).finalize().clip[c]).len() == frames.len(),
        forall|c: int, k: int|
            0 <= c < looper.scratch_pad.channels.len() && 0 <= k < frames.len()
                ==> after_frames(looper, frames).finalize().clip[c][k] == #[trigger] frames[k][c],
{
    lemma_recorded_frames(looper, frames);
}

/// A recording that starts now holds, after some frames, these frames.
pub proof fn lemma_recorded_frames<S>(looper: LooperView<S>, frames: Seq<Seq<S>>)
    requires
        crate::audio_buffer::rectangular(looper.scratch_pad.channels),
        looper.state == LooperState::Recording,
        looper.length == 0,
        looper.start_cursor == looper.scratch_pad.cursor,
        frames.len() <= looper.scratch_pad.max_len(),
        forall|k: int|
            0 <= k < frames.len() ==> (#[trigger] frames[k]).len()
                == looper.scratch_pad.channels.len(),
    ensures
        holds_frames(
            after_frames(looper, frames),
            looper.start_cursor,
            looper.scratch_pad.channels.len(),
            looper.scratch_pad.max_len(),
            frames,
        ),
    decreases frames.len(),
{
    if frames.len() > 0 {
        let earlier = frames.drop_last();
        assert forall|k: int| 0 <= k < earlier.len() implies (#[trigger] earlier[k]).len()
            == looper.scratch_pad.channels.len() by {
            assert(earlier[k] == frames[k]);
        }
        lemma_recorded_frames(looper, earlier);
        lemma_frame_recorded(
            after_frames(looper, earlier),
            looper.start_cursor,
            looper.scratch_pad.channels.len(),
            looper.scratch_pad.max_len(),
            earlier,
            frames.last(),
        );
        assert(earlier.push(frames.last()) =~= frames);
    }
}

} // verus!
