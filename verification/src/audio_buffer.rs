//! A rectangular buffer of samples: a number of channels, each of the same
//! number of samples. The library never computes on a sample; it stores,
//! copies and hands out values of whatever type the caller plays.
use vstd::prelude::*;

verus! {

/// The number of samples in each channel of `channels`.
pub open spec fn num_samples_of<S>(channels: Seq<Seq<S>>) -> nat {
    if channels.len() == 0 {
        0
    } else {
        channels[0].len()
    }
}

/// Whether all channels have the same number of samples.
pub open spec fn rectangular<S>(channels: Seq<Seq<S>>) -> bool {
    forall|c: int| 0 <= c < channels.len() ==> (#[trigger] channels[c]).len() == num_samples_of(
        channels,
    )
}

/// `num_channels` channels of `num_samples` samples, all of them `silence`.
pub open spec fn silent_channels<S>(num_channels: nat, num_samples: nat, silence: S) -> Seq<
    Seq<S>,
> {
    Seq::new(num_channels, |c: int| Seq::new(num_samples, |i: int| silence))
}

/// The channels that the frames of `samples` hold, where a frame is one
/// sample of each of `num_channels` channels and a last, incomplete frame
/// does not count.
pub open spec fn deinterleaved<S>(num_channels: nat, samples: Seq<S>) -> Seq<Seq<S>> {
    if num_channels == 0 {
        Seq::empty()
    } else {
        Seq::new(
            num_channels,
            |c: int|
                Seq::new(
                    samples.len() / num_channels,
                    |i: int| samples[i * (num_channels as int) + c],
                ),
        )
    }
}

/// The `length` samples that each channel holds from the place `start` on,
/// where each channel is read as a ring.
pub open spec fn circular_window<S>(channels: Seq<Seq<S>>, start: int, length: nat) -> Seq<
    Seq<S>,
> {
    Seq::new(
        channels.len(),
        |c: int|
            Seq::new(
                length,
                |i: int| channels[c][(start + i) % (num_samples_of(channels) as int)],
            ),
    )
}

/// The sample `i` of channel `c` in storage that holds channel after channel,
/// each `stride` samples long.
pub open spec fn stored_at<S>(data: Seq<S>, stride: int, c: int, i: int) -> S {
    data[c * stride + i]
}

/// A place in one channel lies inside the storage of all channels.
pub proof fn lemma_place_in_storage(channel: int, place: int, num_channels: int, stride: int)
    by (nonlinear_arith)
    requires
        0 <= channel < num_channels,
        0 <= place < stride,
    ensures
        0 <= channel * stride,
        0 <= channel * stride + place < num_channels * stride,
        (channel + 1) * stride <= num_channels * stride,
        (channel + 1) * stride == channel * stride + stride,
{
}

/// Two places of the storage are the same only if channel and place agree.
pub proof fn lemma_place_unique(
    channel: int,
    place: int,
    other_channel: int,
    other_place: int,
    stride: int,
)
    by (nonlinear_arith)
    requires
        0 <= place < stride,
        0 <= other_place < stride,
        0 <= channel,
        0 <= other_channel,
        channel * stride + place == other_channel * stride + other_place,
    ensures
        channel == other_channel,
        place == other_place,
{
}

/// The slot of a ring of `ring` places that lies `offset` places past the
/// place `start`, found without leaving the range of the machine's numbers.
pub proof fn lemma_ring_index(start: int, offset: int, ring: int, index: int)
    requires
        0 <= start,
        0 <= offset < ring,
        index == if offset < ring - start % ring {
            start % ring + offset
        } else {
            offset - (ring - start % ring)
        },
    ensures
        0 <= index < ring,
        index == (start + offset) % ring,
{
    let q = start / ring;
    let r = start % ring;
    vstd::arithmetic::div_mod::lemma_fundamental_div_mod(start, ring);
    if offset < ring - r {
        assert(start + offset == q * ring + index) by (nonlinear_arith)
            requires
                start == ring * q + r,
                index == r + offset,
        ;
        vstd::arithmetic::div_mod::lemma_fundamental_div_mod_converse(
            start + offset,
            ring,
            q,
            index,
        );
    } else {
        assert(start + offset == (q + 1) * ring + index) by (nonlinear_arith)
            requires
                start == ring * q + r,
                index == offset - (ring - r),
        ;
        vstd::arithmetic::div_mod::lemma_fundamental_div_mod_converse(
            start + offset,
            ring,
            q + 1,
            index,
        );
    }
}

/// Whether `data` holds, channel after channel, the samples of `target` up
/// to but not including the sample `place` of the channel `channel`.
pub open spec fn filled_to<S>(
    data: Seq<S>,
    stride: int,
    channel: int,
    place: int,
    target: Seq<Seq<S>>,
) -> bool {
    &&& data.len() == channel * stride + place
    &&& forall|c: int, i: int|
        0 <= c && 0 <= i < stride && (c < channel || (c == channel && i < place))
            ==> #[trigger] stored_at(data, stride, c, i) == target[c][i]
}

/// Storage that is filled up to a place is, with the sample of that place
/// appended, filled up to the next place.
pub proof fn lemma_filled_push<S>(
    data: Seq<S>,
    stride: int,
    channel: int,
    place: int,
    target: Seq<Seq<S>>,
    value: S,
)
    requires
        0 <= channel,
        0 <= place < stride,
        filled_to(data, stride, channel, place, target),
        value == target[channel][place],
    ensures
        filled_to(data.push(value), stride, channel, place + 1, target),
{
    let after = data.push(value);
    assert forall|c: int, i: int|
        0 <= c && 0 <= i < stride && (c < channel || (c == channel && i < place + 1))
            implies #[trigger] stored_at(after, stride, c, i) == target[c][i] by {
        if c != channel || i != place {
            assert(stored_at(data, stride, c, i) == target[c][i]);
            if c < channel {
                lemma_place_in_storage(c, i, channel, stride);
            }
        }
    }
}

/// Storage that is filled up to the end of a channel is filled up to the
/// start of the next one.
pub proof fn lemma_filled_next_channel<S>(
    data: Seq<S>,
    stride: int,
    channel: int,
    target: Seq<Seq<S>>,
)
    requires
        0 <= channel,
        0 <= stride,
        filled_to(data, stride, channel, stride, target),
    ensures
        filled_to(data, stride, channel + 1, 0, target),
{
    assert((channel + 1) * stride + 0 == channel * stride + stride) by (nonlinear_arith);
}

/// `Vec::capacity`: the number of elements that the vector can hold without
/// allocating again, which is at least its length.
#[verifier::external_body]
fn vec_capacity<S>(data: &Vec<S>) -> (capacity: usize)
    ensures
        capacity >= data@.len(),
{
    data.capacity()
}

pub struct VecAudioBuffer<S> {
    /// Channel after channel, each `num_samples` samples long.
    data: Vec<S>,
    num_channels: usize,
    num_samples: usize,
}

impl<S> View for VecAudioBuffer<S> {
    type V = Seq<Seq<S>>;

    closed spec fn view(&self) -> Seq<Seq<S>> {
        Seq::new(
            self.num_channels as nat,
            |c: int|
                Seq::new(
                    self.num_samples as nat,
                    |i: int| stored_at(self.data@, self.num_samples as int, c, i),
                ),
        )
    }
}

impl<S: Copy> VecAudioBuffer<S> {
    /// Whether the storage has the size that the two dimensions call for.
    pub closed spec fn wf(&self) -> bool {
        &&& self.data@.len() == self.num_channels * self.num_samples
        &&& self.num_channels == 0 ==> self.num_samples == 0
    }

    /// A well-formed buffer is a rectangle whose sides fit the machine.
    pub proof fn lemma_view_shape(&self)
        requires
            self.wf(),
        ensures
            rectangular(self@),
            self@.len() <= usize::MAX,
            num_samples_of(self@) <= usize::MAX,
            self@.len() * num_samples_of(self@) <= usize::MAX,
    {
        assert(self.data@.len() <= usize::MAX) by {
            vstd::std_specs::vec::axiom_spec_len(&self.data);
        }
    }

    /// A buffer without channels.
    pub fn new() -> (buffer: Self)
        ensures
            buffer.wf(),
            buffer@.len() == 0,
    {
        VecAudioBuffer { data: Vec::new(), num_channels: 0, num_samples: 0 }
    }

    /// Storage that is filled with all of `target` shows as `target`.
    proof fn lemma_filled_view(&self, target: Seq<Seq<S>>)
        requires
            filled_to(
                self.data@,
                self.num_samples as int,
                self.num_channels as int,
                0,
                target,
            ),
            target.len() == self.num_channels,
            forall|c: int| 0 <= c < target.len() ==> (#[trigger] target[c]).len() == self.num_samples,
            self.num_channels == 0 ==> self.num_samples == 0,
        ensures
            self.wf(),
            self@ == target,
    {
        assert forall|c: int, i: int|
            0 <= c < self.num_channels && 0 <= i < self.num_samples implies #[trigger] self@[c][i]
            == target[c][i] by {
            assert(stored_at(self.data@, self.num_samples as int, c, i) == target[c][i]);
        }
        assert(self@ =~~= target);
    }

    /// A buffer of `num_channels` channels of `num_samples` samples, all of
    /// them `silence`.
    pub fn silent(num_channels: usize, num_samples: usize, silence: S) -> (buffer: Self)
        requires
            num_channels * num_samples <= usize::MAX,
        ensures
            buffer.wf(),
            buffer@ == silent_channels(num_channels as nat, num_samples as nat, silence),
    {
        if num_channels == 0 {
            let buffer = VecAudioBuffer { data: Vec::new(), num_channels: 0, num_samples: 0 };
            assert(buffer@ =~~= silent_channels(0, num_samples as nat, silence));
            return buffer;
        }
        let ghost target = silent_channels(num_channels as nat, num_samples as nat, silence);
        let mut data: Vec<S> = Vec::with_capacity(num_channels * num_samples);
        let mut channel: usize = 0;
        while channel < num_channels
            invariant
                channel <= num_channels,
                target == silent_channels(num_channels as nat, num_samples as nat, silence),
                filled_to(data@, num_samples as int, channel as int, 0, target),
            decreases num_channels - channel,
        {
            let mut place: usize = 0;
            while place < num_samples
                invariant
                    channel < num_channels,
                    place <= num_samples,
                    target == silent_channels(num_channels as nat, num_samples as nat, silence),
                    filled_to(data@, num_samples as int, channel as int, place as int, target),
                decreases num_samples - place,
            {
                proof {
                    lemma_filled_push(
                        data@,
                        num_samples as int,
                        channel as int,
                        place as int,
                        target,
                        silence,
                    );
                }
                data.push(silence);
                place = place + 1;
            }
            proof {
                lemma_filled_next_channel(data@, num_samples as int, channel as int, target);
            }
            channel = channel + 1;
        }
        let buffer = VecAudioBuffer { data, num_channels, num_samples };
        proof {
            buffer.lemma_filled_view(target);
        }
        buffer
    }

    /// Puts `value` in the place of every sample.
    pub fn fill(&mut self, value: S)
        requires
            old(self).wf(),
        ensures
            final(self).wf(),
            final(self)@ == silent_channels(
                old(self)@.len(),
                num_samples_of(old(self)@),
                value,
            ),
    {
        let stored: usize = self.data.len();
        let mut place: usize = 0;
        while place < stored
            invariant
                place <= stored,
                stored == self.data@.len(),
                self.num_channels == old(self).num_channels,
                self.num_samples == old(self).num_samples,
                self.wf(),
                forall|k: int| 0 <= k < place ==> self.data@[k] == value,
            decreases stored - place,
        {
            self.data.set(place, value);
            place = place + 1;
        }
        proof {
            let target = silent_channels(
                self.num_channels as nat,
                self.num_samples as nat,
                value,
            );
            assert forall|c: int, i: int|
                0 <= c < self.num_channels && 0 <= i < self.num_samples implies #[trigger] self@[c][i]
                == target[c][i] by {
                lemma_place_in_storage(c, i, self.num_channels as int, self.num_samples as int);
            }
            assert(self@ =~~= target);
        }
    }

    /// The buffer that the frames of `samples` hold, where a frame is one
    /// sample of each of `num_channels` channels.
    pub fn from_interleaved(num_channels: usize, samples: &[S]) -> (buffer: Self)
        ensures
            buffer.wf(),
            buffer@ == deinterleaved(num_channels as nat, samples@),
    {
        if num_channels == 0 {
            let buffer = VecAudioBuffer { data: Vec::new(), num_channels: 0, num_samples: 0 };
            assert(buffer@ =~~= deinterleaved(0, samples@));
            return buffer;
        }
        let available: usize = samples.len();
        let num_samples: usize = available / num_channels;
        let ghost target = deinterleaved(num_channels as nat, samples@);
        proof {
            vstd::arithmetic::div_mod::lemma_fundamental_div_mod(
                samples@.len() as int,
                num_channels as int,
            );
            assert(num_channels * num_samples == num_samples * num_channels) by (nonlinear_arith);
        }
        let mut data: Vec<S> = Vec::with_capacity(num_channels * num_samples);
        let mut channel: usize = 0;
        while channel < num_channels
            invariant
                channel <= num_channels,
                available == samples@.len(),
                num_samples == samples@.len() / (num_channels as nat),
                num_samples * num_channels <= samples@.len(),
                target == deinterleaved(num_channels as nat, samples@),
                filled_to(data@, num_samples as int, channel as int, 0, target),
            decreases num_channels - channel,
        {
            let mut place: usize = 0;
            while place < num_samples
                invariant
                    channel < num_channels,
                    place <= num_samples,
                    available == samples@.len(),
                    num_samples == samples@.len() / (num_channels as nat),
                    num_samples * num_channels <= samples@.len(),
                    target == deinterleaved(num_channels as nat, samples@),
                    filled_to(data@, num_samples as int, channel as int, place as int, target),
                decreases num_samples - place,
            {
                proof {
                    lemma_place_in_storage(
                        place as int,
                        channel as int,
                        num_samples as int,
                        num_channels as int,
                    );
                }
                let value: S = samples[place * num_channels + channel];
                proof {
                    lemma_filled_push(
                        data@,
                        num_samples as int,
                        channel as int,
                        place as int,
                        target,
                        value,
                    );
                }
                data.push(value);
                place = place + 1;
            }
            proof {
                lemma_filled_next_channel(data@, num_samples as int, channel as int, target);
            }
            channel = channel + 1;
        }
        let buffer = VecAudioBuffer { data, num_channels, num_samples };
        proof {
            buffer.lemma_filled_view(target);
        }
        buffer
    }

    /// Makes this buffer the `length` samples that each channel of `source`
    /// holds from the place `start` on, where each channel of `source` is
    /// read as a ring. Storage that this buffer already has is used again.
    pub fn copy_window(&mut self, source: &VecAudioBuffer<S>, start: usize, length: usize)
        requires
            source.wf(),
            length <= num_samples_of(source@),
        ensures
            final(self).wf(),
            final(self)@ == circular_window(source@, start as int, length as nat),
    {
        let num_channels: usize = source.num_channels;
        let ring: usize = source.num_samples;
        let ghost target = circular_window(source@, start as int, length as nat);
        self.data.clear();
        self.num_channels = num_channels;
        self.num_samples = length;
        if length == 0 {
            proof {
                assert(self@ =~~= target);
            }
            return ;
        }
        let first: usize = start % ring;
        let mut channel: usize = 0;
        while channel < num_channels
            invariant
                channel <= num_channels,
                source.wf(),
                num_channels == source.num_channels,
                ring == source.num_samples,
                ring == num_samples_of(source@),
                0 < length <= ring,
                first == start % ring,
                self.num_channels == num_channels,
                self.num_samples == length,
                target == circular_window(source@, start as int, length as nat),
                filled_to(self.data@, length as int, channel as int, 0, target),
            decreases num_channels - channel,
        {
            let mut place: usize = 0;
            while place < length
                invariant
                    channel < num_channels,
                    place <= length,
                    source.wf(),
                    num_channels == source.num_channels,
                    ring == source.num_samples,
                    ring == num_samples_of(source@),
                    0 < length <= ring,
                    first == start % ring,
                    self.num_channels == num_channels,
                    self.num_samples == length,
                    target == circular_window(source@, start as int, length as nat),
                    filled_to(self.data@, length as int, channel as int, place as int, target),
                decreases length - place,
            {
                let index: usize = if place < ring - first {
                    first + place
                } else {
                    place - (ring - first)
                };
                proof {
                    lemma_ring_index(start as int, place as int, ring as int, index as int);
                }
                let value: S = source.get(channel, index);
                proof {
                    lemma_filled_push(
                        self.data@,
                        length as int,
                        channel as int,
                        place as int,
                        target,
                        value,
                    );
                }
                self.data.push(value);
                place = place + 1;
            }
            proof {
                lemma_filled_next_channel(self.data@, length as int, channel as int, target);
            }
            channel = channel + 1;
        }
        proof {
            self.lemma_filled_view(target);
        }
    }

    /// The number of samples that the buffer has storage for. While a
    /// buffer is filled again with no more than this, it keeps its storage.
    pub fn capacity(&self) -> (capacity: usize)
        requires
            self.wf(),
        ensures
            capacity >= self@.len() * num_samples_of(self@),
    {
        proof {
            self.lemma_view_shape();
        }
        vec_capacity(&self.data)
    }

    /// A buffer without channels that has storage for `capacity` samples.
    pub fn with_capacity(capacity: usize) -> (buffer: Self)
        ensures
            buffer.wf(),
            buffer@.len() == 0,
    {
        VecAudioBuffer { data: Vec::with_capacity(capacity), num_channels: 0, num_samples: 0 }
    }

    /// Makes sure that the buffer has storage for `total` samples. What it
    /// holds stays as it is.
    pub fn reserve(&mut self, total: usize)
        requires
            old(self).wf(),
        ensures
            final(self).wf(),
            final(self)@ == old(self)@,
    {
        let held: usize = self.data.len();
        if total > held {
            self.data.reserve(total - held);
        }
        proof {
            assert(self@ =~~= old(self)@);
        }
    }

    pub fn num_channels(&self) -> (r: usize)
        ensures
            r == self@.len(),
    {
        self.num_channels
    }

    pub fn num_samples(&self) -> (r: usize)
        requires
            self.wf(),
        ensures
            r == num_samples_of(self@),
    {
        self.num_samples
    }

    /// The sample `index` of `channel`.
    pub fn get(&self, channel: usize, index: usize) -> (sample: S)
        requires
            self.wf(),
            channel < self@.len(),
            index < num_samples_of(self@),
        ensures
            sample == self@[channel as int][index as int],
    {
        proof {
            lemma_place_in_storage(
                channel as int,
                index as int,
                self.num_channels as int,
                self.num_samples as int,
            );
        }
        let stored: usize = self.data.len();
        assert(channel * self.num_samples + index < stored);
        self.data[channel * self.num_samples + index]
    }

    /// Puts `value` in the place of the sample `index` of `channel`.
    pub fn set(&mut self, channel: usize, index: usize, value: S)
        requires
            old(self).wf(),
            channel < old(self)@.len(),
            index < num_samples_of(old(self)@),
        ensures
            final(self).wf(),
            final(self)@ == old(self)@.update(
                channel as int,
                old(self)@[channel as int].update(index as int, value),
            ),
    {
        proof {
            lemma_place_in_storage(
                channel as int,
                index as int,
                self.num_channels as int,
                self.num_samples as int,
            );
        }
        let stored: usize = self.data.len();
        assert(channel * self.num_samples + index < stored);
        let place: usize = channel * self.num_samples + index;
        self.data.set(place, value);
        proof {
            let stride = self.num_samples as int;
            let after = old(self)@.update(
                channel as int,
                old(self)@[channel as int].update(index as int, value),
            );
            assert forall|c: int, i: int|
                0 <= c < self.num_channels && 0 <= i < stride implies #[trigger] self@[c][i]
                == after[c][i] by {
                lemma_place_in_storage(c, i, self.num_channels as int, stride);
                if c * stride + i == place as int {
                    lemma_place_unique(c, i, channel as int, index as int, stride);
                }
            }
            assert(self@ =~~= after);
        }
    }
}

} // verus!
