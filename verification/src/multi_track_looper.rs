//! Several loopers that play to one transport.
use vstd::prelude::*;
use crate::handle::LooperHandle;
use crate::looper_state::{LooperOptions, LooperView};
use crate::time_info_provider::TimeInfoProviderImpl;

verus! {

/// The place of a voice among the voices.
pub struct LooperId(pub usize);

/// One voice: a looper.
pub struct LooperVoice<S> {
    looper_handle: LooperHandle<S>,
}

impl<S: Copy> LooperVoice<S> {
    pub closed spec fn looper_spec(&self) -> LooperHandle<S> {
        self.looper_handle
    }

    pub fn looper(&self) -> (looper: &LooperHandle<S>)
        ensures
            *looper == self.looper_spec(),
    {
        &self.looper_handle
    }
}

/// The loopers of all voices, as mathematical values, and the transport
/// they share.
pub struct MultiTrackLooperView<S> {
    pub voices: Seq<LooperView<S>>,
    pub time: TimeInfoProviderImpl,
}

impl<S> MultiTrackLooperView<S> {
    /// The voices after the voice `id` looked at the shared transport, did
    /// `operation`, and the transport took over what the voice did to it.
    /// Without a voice `id` nothing changes.
    pub open spec fn apply(self, id: int, operation: spec_fn(LooperView<S>) -> LooperView<S>) -> Self {
        if 0 <= id < self.voices.len() {
            let voice = operation(LooperView { time: self.time, ..self.voices[id] });
            MultiTrackLooperView { voices: self.voices.update(id, voice), time: voice.time }
        } else {
            self
        }
    }

    pub open spec fn start_recording(self, id: int) -> Self {
        self.apply(id, |voice: LooperView<S>| voice.start_recording())
    }

    pub open spec fn toggle_playback(self, id: int) -> Self {
        self.apply(id, |voice: LooperView<S>| voice.toggle_playback())
    }

    pub open spec fn clear(self, id: int) -> Self {
        self.apply(id, |voice: LooperView<S>| voice.clear())
    }
}

/// A voice as it is made: a looper as it is made, but for this, that it
/// follows the shared transport and does not drive it.
pub open spec fn initial_voice<S>(options: LooperOptions, silence: S) -> LooperView<S> {
    LooperView {
        tick_time: false,
        ..LooperView::initial(options, TimeInfoProviderImpl::new_spec(), silence)
    }
}

pub struct MultiTrackLooperHandle<S> {
    voices: Vec<LooperVoice<S>>,
    time_info_provider: TimeInfoProviderImpl,
}

impl<S> View for MultiTrackLooperHandle<S> {
    type V = MultiTrackLooperView<S>;

    closed spec fn view(&self) -> MultiTrackLooperView<S> {
        MultiTrackLooperView {
            voices: Seq::new(self.voices@.len(), |i: int| self.voices@[i].looper_handle@),
            time: self.time_info_provider,
        }
    }
}

impl<S: Copy> MultiTrackLooperHandle<S> {
    /// Whether every voice is well formed.
    pub closed spec fn wf(&self) -> bool {
        forall|i: int| 0 <= i < self.voices@.len() ==> (#[trigger] self.voices@[i]).looper_handle.wf()
    }

    /// `num_voices` loopers with `options`, each as it is made, that follow
    /// one transport, which none of them drives.
    pub fn new(options: LooperOptions, num_voices: usize, silence: S) -> (handle: Self)
        ensures
            handle.wf(),
            handle@.voices.len() == num_voices,
            handle@.time == TimeInfoProviderImpl::new_spec(),
            forall|i: int|
                0 <= i < num_voices ==> #[trigger] handle@.voices[i] == initial_voice(
                    options,
                    silence,
                ),
    {
        let time_info_provider = TimeInfoProviderImpl::new();
        let mut voices: Vec<LooperVoice<S>> = Vec::new();
        let mut made: usize = 0;
        while made < num_voices
            invariant
                made <= num_voices,
                voices@.len() == made,
                time_info_provider == TimeInfoProviderImpl::new_spec(),
                forall|i: int|
                    0 <= i < made ==> {
                        &&& (#[trigger] voices@[i]).looper_handle.wf()
                        &&& voices@[i].looper_handle@ == initial_voice(options, silence)
                    },
            decreases num_voices - made,
        {
            let mut looper_handle = LooperHandle::new(options, time_info_provider, silence);
            looper_handle.set_tick_time(false);
            voices.push(LooperVoice { looper_handle });
            made = made + 1;
        }
        MultiTrackLooperHandle { voices, time_info_provider }
    }

    pub fn start_recording(&mut self, looper_id: LooperId)
        requires
            old(self).wf(),
        ensures
            final(self).wf(),
            final(self)@ == old(self)@.start_recording(looper_id.0 as int),
    {
        if looper_id.0 < self.voices.len() {
            let voice = &mut self.voices[looper_id.0];
            voice.looper_handle.set_time_info_provider(self.time_info_provider);
            voice.looper_handle.start_recording();
            self.time_info_provider = *voice.looper_handle.time_info_provider();
            proof {
                assert(self@.voices =~= old(self)@.start_recording(looper_id.0 as int).voices);
            }
        }
    }

    pub fn toggle_playback(&mut self, looper_id: LooperId)
        requires
            old(self).wf(),
        ensures
            final(self).wf(),
            final(self)@ == old(self)@.toggle_playback(looper_id.0 as int),
    {
        if looper_id.0 < self.voices.len() {
            let voice = &mut self.voices[looper_id.0];
            voice.looper_handle.set_time_info_provider(self.time_info_provider);
            voice.looper_handle.toggle_playback();
            self.time_info_provider = *voice.looper_handle.time_info_provider();
            proof {
                assert(self@.voices =~= old(self)@.toggle_playback(looper_id.0 as int).voices);
            }
        }
    }

    pub fn clear(&mut self, looper_id: LooperId)
        requires
            old(self).wf(),
        ensures
            final(self).wf(),
            final(self)@ == old(self)@.clear(looper_id.0 as int),
    {
        if looper_id.0 < self.voices.len() {
            let voice = &mut self.voices[looper_id.0];
            voice.looper_handle.set_time_info_provider(self.time_info_provider);
            voice.looper_handle.clear();
            self.time_info_provider = *voice.looper_handle.time_info_provider();
            proof {
                assert(self@.voices =~= old(self)@.clear(looper_id.0 as int).voices);
            }
        }
    }

    pub fn voices(&self) -> (voices: &Vec<LooperVoice<S>>)
        requires
            self.wf(),
        ensures
            voices@.len() == self@.voices.len(),
            forall|i: int|
                0 <= i < voices@.len() ==> (#[trigger] voices@[i]).looper_spec().wf()
                    && voices@[i].looper_spec()@ == self@.voices[i],
    {
        &self.voices
    }

    /// The voice `looper_id`, if there is one.
    pub fn get(&self, looper_id: LooperId) -> (voice: Option<&LooperVoice<S>>)
        requires
            self.wf(),
        ensures
            voice is Some <==> looper_id.0 < self@.voices.len(),
            voice matches Some(found) ==> found.looper_spec().wf() && found.looper_spec()@
                == self@.voices[looper_id.0 as int],
    {
        if looper_id.0 < self.voices.len() {
            Some(&self.voices[looper_id.0])
        } else {
            None
        }
    }

    /// The transport that the voices share.
    pub fn time_info_provider(&self) -> (r: &TimeInfoProviderImpl)
        ensures
            *r == self@.time,
    {
        &self.time_info_provider
    }
}

/// A looper of several voices.
pub struct MultiTrackLooper<S> {
    handle: MultiTrackLooperHandle<S>,
}

impl<S: Copy> MultiTrackLooper<S> {
    pub closed spec fn handle_spec(&self) -> MultiTrackLooperHandle<S> {
        self.handle
    }

    /// A looper of `num_voices` empty voices with `options`.
    pub fn new(options: LooperOptions, num_voices: usize, silence: S) -> (looper: Self)
        ensures
            looper.handle_spec().wf(),
            looper.handle_spec()@.voices.len() == num_voices,
            looper.handle_spec()@.time == TimeInfoProviderImpl::new_spec(),
            forall|i: int|
                0 <= i < num_voices ==> #[trigger] looper.handle_spec()@.voices[i]
                    == initial_voice(options, silence),
    {
        MultiTrackLooper { handle: MultiTrackLooperHandle::new(options, num_voices, silence) }
    }

    pub fn handle(&self) -> (handle: &MultiTrackLooperHandle<S>)
        ensures
            *handle == self.handle_spec(),
    {
        &self.handle
    }

    /// The handle, to operate the voices with.
    pub fn handle_mut(&mut self) -> (handle: &mut MultiTrackLooperHandle<S>)
        ensures
            *handle == old(self).handle_spec(),
            final(self).handle_spec() == *final(handle),
    {
        &mut self.handle
    }
}

} // verus!
