//! The transport: tempo, sample rate and the place the music has reached.
//!
//! The looper asks it where the music stands when a recording is to start or
//! stop on the grid, and moves it on by one sample per frame while it plays.
use vstd::prelude::*;
use crate::fixed::Fixed;

verus! {

/// The number of raw units of a beat that `position_samples` samples last at
/// `tempo` raw units of a beat per minute and `sample_rate` samples per
/// second, rounded down.
pub open spec fn beats_at(position_samples: int, tempo: int, sample_rate: int) -> int {
    (position_samples * tempo) / (60 * sample_rate)
}

/// What the transport reports at one moment.
#[derive(Clone, Copy, Debug)]
pub struct TimeInfo {
    pub tempo: Option<Fixed>,
    pub position_samples: u64,
    pub position_beats: Option<Fixed>,
}

impl TimeInfo {
    /// Beats per minute, if a tempo is known.
    pub fn tempo(&self) -> (r: Option<Fixed>)
        ensures
            r == self.tempo,
    {
        self.tempo
    }

    /// The place in samples since the start.
    pub fn position_samples(&self) -> (r: u64)
        ensures
            r == self.position_samples,
    {
        self.position_samples
    }

    /// The place in beats since the start, if it can be told.
    pub fn position_beats(&self) -> (r: Option<Fixed>)
        ensures
            r == self.position_beats,
    {
        self.position_beats
    }
}

#[derive(Clone, Copy, Debug)]
pub struct TimeInfoProviderImpl {
    pub tempo: Option<Fixed>,
    pub sample_rate: u32,
    pub position_samples: u64,
    pub playing: bool,
}

impl TimeInfoProviderImpl {
    /// The place in beats, if it can be told: with a positive tempo, a
    /// positive sample rate, and a number of beats that a `Fixed` can hold.
    pub open spec fn beats_spec(self) -> Option<Fixed> {
        match self.tempo {
            Some(tempo) => {
                let beats = beats_at(
                    self.position_samples as int,
                    tempo.units(),
                    self.sample_rate as int,
                );
                if tempo.units() > 0 && self.sample_rate > 0 && beats <= i64::MAX {
                    Some(Fixed { raw: beats as i64 })
                } else {
                    None
                }
            },
            None => None,
        }
    }

    /// What the transport reports.
    pub open spec fn time_info_spec(self) -> TimeInfo {
        TimeInfo {
            tempo: self.tempo,
            position_samples: self.position_samples,
            position_beats: self.beats_spec(),
        }
    }

    /// The transport one sample later: moved on if it plays, else as it is.
    pub open spec fn tick_spec(self) -> Self {
        if self.playing {
            TimeInfoProviderImpl {
                position_samples: (self.position_samples + 1) as u64,
                ..self
            }
        } else {
            self
        }
    }

    /// Whether the transport can move on by one sample.
    pub open spec fn can_tick(self) -> bool {
        self.playing ==> self.position_samples < u64::MAX
    }

    /// A transport at the start, stopped, that knows neither tempo nor
    /// sample rate.
    pub open spec fn new_spec() -> Self {
        TimeInfoProviderImpl { tempo: None, sample_rate: 0, position_samples: 0, playing: false }
    }

    /// A transport at the start, stopped, that knows neither tempo nor
    /// sample rate.
    pub fn new() -> (r: Self)
        ensures
            r == Self::new_spec(),
    {
        TimeInfoProviderImpl { tempo: None, sample_rate: 0, position_samples: 0, playing: false }
    }

    pub fn set_tempo(&mut self, tempo: Fixed)
        ensures
            *final(self) == (TimeInfoProviderImpl { tempo: Some(tempo), ..*old(self) }),
    {
        self.tempo = Some(tempo);
    }

    pub fn set_sample_rate(&mut self, sample_rate: u32)
        ensures
            *final(self) == (TimeInfoProviderImpl { sample_rate, ..*old(self) }),
    {
        self.sample_rate = sample_rate;
    }

    pub fn play(&mut self)
        ensures
            *final(self) == (TimeInfoProviderImpl { playing: true, ..*old(self) }),
    {
        self.playing = true;
    }

    pub fn pause(&mut self)
        ensures
            *final(self) == (TimeInfoProviderImpl { playing: false, ..*old(self) }),
    {
        self.playing = false;
    }

    /// Moves on by one sample, if the transport plays.
    pub fn tick(&mut self)
        requires
            old(self).can_tick(),
        ensures
            *final(self) == old(self).tick_spec(),
    {
        if self.playing {
            self.position_samples = self.position_samples + 1;
        }
    }

    pub fn get_time_info(&self) -> (info: TimeInfo)
        ensures
            info == self.time_info_spec(),
    {
        let position_beats: Option<Fixed> = match self.tempo {
            Some(tempo) => {
                if tempo.raw > 0 && self.sample_rate > 0 {
                    proof {
                        crate::fixed::lemma_product_bounded(
                            self.position_samples as int,
                            tempo.raw as int,
                            u64::MAX as int,
                            i64::MAX as int,
                        );
                    }
                    let covered: u128 = (self.position_samples as u128) * (tempo.raw as u128);
                    let beats: u128 = covered / (60 * (self.sample_rate as u128));
                    if beats <= 0x7fff_ffff_ffff_ffff {
                        Some(Fixed { raw: beats as i64 })
                    } else {
                        None
                    }
                } else {
                    None
                }
            },
            None => None,
        };
        TimeInfo { tempo: self.tempo, position_samples: self.position_samples, position_beats }
    }
}

} // verus!
