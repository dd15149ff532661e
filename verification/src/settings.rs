//! The settings that the audio host hands to a processor before it runs.
use vstd::prelude::*;

verus! {

#[derive(Clone, Copy, Debug, PartialEq, Eq, Structural)]
pub struct AudioProcessorSettings {
    /// Samples per second.
    pub sample_rate: u32,
    pub input_channels: usize,
    pub output_channels: usize,
    pub block_size: usize,
}

impl AudioProcessorSettings {
    pub fn new(
        sample_rate: u32,
        input_channels: usize,
        output_channels: usize,
        block_size: usize,
    ) -> (settings: Self)
        ensures
            settings == (AudioProcessorSettings {
                sample_rate,
                input_channels,
                output_channels,
                block_size,
            }),
    {
        AudioProcessorSettings { sample_rate, input_channels, output_channels, block_size }
    }

    pub fn sample_rate(&self) -> (r: u32)
        ensures
            r == self.sample_rate,
    {
        self.sample_rate
    }

    pub fn input_channels(&self) -> (r: usize)
        ensures
            r == self.input_channels,
    {
        self.input_channels
    }

    pub fn output_channels(&self) -> (r: usize)
        ensures
            r == self.output_channels,
    {
        self.output_channels
    }

    pub fn block_size(&self) -> (r: usize)
        ensures
            r == self.block_size,
    {
        self.block_size
    }
}

impl Default for AudioProcessorSettings {
    /// Stereo in and out at 44.1 kHz, in blocks of 512 frames.
    fn default() -> (settings: Self)
        ensures
            settings == (AudioProcessorSettings {
                sample_rate: 44100,
                input_channels: 2,
                output_channels: 2,
                block_size: 512,
            }),
    {
        AudioProcessorSettings::new(44100, 2, 2, 512)
    }
}

} // verus!
