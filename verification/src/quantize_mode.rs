//! The quantization that a performer picks for a looper.
use vstd::prelude::*;
use crate::loop_quantization::LoopQuantizerMode;

verus! {

/// The number of beats between two lines of the grid that loops snap to.
pub const GRID_BEATS: u32 = 4;

#[derive(Clone, Copy, Debug, PartialEq, Eq, Structural)]
pub enum QuantizeMode {
    Off,
    SnapNext,
    SnapClosest,
}

/// The grid that `mode` asks the quantizer for.
pub open spec fn quantizer_mode_of(mode: QuantizeMode) -> LoopQuantizerMode {
    match mode {
        QuantizeMode::Off => LoopQuantizerMode::Off,
        QuantizeMode::SnapNext => LoopQuantizerMode::SnapNext { beats: GRID_BEATS },
        QuantizeMode::SnapClosest => LoopQuantizerMode::SnapClosest { beats: GRID_BEATS },
    }
}

#[derive(Clone, Copy, Debug)]
pub struct QuantizeOptions {
    mode: QuantizeMode,
}

impl QuantizeOptions {
    pub closed spec fn mode_spec(&self) -> QuantizeMode {
        self.mode
    }

    /// Options that ask for no quantization.
    pub fn new() -> (options: Self)
        ensures
            options.mode_spec() == QuantizeMode::Off,
    {
        QuantizeOptions { mode: QuantizeMode::Off }
    }

    pub fn mode(&self) -> (mode: QuantizeMode)
        ensures
            mode == self.mode_spec(),
    {
        self.mode
    }

    pub fn set_mode(&mut self, mode: QuantizeMode)
        ensures
            final(self).mode_spec() == mode,
    {
        self.mode = mode;
    }

    /// The grid to hand to the quantizer.
    pub fn inner(&self) -> (mode: LoopQuantizerMode)
        ensures
            mode == quantizer_mode_of(self.mode_spec()),
    {
        match self.mode {
            QuantizeMode::Off => LoopQuantizerMode::Off,
            QuantizeMode::SnapNext => LoopQuantizerMode::SnapNext { beats: GRID_BEATS },
            QuantizeMode::SnapClosest => LoopQuantizerMode::SnapClosest { beats: GRID_BEATS },
        }
    }
}

impl Default for QuantizeOptions {
    fn default() -> (options: Self)
        ensures
            options.mode_spec() == QuantizeMode::Off,
    {
        QuantizeOptions::new()
    }
}

} // verus!
