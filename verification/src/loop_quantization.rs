//! The quantizer: how many samples lie between a place in the music and the
//! grid line that a recording should start or stop on.
//!
//! A grid line stands at every multiple of a number of beats. The distance to
//! one, measured in beats, becomes a number of samples through the tempo and
//! the sample rate, and is rounded to the nearest sample.
use vstd::prelude::*;
use crate::fixed::{Fixed, ONE, lemma_product_bounded};

verus! {

/// How a place is snapped to the grid, and the number of beats between two
/// grid lines.
#[derive(Clone, Copy, Debug, PartialEq, Eq, Structural)]
pub enum LoopQuantizerMode {
    /// No snapping.
    Off,
    /// Forward to the next grid line.
    SnapNext { beats: u32 },
    /// To the nearer of the grid lines behind and ahead.
    SnapClosest { beats: u32 },
}

/// Where the music stands.
#[derive(Clone, Copy, Debug)]
pub struct QuantizeInput {
    /// Beats per minute.
    pub tempo: Fixed,
    /// Samples per second.
    pub sample_rate: u32,
    /// The place, in beats since the start.
    pub position_beats: Fixed,
    /// The place, in samples since the start.
    pub position_samples: usize,
}

/// The distance in raw units of a beat from `position` forward to the next
/// multiple of `grid`; zero on a grid line.
pub open spec fn units_to_next(position: int, grid: int) -> int {
    (grid - position % grid) % grid
}

/// The signed distance in raw units of a beat from `position` to the nearer
/// multiple of `grid`: back if the line behind is strictly nearer, forward
/// otherwise.
pub open spec fn units_to_closest(position: int, grid: int) -> int {
    let behind = position % grid;
    if 2 * behind < grid {
        -behind
    } else {
        grid - behind
    }
}

/// `numerator / denominator` rounded to the nearest whole number, halves away
/// from zero, for a positive denominator.
pub open spec fn rounded_quotient(numerator: int, denominator: int) -> int {
    if numerator >= 0 {
        (2 * numerator + denominator) / (2 * denominator)
    } else {
        -((2 * (-numerator) + denominator) / (2 * denominator))
    }
}

/// `x` kept within the range of a 32-bit signed number.
pub open spec fn clamp_i32(x: int) -> int {
    if x < i32::MIN as int {
        i32::MIN as int
    } else if x > i32::MAX as int {
        i32::MAX as int
    } else {
        x
    }
}

/// The number of samples that `distance` raw units of a beat last at `tempo`
/// raw units of a beat per minute and `sample_rate` samples per second.
pub open spec fn samples_in(distance: int, tempo: int, sample_rate: int) -> int {
    clamp_i32(rounded_quotient(distance * sample_rate * 60, tempo))
}

/// The offset in samples that `mode` asks for at `input`, if the grid exists:
/// none without snapping, without beats between the grid lines, or without a
/// positive tempo.
pub open spec fn quantized_offset(mode: LoopQuantizerMode, input: QuantizeInput) -> Option<int> {
    match mode {
        LoopQuantizerMode::Off => None,
        LoopQuantizerMode::SnapNext { beats } => if beats == 0 || input.tempo.units() <= 0 {
            None
        } else {
            Some(
                samples_in(
                    units_to_next(input.position_beats.units(), beats as int * ONE as int),
                    input.tempo.units(),
                    input.sample_rate as int,
                ),
            )
        },
        LoopQuantizerMode::SnapClosest { beats } => if beats == 0 || input.tempo.units() <= 0 {
            None
        } else {
            Some(
                samples_in(
                    units_to_closest(input.position_beats.units(), beats as int * ONE as int),
                    input.tempo.units(),
                    input.sample_rate as int,
                ),
            )
        },
    }
}

/// How far `position` lies past the last multiple of `grid` at or before it,
/// told from its size and its sign alone.
pub proof fn lemma_behind_from_magnitude(position: int, grid: int)
    requires
        0 < grid,
    ensures
        position < 0 ==> position % grid == if (-position) % grid == 0 {
            0
        } else {
            grid - (-position) % grid
        },
        0 <= position % grid < grid,
{
    if position < 0 {
        let q = (-position) / grid;
        let r = (-position) % grid;
        vstd::arithmetic::div_mod::lemma_fundamental_div_mod(-position, grid);
        if r == 0 {
            assert(position == (-q) * grid + 0) by (nonlinear_arith)
                requires
                    -position == grid * q + r,
                    r == 0,
            ;
            vstd::arithmetic::div_mod::lemma_fundamental_div_mod_converse(position, grid, -q, 0);
        } else {
            assert(position == (-q - 1) * grid + (grid - r)) by (nonlinear_arith)
                requires
                    -position == grid * q + r,
            ;
            vstd::arithmetic::div_mod::lemma_fundamental_div_mod_converse(
                position,
                grid,
                -q - 1,
                grid - r,
            );
        }
    }
}

/// The forward distance to the grid lies within one grid step, and so does
/// the distance to the nearer line, in size.
pub proof fn lemma_grid_distance_bounds(position: int, grid: int)
    requires
        0 < grid,
    ensures
        0 <= units_to_next(position, grid) < grid,
        -grid < units_to_closest(position, grid) <= grid,
        units_to_next(position, grid) == if position % grid == 0 {
            0
        } else {
            grid - position % grid
        },
{
    let behind = position % grid;
    if behind == 0 {
        vstd::arithmetic::div_mod::lemma_mod_self_0(grid);
    } else {
        vstd::arithmetic::div_mod::lemma_small_mod((grid - behind) as nat, grid as nat);
    }
}

/// Both snaps land on the grid, and the nearer line is no further away than
/// the next one.
pub proof fn lemma_snap_lands_on_grid(position: int, grid: int)
    requires
        0 < grid,
    ensures
        (position + units_to_next(position, grid)) % grid == 0,
        (position + units_to_closest(position, grid)) % grid == 0,
        units_to_closest(position, grid) == units_to_next(position, grid)
            || units_to_closest(position, grid) == units_to_next(position, grid) - grid,
        -units_to_closest(position, grid) <= units_to_next(position, grid),
        units_to_closest(position, grid) <= units_to_next(position, grid),
        2 * units_to_closest(position, grid) <= grid,
        -grid < 2 * units_to_closest(position, grid),
{
    let behind = position % grid;
    let q = position / grid;
    lemma_grid_distance_bounds(position, grid);
    vstd::arithmetic::div_mod::lemma_fundamental_div_mod(position, grid);
    assert(position - behind == q * grid + 0) by (nonlinear_arith)
        requires
            position == grid * q + behind,
    ;
    vstd::arithmetic::div_mod::lemma_fundamental_div_mod_converse(position - behind, grid, q, 0);
    assert(position - behind + grid == (q + 1) * grid + 0) by (nonlinear_arith)
        requires
            position == grid * q + behind,
    ;
    vstd::arithmetic::div_mod::lemma_fundamental_div_mod_converse(
        position - behind + grid,
        grid,
        q + 1,
        0,
    );
}

/// Snapping forward never asks to go back.
pub proof fn lemma_snap_next_is_forward(beats: u32, input: QuantizeInput)
    requires
        beats > 0,
        input.tempo.units() > 0,
    ensures
        quantized_offset(LoopQuantizerMode::SnapNext { beats }, input) matches Some(offset)
            && offset >= 0,
{
    let grid = beats as int * ONE as int;
    assert(grid > 0) by (nonlinear_arith)
        requires
            grid == beats as int * ONE as int,
            beats > 0,
    ;
    let distance = units_to_next(input.position_beats.units(), grid);
    let numerator = distance * input.sample_rate as int * 60;
    assert(numerator >= 0) by (nonlinear_arith)
        requires
            distance >= 0,
            input.sample_rate >= 0,
            numerator == distance * input.sample_rate as int * 60,
    ;
    let tempo = input.tempo.units();
    assert((2 * numerator + tempo) / (2 * tempo) >= 0) by (nonlinear_arith)
        requires
            numerator >= 0,
            tempo > 0,
    ;
}

pub struct LoopQuantizer {
    mode: LoopQuantizerMode,
}

impl LoopQuantizer {
    pub closed spec fn mode_spec(&self) -> LoopQuantizerMode {
        self.mode
    }

    pub fn new(mode: LoopQuantizerMode) -> (quantizer: Self)
        ensures
            quantizer.mode_spec() == mode,
    {
        LoopQuantizer { mode }
    }

    pub fn mode(&self) -> (mode: LoopQuantizerMode)
        ensures
            mode == self.mode_spec(),
    {
        self.mode
    }

    /// The offset in samples from the place that `input` names to the grid
    /// line that the mode picks.
    pub fn quantize(&self, input: QuantizeInput) -> (offset: Option<i32>)
        ensures
            offset is Some <==> quantized_offset(self.mode_spec(), input) is Some,
            offset matches Some(samples) ==> quantized_offset(self.mode_spec(), input) == Some(
                samples as int,
            ),
    {
        match self.mode {
            LoopQuantizerMode::Off => None,
            LoopQuantizerMode::SnapNext { beats } => {
                if beats == 0 || input.tempo.raw <= 0 {
                    return None;
                }
                let grid: u128 = grid_of(beats);
                let behind: u128 = units_behind(input.position_beats, grid);
                proof {
                    lemma_grid_distance_bounds(input.position_beats.units(), grid as int);
                }
                let ahead: u128 = if behind == 0 {
                    0
                } else {
                    grid - behind
                };
                Some(samples_of(ahead, false, input.tempo, input.sample_rate))
            },
            LoopQuantizerMode::SnapClosest { beats } => {
                if beats == 0 || input.tempo.raw <= 0 {
                    return None;
                }
                let grid: u128 = grid_of(beats);
                let behind: u128 = units_behind(input.position_beats, grid);
                if 2 * behind < grid {
                    Some(samples_of(behind, true, input.tempo, input.sample_rate))
                } else {
                    Some(samples_of(grid - behind, false, input.tempo, input.sample_rate))
                }
            },
        }
    }
}

/// The raw units of a beat between two grid lines that stand `beats` beats
/// apart.
fn grid_of(beats: u32) -> (grid: u128)
    requires
        beats > 0,
    ensures
        grid == beats as int * ONE as int,
        0 < grid <= u32::MAX as int * ONE as int,
{
    proof {
        assert(beats as int * ONE as int > 0) by (nonlinear_arith)
            requires
                beats > 0,
        ;
    }
    (beats as u128) * (ONE as u128)
}

/// How far `position` lies past the last multiple of `grid` at or before it.
fn units_behind(position: Fixed, grid: u128) -> (behind: u128)
    requires
        0 < grid <= u32::MAX as int * ONE as int,
    ensures
        behind == position.units() % (grid as int),
        behind < grid,
{
    proof {
        lemma_behind_from_magnitude(position.units(), grid as int);
    }
    if position.raw >= 0 {
        (position.raw as u128) % grid
    } else {
        let magnitude: u128 = (-(position.raw as i128)) as u128;
        let past: u128 = magnitude % grid;
        if past == 0 {
            0
        } else {
            grid - past
        }
    }
}

/// The number of samples that `magnitude` raw units of a beat last, with the
/// sign that `backward` gives it.
fn samples_of(magnitude: u128, backward: bool, tempo: Fixed, sample_rate: u32) -> (samples: i32)
    requires
        magnitude <= u32::MAX as int * ONE as int,
        tempo.units() > 0,
    ensures
        samples == samples_in(
            if backward {
                -(magnitude as int)
            } else {
                magnitude as int
            },
            tempo.units(),
            sample_rate as int,
        ),
{
    let denominator: u128 = tempo.raw as u128;
    proof {
        lemma_product_bounded(
            magnitude as int,
            sample_rate as int,
            u32::MAX as int * ONE as int,
            u32::MAX as int,
        );
    }
    let numerator: u128 = magnitude * (sample_rate as u128) * 60;
    let rounded: u128 = (2 * numerator + denominator) / (2 * denominator);
    proof {
        let distance: int = if backward {
            -(magnitude as int)
        } else {
            magnitude as int
        };
        assert(distance * sample_rate as int * 60 == if backward {
            -(numerator as int)
        } else {
            numerator as int
        }) by (nonlinear_arith)
            requires
                numerator == magnitude * sample_rate * 60,
                distance == if backward {
                    -(magnitude as int)
                } else {
                    magnitude as int
                },
        ;
        if numerator == 0 {
            assert((2 * 0 + denominator as int) / (2 * denominator as int) == 0) by (nonlinear_arith)
                requires
                    denominator > 0,
            ;
        }
    }
    if backward {
        if rounded > 0x8000_0000 {
            i32::MIN
        } else {
            (-(rounded as i64)) as i32
        }
    } else {
        if rounded > 0x7fff_ffff {
            i32::MAX
        } else {
            rounded as i32
        }
    }
}

} // verus!
