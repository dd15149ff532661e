//! The decisions of a metronome: on which frames it clicks, and which clicks
//! it accents.
//!
//! A click starts whenever the music stands within the first tenth of a
//! beat; the click on the first beat of a bar of four is the higher one.
use vstd::prelude::*;
use crate::fixed::{Fixed, ONE};

verus! {

/// The number of beats in a bar.
pub const BEATS_PER_BAR: u64 = 4;

/// Whether the place `position`, in raw units of a beat, lies within the
/// first tenth of a stretch of `beats` beats.
pub open spec fn at_start_of(position: int, beats: int) -> bool {
    (position % (beats * ONE as int)) * 10 < ONE as int
}

/// What the metronome does in one frame.
#[derive(Clone, Copy, Debug, PartialEq, Eq, Structural)]
pub struct MetronomeTick {
    /// Whether the click is the higher one, of the first beat of a bar.
    pub accent: bool,
    /// Whether a click starts in this frame. Otherwise the click that
    /// sounds, if one does, is released.
    pub note_on: bool,
}

/// What the metronome does in a frame in which the music stands at
/// `position`, where `playing` tells whether a click started in the frame
/// before.
pub open spec fn tick_spec(position: Fixed, playing: bool) -> MetronomeTick {
    MetronomeTick {
        accent: at_start_of(position.units(), BEATS_PER_BAR as int),
        note_on: at_start_of(position.units(), 1) && !playing,
    }
}

/// A click never starts in two frames in a row, and a click starts only at
/// the start of a beat.
pub proof fn lemma_clicks_are_apart(position: Fixed, next_position: Fixed, playing: bool)
    ensures
        tick_spec(position, playing).note_on ==> !tick_spec(
            next_position,
            tick_spec(position, playing).note_on,
        ).note_on,
        tick_spec(position, playing).note_on ==> at_start_of(position.units(), 1),
{
}

/// A place at the start of a bar is at the start of a beat: every accented
/// frame lies where a click may start.
pub proof fn lemma_accent_is_on_a_beat(position: Fixed)
    ensures
        at_start_of(position.units(), BEATS_PER_BAR as int) ==> at_start_of(position.units(), 1),
{
    let one = ONE as int;
    let p = position.units();
    let bar = BEATS_PER_BAR as int * one;
    if at_start_of(p, BEATS_PER_BAR as int) {
        let q = p / bar;
        let r = p % bar;
        vstd::arithmetic::div_mod::lemma_fundamental_div_mod(p, bar);
        assert(p == (q * 4) * one + r) by (nonlinear_arith)
            requires
                p == bar * q + r,
                bar == 4 * one,
        ;
        vstd::arithmetic::div_mod::lemma_fundamental_div_mod_converse(p, one, q * 4, r);
        assert(1 * one == one);
    }
}

/// How far `position` lies past the last multiple of `span` at or before
/// it.
fn past_multiple(position: Fixed, span: u64) -> (past: u64)
    requires
        0 < span,
    ensures
        past == position.units() % (span as int),
{
    proof {
        crate::loop_quantization::lemma_behind_from_magnitude(position.units(), span as int);
    }
    if position.raw >= 0 {
        (position.raw as u64) % span
    } else {
        let magnitude: u128 = (-(position.raw as i128)) as u128;
        let past: u64 = (magnitude % (span as u128)) as u64;
        if past == 0 {
            0
        } else {
            span - past
        }
    }
}

/// What the metronome does in a frame in which the music stands at
/// `position`, where `playing` tells whether a click started in the frame
/// before.
pub fn tick(position: Fixed, playing: bool) -> (tick: MetronomeTick)
    ensures
        tick == tick_spec(position, playing),
{
    let in_bar: u64 = past_multiple(position, BEATS_PER_BAR * ONE);
    let in_beat: u64 = past_multiple(position, ONE);
    assert(1 * ONE as int == ONE as int);
    let accent: bool = (in_bar as u128) * 10 < (ONE as u128);
    let on_beat: bool = (in_beat as u128) * 10 < (ONE as u128);
    MetronomeTick { accent, note_on: on_beat && !playing }
}

} // verus!
