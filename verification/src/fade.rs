//! Fade gains at the two ends of a loop.
//!
//! A fade is a linear ramp whose length is a fraction of the loop's length.
//! Its gain is the ratio of the distance covered to the length of the ramp,
//! kept between zero and one; a ramp of no length is fully open.
use vstd::prelude::*;
use crate::fixed::{Fraction, Position, ONE, lemma_product_bounded};

verus! {

/// `x` kept between zero and one, in raw units.
pub open spec fn clamp_unit(x: int) -> int {
    if x < 0 {
        0
    } else if x > ONE as int {
        ONE as int
    } else {
        x
    }
}

/// The gain, in raw units, `distance` raw units into a ramp that spans the
/// fraction `fade` (raw units) of `length` samples.
pub open spec fn ramp_units(fade: int, length: int, distance: int) -> int {
    let span = fade * length;
    if span == 0 {
        ONE as int
    } else {
        clamp_unit((distance * ONE as int) / span)
    }
}

/// The fade-in gain at `cursor`, in raw units: the cursor's distance from the
/// start of the loop over the length of the ramp.
pub open spec fn fade_in_units(fade: int, length: int, cursor: int) -> int {
    ramp_units(fade, length, cursor)
}

/// The fade-out gain at `cursor`, in raw units: the distance from the cursor
/// to the last sample of the loop over the length of the ramp.
pub open spec fn fade_out_units(fade: int, length: int, cursor: int) -> int {
    ramp_units(fade, length, length * ONE as int - cursor - ONE as int)
}

/// Further into a ramp the gain is no smaller.
pub proof fn lemma_ramp_monotonic(fade: int, length: int, near: int, far: int)
    requires
        0 <= fade,
        0 <= length,
        near <= far,
    ensures
        ramp_units(fade, length, near) <= ramp_units(fade, length, far),
{
    let span = fade * length;
    assert(0 <= span) by (nonlinear_arith)
        requires
            0 <= fade,
            0 <= length,
            span == fade * length,
    ;
    if span != 0 {
        let one = ONE as int;
        assert(near * one <= far * one) by (nonlinear_arith)
            requires
                near <= far,
                one == ONE as int,
        ;
        vstd::arithmetic::div_mod::lemma_div_is_ordered(near * one, far * one, span);
    }
}

/// At or past the end of a ramp the gain is one.
pub proof fn lemma_ramp_open_past_span(fade: int, length: int, distance: int)
    requires
        0 <= fade,
        0 <= length,
        distance >= fade * length,
    ensures
        ramp_units(fade, length, distance) == ONE,
{
    let span = fade * length;
    assert(0 <= span) by (nonlinear_arith)
        requires
            0 <= fade,
            0 <= length,
            span == fade * length,
    ;
    if span != 0 {
        let one = ONE as int;
        assert(span * one <= distance * one) by (nonlinear_arith)
            requires
                span <= distance,
                one == ONE as int,
        ;
        vstd::arithmetic::div_mod::lemma_div_is_ordered(span * one, distance * one, span);
        vstd::arithmetic::div_mod::lemma_div_by_multiple(one, span);
        assert(span * one == one * span) by (nonlinear_arith);
    }
}

/// The fade-in gain lies between zero and one, does not fall as the cursor
/// moves on, and is one from the end of the ramp onwards.
pub proof fn lemma_fade_in_law(fade: Fraction, length: nat, earlier: nat, later: nat)
    requires
        fade.is_valid(),
        earlier <= later,
    ensures
        0 <= fade_in_units(fade.units(), length as int, earlier as int) <= ONE,
        fade_in_units(fade.units(), length as int, earlier as int) <= fade_in_units(
            fade.units(),
            length as int,
            later as int,
        ),
        earlier >= fade.units() * length ==> fade_in_units(
            fade.units(),
            length as int,
            earlier as int,
        ) == ONE,
{
    fade.lemma_valid_range();
    lemma_ramp_monotonic(fade.units(), length as int, earlier as int, later as int);
    if earlier >= fade.units() * length {
        lemma_ramp_open_past_span(fade.units(), length as int, earlier as int);
    }
}

/// The fade-out gain lies between zero and one and does not rise as the
/// cursor moves towards the end of the loop.
pub proof fn lemma_fade_out_law(fade: Fraction, length: nat, earlier: nat, later: nat)
    requires
        fade.is_valid(),
        earlier <= later,
    ensures
        0 <= fade_out_units(fade.units(), length as int, later as int) <= ONE,
        fade_out_units(fade.units(), length as int, later as int) <= fade_out_units(
            fade.units(),
            length as int,
            earlier as int,
        ),
{
    fade.lemma_valid_range();
    let total = length as int * ONE as int;
    lemma_ramp_monotonic(
        fade.units(),
        length as int,
        total - later as int - ONE as int,
        total - earlier as int - ONE as int,
    );
}

/// With fades of no length both gains are one wherever the cursor stands.
pub proof fn lemma_no_fade_is_unity(length: nat, cursor: nat)
    ensures
        fade_in_units(0, length as int, cursor as int) == ONE,
        fade_out_units(0, length as int, cursor as int) == ONE,
{
}

/// The gain `distance` raw units into a ramp over the fraction `fade` of
/// `length` samples.
fn ramp_volume(fade: Fraction, length: usize, distance: u128) -> (r: Fraction)
    requires
        distance <= crate::fixed::POSITION_MAX,
    ensures
        r.is_valid(),
        r.units() == ramp_units(fade.units(), length as int, distance as int),
{
    let fade_raw: u64 = fade.raw();
    proof {
        lemma_product_bounded(fade_raw as int, length as int, ONE as int, usize::MAX as int);
    }
    let span: u128 = (fade_raw as u128) * (length as u128);
    if span == 0 {
        return Fraction::one();
    }
    if distance >= span {
        proof {
            lemma_ramp_open_past_span(fade.units(), length as int, distance as int);
        }
        return Fraction::one();
    }
    proof {
        crate::fixed::lemma_scaled_quotient_bounded(distance as int, span as int);
    }
    let gain: u128 = (distance * (ONE as u128)) / span;
    let r = Fraction::new(gain as u64);
    r.unwrap()
}

/// The fade-in gain at `cursor` of a loop of `length` samples whose fade-in
/// spans the fraction `fade_perc` of it.
pub fn calculate_fade_volume(fade_perc: Fraction, length: usize, cursor: Position) -> (r: Fraction)
    ensures
        r.is_valid(),
        r.units() == fade_in_units(fade_perc.units(), length as int, cursor.units()),
{
    ramp_volume(fade_perc, length, cursor.raw())
}

/// The fade-out gain at `cursor` of a loop of `length` samples whose fade-out
/// spans the fraction `fade_perc` of it.
pub fn calculate_fade_out_volume(fade_perc: Fraction, length: usize, cursor: Position) -> (r:
    Fraction)
    ensures
        r.is_valid(),
        r.units() == fade_out_units(fade_perc.units(), length as int, cursor.units()),
{
    let fade_raw: u64 = fade_perc.raw();
    proof {
        lemma_product_bounded(fade_raw as int, length as int, ONE as int, usize::MAX as int);
    }
    let total: u128 = (length as u128) * (ONE as u128);
    let passed: u128 = cursor.raw() + (ONE as u128);
    if passed > total {
        let span: u128 = (fade_raw as u128) * (length as u128);
        if span == 0 {
            return Fraction::one();
        }
        proof {
            let distance = total as int - passed as int;
            let one = ONE as int;
            assert(distance * one < 0) by (nonlinear_arith)
                requires
                    distance < 0,
                    one == ONE as int,
            ;
            vstd::arithmetic::div_mod::lemma_div_is_ordered(distance * one, -1, span as int);
            assert((-1int) / (span as int) < 0) by (nonlinear_arith)
                requires
                    span > 0,
            ;
        }
        return Fraction::zero();
    }
    ramp_volume(fade_perc, length, total - passed)
}

} // verus!
