//! Fixed-point numbers with 32 fractional bits.
use vstd::prelude::*;

verus! {

/// The raw value that stands for the number one.
pub const ONE: u64 = 0x1_0000_0000;

/// A signed number in units of 2^-32: playback speed, volume, tempo, a
/// position in beats.
#[derive(Clone, Copy, Debug, PartialEq, Eq, Structural)]
pub struct Fixed {
    pub raw: i64,
}

impl Fixed {
    /// The number of raw units this value holds.
    pub open spec fn units(self) -> int {
        self.raw as int
    }

    pub fn from_raw(raw: i64) -> (r: Fixed)
        ensures
            r.raw == raw,
    {
        Fixed { raw }
    }

    /// The whole number `value`.
    pub fn from_int(value: i32) -> (r: Fixed)
        ensures
            r.units() == value as int * ONE as int,
    {
        let wide: i64 = value as i64;
        Fixed { raw: wide * 0x1_0000_0000 }
    }

    pub fn raw(&self) -> (r: i64)
        ensures
            r == self.raw,
    {
        self.raw
    }

    /// `numerator / denominator`, rounded down to a multiple of 2^-32.
    pub fn from_ratio(numerator: i32, denominator: u32) -> (r: Option<Fixed>)
        ensures
            r is Some <==> denominator > 0,
            r matches Some(f) ==> f.units() == (numerator as int * ONE as int) / denominator as int,
    {
        if denominator == 0 {
            return None;
        }
        let divisor: i64 = denominator as i64;
        if numerator >= 0 {
            let scaled: i64 = (numerator as i64) * 0x1_0000_0000;
            Some(Fixed { raw: scaled / divisor })
        } else {
            let magnitude: i64 = -(numerator as i64);
            proof {
                assert(numerator as int * ONE as int == -(magnitude * ONE as int))
                    by (nonlinear_arith)
                    requires
                        magnitude == -(numerator as int),
                ;
                lemma_floor_of_negative(magnitude * ONE as int, divisor as int);
            }
            let scaled: u64 = (magnitude as u64) * 0x1_0000_0000;
            let quotient: u64 = scaled / (denominator as u64);
            let exact: bool = scaled % (denominator as u64) == 0;
            proof {
                vstd::arithmetic::div_mod::lemma_fundamental_div_mod(
                    scaled as int,
                    denominator as int,
                );
                assert(quotient as int <= denominator as int * quotient as int)
                    by (nonlinear_arith)
                    requires
                        denominator >= 1,
                        quotient >= 0,
                ;
            }
            let floor: i128 = if exact {
                -(quotient as i128)
            } else {
                -(quotient as i128) - 1
            };
            Some(Fixed { raw: floor as i64 })
        }
    }
}

/// The quotient of a negative number, rounded down, from the quotient and
/// remainder of its size.
pub proof fn lemma_floor_of_negative(magnitude: int, divisor: int)
    requires
        0 <= magnitude,
        0 < divisor,
    ensures
        (-magnitude) / divisor == if magnitude % divisor == 0 {
            -(magnitude / divisor)
        } else {
            -(magnitude / divisor) - 1
        },
{
    let q = magnitude / divisor;
    let r = magnitude % divisor;
    vstd::arithmetic::div_mod::lemma_fundamental_div_mod(magnitude, divisor);
    if r == 0 {
        assert(-magnitude == (-q) * divisor + 0) by (nonlinear_arith)
            requires
                magnitude == divisor * q + r,
                r == 0,
        ;
        vstd::arithmetic::div_mod::lemma_fundamental_div_mod_converse(-magnitude, divisor, -q, 0);
    } else {
        assert(-magnitude == (-q - 1) * divisor + (divisor - r)) by (nonlinear_arith)
            requires
                magnitude == divisor * q + r,
        ;
        vstd::arithmetic::div_mod::lemma_fundamental_div_mod_converse(
            -magnitude,
            divisor,
            -q - 1,
            divisor - r,
        );
    }
}

/// A number between zero and one, both included, in units of 2^-32: an offset
/// into the loop, the length of a fade, a gain that only attenuates, the
/// weight of an interpolation.
#[derive(Clone, Copy, Debug)]
pub struct Fraction {
    raw: u64,
}

impl Fraction {
    /// Whether the value lies between zero and one. Every `Fraction` that
    /// executable code holds is valid.
    #[verifier::type_invariant]
    pub closed spec fn is_valid(self) -> bool {
        self.raw <= ONE
    }

    /// The number of raw units this value holds.
    pub closed spec fn units(self) -> int {
        self.raw as int
    }

    /// The fraction of `units` raw units.
    pub closed spec fn of_units(units: int) -> Fraction {
        Fraction { raw: units as u64 }
    }

    /// `of_units` and `units` undo each other on what a fraction can hold.
    pub proof fn lemma_of_units(units: int)
        requires
            0 <= units <= ONE,
        ensures
            Fraction::of_units(units).units() == units,
            Fraction::of_units(units).is_valid(),
    {
    }

    /// A fraction is the fraction of its units.
    pub proof fn lemma_of_own_units(self)
        ensures
            Fraction::of_units(self.units()) == self,
    {
    }

    /// A valid fraction holds between zero and `ONE` units.
    pub proof fn lemma_valid_range(self)
        requires
            self.is_valid(),
        ensures
            0 <= self.units() <= ONE,
    {
    }

    pub fn zero() -> (r: Fraction)
        ensures
            r.is_valid(),
            r.units() == 0,
    {
        Fraction { raw: 0 }
    }

    pub fn one() -> (r: Fraction)
        ensures
            r.is_valid(),
            r.units() == ONE,
    {
        Fraction { raw: ONE }
    }

    /// The fraction of `raw` units, if that is at most one.
    pub fn new(raw: u64) -> (r: Option<Fraction>)
        ensures
            r is Some <==> raw <= ONE,
            r matches Some(f) ==> f.is_valid() && f.units() == raw,
    {
        if raw <= ONE {
            Some(Fraction { raw })
        } else {
            None
        }
    }

    /// `numerator / denominator`, rounded down to a multiple of 2^-32, if
    /// that is a number between zero and one.
    pub fn from_ratio(numerator: u64, denominator: u64) -> (r: Option<Fraction>)
        ensures
            r is Some <==> 0 < denominator && numerator <= denominator,
            r matches Some(f) ==> f.is_valid() && f.units() == (numerator as int * ONE as int)
                / denominator as int,
    {
        if denominator == 0 || numerator > denominator {
            return None;
        }
        proof {
            lemma_scaled_quotient_bounded(numerator as int, denominator as int);
        }
        let scaled: u128 = (numerator as u128) * (ONE as u128);
        let raw: u128 = scaled / (denominator as u128);
        Some(Fraction { raw: raw as u64 })
    }

    pub fn raw(&self) -> (r: u64)
        ensures
            r == self.units(),
            r <= ONE,
    {
        proof {
            use_type_invariant(self);
        }
        self.raw
    }
}

/// The largest raw value of a `Position`: 2^96 - 1.
pub const POSITION_MAX: u128 = 0xffff_ffff_ffff_ffff_ffff_ffff;

/// A place in a stream of samples, in units of 2^-32 of a sample: a whole
/// sample index below 2^64 and a part of the way to the next one.
#[derive(Clone, Copy, Debug)]
pub struct Position {
    raw: u128,
}

impl Position {
    /// Whether the whole part lies below 2^64. Every `Position` that
    /// executable code holds is valid.
    #[verifier::type_invariant]
    pub closed spec fn is_valid(self) -> bool {
        self.raw <= POSITION_MAX
    }

    /// The number of raw units this value holds.
    pub closed spec fn units(self) -> int {
        self.raw as int
    }

    /// A valid position holds between zero and `POSITION_MAX` units.
    pub proof fn lemma_valid_range(self)
        requires
            self.is_valid(),
        ensures
            0 <= self.units() <= POSITION_MAX,
    {
    }

    /// The position `part` units past the sample `whole`.
    pub fn new(whole: u64, part: u32) -> (r: Position)
        ensures
            r.is_valid(),
            r.units() == whole as int * ONE as int + part as int,
    {
        proof {
            lemma_product_bounded(whole as int, ONE as int, u64::MAX as int, ONE as int);
        }
        let raw: u128 = (whole as u128) * (ONE as u128) + (part as u128);
        Position { raw }
    }

    /// The position of `raw` units, if its whole part lies below 2^64.
    pub fn from_raw(raw: u128) -> (r: Option<Position>)
        ensures
            r is Some <==> raw <= POSITION_MAX,
            r matches Some(p) ==> p.is_valid() && p.units() == raw,
    {
        if raw <= POSITION_MAX {
            Some(Position { raw })
        } else {
            None
        }
    }

    pub fn raw(&self) -> (r: u128)
        ensures
            r == self.units(),
            r <= POSITION_MAX,
    {
        proof {
            use_type_invariant(self);
        }
        self.raw
    }

    /// The index of the sample at or before this position.
    pub fn whole(&self) -> (r: u64)
        ensures
            r == self.units() / (ONE as int),
    {
        proof {
            use_type_invariant(self);
        }
        let whole: u128 = self.raw / (ONE as u128);
        whole as u64
    }

    /// How far this position lies past its whole sample.
    pub fn part(&self) -> (r: Fraction)
        ensures
            r.is_valid(),
            r.units() == self.units() % (ONE as int),
            r.units() < ONE,
    {
        proof {
            use_type_invariant(self);
        }
        let part: u128 = self.raw % (ONE as u128);
        Fraction { raw: part as u64 }
    }
}

/// The product of two bounded non-negative numbers is bounded by the product
/// of the bounds.
pub proof fn lemma_product_bounded(a: int, b: int, a_max: int, b_max: int)
    by (nonlinear_arith)
    requires
        0 <= a <= a_max,
        0 <= b <= b_max,
    ensures
        0 <= a * b <= a_max * b_max,
{
}

/// A part of a whole, scaled by `ONE`, is at most `ONE`.
pub proof fn lemma_scaled_quotient_bounded(part: int, whole: int)
    requires
        0 <= part <= whole,
        0 < whole,
    ensures
        0 <= (part * ONE as int) / whole <= ONE,
{
    let one = ONE as int;
    assert(part * one <= whole * one) by (nonlinear_arith)
        requires
            0 <= part <= whole,
            one == ONE as int,
    ;
    assert(0 <= part * one) by (nonlinear_arith)
        requires
            0 <= part,
            one == ONE as int,
    ;
    vstd::arithmetic::div_mod::lemma_div_is_ordered(part * one, whole * one, whole);
    vstd::arithmetic::div_mod::lemma_div_by_multiple(one, whole);
    assert(whole * one == one * whole) by (nonlinear_arith);
}

} // verus!
