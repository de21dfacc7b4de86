//! Low-frequency oscillator configuration.
use vstd::prelude::*;

use crate::f32_bits::{F32Bits, ONE_BITS};

verus! {

/// Waveform of an oscillator.
#[derive(Clone, Copy, Debug, PartialEq, Eq, Hash, Structural)]
pub enum Shape {
    Sine,
    Saw,
    Square,
    Triangle,
}

impl Shape {
    /// Wire number of a shape; stable across versions.
    pub open spec fn number(self) -> u8 {
        match self {
            Shape::Sine => 0,
            Shape::Saw => 1,
            Shape::Square => 2,
            Shape::Triangle => 3,
        }
    }

    /// Wire label of a shape.
    pub open spec fn label(self) -> Seq<char> {
        match self {
            Shape::Sine => "sine"@,
            Shape::Saw => "saw"@,
            Shape::Square => "square"@,
            Shape::Triangle => "triangle"@,
        }
    }

    /// Decode a wire number; an unknown number reads as `Sine`.
    pub fn from_byte(b: u8) -> (r: Self)
        ensures
            b <= 3 ==> r.number() == b,
            b > 3 ==> r == Shape::Sine,
            r == Shape::Saw <==> b == 1,
            r == Shape::Square <==> b == 2,
            r == Shape::Triangle <==> b == 3,
    {
        match b {
            1 => Shape::Saw,
            2 => Shape::Square,
            3 => Shape::Triangle,
            _ => Shape::Sine,
        }
    }

    /// Wire label.
    pub fn as_str(self) -> (r: &'static str)
        ensures
            r@ == self.label(),
    {
        match self {
            Shape::Sine => "sine",
            Shape::Saw => "saw",
            Shape::Square => "square",
            Shape::Triangle => "triangle",
        }
    }
}

/// How much music one oscillator cycle spans.
#[derive(Clone, Copy, Debug, PartialEq, Eq, Hash, Structural)]
pub enum RateDiv {
    Bar,
    Beat,
    Half,
    Quarter,
    Eighth,
    Sixteenth,
}

impl RateDiv {
    /// Wire number of a division; stable across versions.
    pub open spec fn number(self) -> u8 {
        match self {
            RateDiv::Bar => 0,
            RateDiv::Beat => 1,
            RateDiv::Half => 2,
            RateDiv::Quarter => 3,
            RateDiv::Eighth => 4,
            RateDiv::Sixteenth => 5,
        }
    }

    /// Wire label of a division.
    pub open spec fn label(self) -> Seq<char> {
        match self {
            RateDiv::Bar => "bar"@,
            RateDiv::Beat => "beat"@,
            RateDiv::Half => "1/2"@,
            RateDiv::Quarter => "1/4"@,
            RateDiv::Eighth => "1/8"@,
            RateDiv::Sixteenth => "1/16"@,
        }
    }

    /// Decode a wire number; an unknown number reads as `Quarter`.
    pub fn from_byte(b: u8) -> (r: Self)
        ensures
            b <= 5 ==> r.number() == b,
            b > 5 ==> r == RateDiv::Quarter,
            r == RateDiv::Bar <==> b == 0,
            r == RateDiv::Beat <==> b == 1,
            r == RateDiv::Half <==> b == 2,
            r == RateDiv::Eighth <==> b == 4,
            r == RateDiv::Sixteenth <==> b == 5,
    {
        match b {
            0 => RateDiv::Bar,
            1 => RateDiv::Beat,
            2 => RateDiv::Half,
            3 => RateDiv::Quarter,
            4 => RateDiv::Eighth,
            5 => RateDiv::Sixteenth,
            _ => RateDiv::Quarter,
        }
    }

    /// Wire label.
    pub fn as_str(self) -> (r: &'static str)
        ensures
            r@ == self.label(),
    {
        match self {
            RateDiv::Bar => "bar",
            RateDiv::Beat => "beat",
            RateDiv::Half => "1/2",
            RateDiv::Quarter => "1/4",
            RateDiv::Eighth => "1/8",
            RateDiv::Sixteenth => "1/16",
        }
    }

    /// Sixteenths of a beat in one cycle, in 4/4: a bar is four beats.
    pub open spec fn sixteenths_spec(self) -> nat {
        match self {
            RateDiv::Bar => 64,
            RateDiv::Beat => 16,
            RateDiv::Half => 8,
            RateDiv::Quarter => 4,
            RateDiv::Eighth => 2,
            RateDiv::Sixteenth => 1,
        }
    }

    /// Beats per cycle, counted in sixteenths of a beat so that every
    /// division is a whole number.
    pub fn sixteenths_per_cycle(self) -> (r: u32)
        ensures
            r == self.sixteenths_spec(),
    {
        match self {
            RateDiv::Bar => 64,
            RateDiv::Beat => 16,
            RateDiv::Half => 8,
            RateDiv::Quarter => 4,
            RateDiv::Eighth => 2,
            RateDiv::Sixteenth => 1,
        }
    }
}

/// One oscillator configuration.
#[derive(Clone, Copy, Debug, PartialEq, Eq, Structural)]
pub struct LfoConfig {
    pub shape: Shape,
    pub rate_div: RateDiv,
    /// Modulation depth in `[0, 1]`.
    pub depth: F32Bits,
    /// Descriptor index of the modulated parameter.
    pub target_param: u8,
}

impl LfoConfig {
    pub fn new(shape: Shape, rate_div: RateDiv, depth: F32Bits, target_param: u8) -> (r: Self)
        ensures
            r == (LfoConfig { shape, rate_div, depth, target_param }),
    {
        LfoConfig { shape, rate_div, depth, target_param }
    }
}

impl Default for LfoConfig {
    /// A full-depth sine over a quarter of a beat on parameter 0.
    fn default() -> (r: Self)
        ensures
            r == (LfoConfig {
                shape: Shape::Sine,
                rate_div: RateDiv::Quarter,
                depth: F32Bits { bits: ONE_BITS },
                target_param: 0,
            }),
    {
        LfoConfig::new(Shape::Sine, RateDiv::Quarter, F32Bits { bits: ONE_BITS }, 0)
    }
}

/// Every shape survives its wire number, and no two shapes share one.
pub proof fn shape_numbers_are_distinct(a: Shape, b: Shape)
    ensures
        a.number() == b.number() <==> a == b,
        a.number() <= 3,
{
}

/// Every rate division survives its wire number, and no two share one.
pub proof fn rate_numbers_are_distinct(a: RateDiv, b: RateDiv)
    ensures
        a.number() == b.number() <==> a == b,
        a.number() <= 5,
{
}

/// No two shapes share a label.
pub proof fn shape_labels_are_distinct(a: Shape, b: Shape)
    ensures
        a.label() == b.label() <==> a == b,
{
    reveal_strlit("sine");
    reveal_strlit("saw");
    reveal_strlit("square");
    reveal_strlit("triangle");
    assert(a.label().len() == b.label().len() ==> a == b);
}

/// No two rate divisions share a label.
pub proof fn rate_labels_are_distinct(a: RateDiv, b: RateDiv)
    ensures
        a.label() == b.label() <==> a == b,
{
    reveal_strlit("bar");
    reveal_strlit("beat");
    reveal_strlit("1/2");
    reveal_strlit("1/4");
    reveal_strlit("1/8");
    reveal_strlit("1/16");
    if a.label() == b.label() {
        assert(a.label()[0] == b.label()[0] && a.label()[2] == b.label()[2]);
    }
}

/// A beat is sixteen of its sixteenths, a bar four beats, and each further
/// division half of the one before.
pub proof fn divisions_halve()
    ensures
        RateDiv::Beat.sixteenths_spec() == 16,
        RateDiv::Bar.sixteenths_spec() == 4 * RateDiv::Beat.sixteenths_spec(),
        2 * RateDiv::Half.sixteenths_spec() == RateDiv::Beat.sixteenths_spec(),
        2 * RateDiv::Quarter.sixteenths_spec() == RateDiv::Half.sixteenths_spec(),
        2 * RateDiv::Eighth.sixteenths_spec() == RateDiv::Quarter.sixteenths_spec(),
        2 * RateDiv::Sixteenth.sixteenths_spec() == RateDiv::Eighth.sixteenths_spec(),
{
}

/// Every shape goes by its own name and number on the wire.
pub proof fn shapes_go_by_their_names(a: Shape)
    ensures
        a.label() == "sine"@ <==> a == Shape::Sine,
        a.label() == "saw"@ <==> a == Shape::Saw,
        a.label() == "square"@ <==> a == Shape::Square,
        a.label() == "triangle"@ <==> a == Shape::Triangle,
        a.number() == 0 <==> a == Shape::Sine,
        a.number() == 1 <==> a == Shape::Saw,
        a.number() == 2 <==> a == Shape::Square,
        a.number() == 3 <==> a == Shape::Triangle,
{
    shape_labels_are_distinct(a, Shape::Sine);
    shape_labels_are_distinct(a, Shape::Saw);
    shape_labels_are_distinct(a, Shape::Square);
    shape_labels_are_distinct(a, Shape::Triangle);
}

/// Every rate division goes by its own name and number on the wire.
pub proof fn divisions_go_by_their_names(a: RateDiv)
    ensures
        a.label() == "bar"@ <==> a == RateDiv::Bar,
        a.label() == "beat"@ <==> a == RateDiv::Beat,
        a.label() == "1/2"@ <==> a == RateDiv::Half,
        a.label() == "1/4"@ <==> a == RateDiv::Quarter,
        a.label() == "1/8"@ <==> a == RateDiv::Eighth,
        a.label() == "1/16"@ <==> a == RateDiv::Sixteenth,
        a.number() == 0 <==> a == RateDiv::Bar,
        a.number() == 1 <==> a == RateDiv::Beat,
        a.number() == 2 <==> a == RateDiv::Half,
        a.number() == 3 <==> a == RateDiv::Quarter,
        a.number() == 4 <==> a == RateDiv::Eighth,
        a.number() == 5 <==> a == RateDiv::Sixteenth,
{
    rate_labels_are_distinct(a, RateDiv::Bar);
    rate_labels_are_distinct(a, RateDiv::Beat);
    rate_labels_are_distinct(a, RateDiv::Half);
    rate_labels_are_distinct(a, RateDiv::Quarter);
    rate_labels_are_distinct(a, RateDiv::Eighth);
    rate_labels_are_distinct(a, RateDiv::Sixteenth);
}

} // verus!
