//! Single-precision numbers carried by their bit pattern.
//!
//! The order of such numbers is an order of integers: the magnitude bits,
//! negated when the sign bit is set. Comparing and clamping therefore need
//! no arithmetic on the numbers themselves.
use vstd::prelude::*;

verus! {

/// A single-precision value, held as its IEEE-754 bit pattern.
///
/// The library stores, forwards and compares such a value; it never adds or
/// multiplies one.
#[derive(Clone, Copy, Debug, PartialEq, Eq, Structural)]
pub struct F32Bits {
    pub bits: u32,
}

/// Bit pattern of positive zero: silence.
pub const ZERO_BITS: u32 = 0;

/// Bit pattern of one: unity gain, unity ratio, fully wet.
pub const ONE_BITS: u32 = 0x3F80_0000;

/// Bit pattern of one half: a centred crossfader.
pub const HALF_BITS: u32 = 0x3F00_0000;

/// The sign bit.
pub const SIGN_BIT: u32 = 0x8000_0000;

/// Bit pattern of positive infinity; larger magnitudes are not numbers.
pub const INFINITY_BITS: u32 = 0x7F80_0000;

impl F32Bits {
    /// Sign-free part of the pattern.
    pub open spec fn magnitude(self) -> int {
        if self.bits >= SIGN_BIT {
            self.bits - SIGN_BIT
        } else {
            self.bits as int
        }
    }

    /// Whether the pattern is one of "not a number".
    pub open spec fn is_nan_spec(self) -> bool {
        self.magnitude() > INFINITY_BITS
    }

    /// Integer that orders numbers as their values do; both zeros map to 0.
    pub open spec fn rank(self) -> int {
        if self.bits >= SIGN_BIT {
            -self.magnitude()
        } else {
            self.magnitude()
        }
    }

    /// Strictly smaller value; false as soon as one side is not a number.
    pub open spec fn lt_spec(self, other: F32Bits) -> bool {
        !self.is_nan_spec() && !other.is_nan_spec() && self.rank() < other.rank()
    }

    /// `self` confined to `[lo, hi]`; what is not a number stays as it is.
    pub open spec fn clamp_spec(self, lo: F32Bits, hi: F32Bits) -> F32Bits {
        if self.lt_spec(lo) {
            lo
        } else if hi.lt_spec(self) {
            hi
        } else {
            self
        }
    }

    /// Wrap a bit pattern.
    pub fn from_bits(bits: u32) -> (r: F32Bits)
        ensures
            r.bits == bits,
    {
        F32Bits { bits }
    }

    /// The bit pattern that was wrapped.
    pub fn to_bits(self) -> (r: u32)
        ensures
            r == self.bits,
    {
        self.bits
    }

    /// Whether the value is not a number.
    pub fn is_nan(self) -> (r: bool)
        ensures
            r == self.is_nan_spec(),
            r == (0x7F80_0000 < self.bits < 0x8000_0000 || 0xFF80_0000 < self.bits),
    {
        if self.bits >= SIGN_BIT {
            self.bits - SIGN_BIT > INFINITY_BITS
        } else {
            self.bits > INFINITY_BITS
        }
    }

    /// Whether the value is a number and not infinite.
    pub fn is_finite(self) -> (r: bool)
        ensures
            r == (self.magnitude() < INFINITY_BITS),
            r == (self.bits < 0x7F80_0000 || 0x8000_0000 <= self.bits < 0xFF80_0000),
    {
        if self.bits >= SIGN_BIT {
            self.bits - SIGN_BIT < INFINITY_BITS
        } else {
            self.bits < INFINITY_BITS
        }
    }

    /// Whether `self` is the smaller value.
    pub fn less_than(self, other: F32Bits) -> (r: bool)
        ensures
            r == self.lt_spec(other),
    {
        if self.is_nan() || other.is_nan() {
            return false;
        }
        if self.bits >= SIGN_BIT {
            if other.bits >= SIGN_BIT {
                other.bits < self.bits
            } else {
                self.bits - SIGN_BIT > 0 || other.bits > 0
            }
        } else if other.bits >= SIGN_BIT {
            false
        } else {
            self.bits < other.bits
        }
    }

    /// Confine the value to `[lo, hi]`.
    pub fn clamp(self, lo: F32Bits, hi: F32Bits) -> (r: F32Bits)
        ensures
            r == self.clamp_spec(lo, hi),
    {
        if self.less_than(lo) {
            lo
        } else if hi.less_than(self) {
            hi
        } else {
            self
        }
    }
}

/// A clamped number lies inside its range, and clamping it once more
/// changes nothing.
pub proof fn clamp_stays_in_range(v: F32Bits, lo: F32Bits, hi: F32Bits)
    requires
        !lo.is_nan_spec(),
        !hi.is_nan_spec(),
        lo.rank() <= hi.rank(),
    ensures
        !v.is_nan_spec() ==> lo.rank() <= v.clamp_spec(lo, hi).rank() <= hi.rank(),
        v.clamp_spec(lo, hi).clamp_spec(lo, hi) == v.clamp_spec(lo, hi),
{
}

/// Numbers are ordered as their patterns are: two positive ones by the
/// pattern, two negative ones the other way round, and a negative one before
/// a positive one, but for the two zeros, which are equal.
pub proof fn patterns_order_the_numbers(a: F32Bits, b: F32Bits)
    requires
        a.bits <= 0x7F80_0000 || 0x8000_0000 <= a.bits <= 0xFF80_0000,
        b.bits <= 0x7F80_0000 || 0x8000_0000 <= b.bits <= 0xFF80_0000,
    ensures
        a.bits < 0x8000_0000 && b.bits < 0x8000_0000 ==> (a.lt_spec(b) <==> a.bits < b.bits),
        a.bits >= 0x8000_0000 && b.bits >= 0x8000_0000 ==> (a.lt_spec(b) <==> b.bits < a.bits),
        a.bits >= 0x8000_0000 && b.bits < 0x8000_0000 ==> (a.lt_spec(b) <==> a.bits != 0x8000_0000
            || b.bits != 0),
        a.bits < 0x8000_0000 && b.bits >= 0x8000_0000 ==> !a.lt_spec(b),
{
}

/// What is not a number is neither smaller nor larger than anything.
pub proof fn what_is_no_number_has_no_order(v: F32Bits, other: F32Bits)
    requires
        0x7F80_0000 < v.bits < 0x8000_0000 || 0xFF80_0000 < v.bits,
    ensures
        !v.lt_spec(other),
        !other.lt_spec(v),
{
}

/// The order of numbers is one: nothing is smaller than itself, it goes on
/// from one to the next, and of two numbers that are not ranked alike one is
/// the smaller.
pub proof fn numbers_are_ordered(a: F32Bits, b: F32Bits, c: F32Bits)
    ensures
        !a.lt_spec(a),
        a.lt_spec(b) && b.lt_spec(c) ==> a.lt_spec(c),
        a.lt_spec(b) ==> !b.lt_spec(a),
        !a.is_nan_spec() && !b.is_nan_spec() && a.rank() != b.rank() ==> a.lt_spec(b) || b.lt_spec(
            a,
        ),
{
}

/// Confining leaves a number that lies in the range as it is, and moves one
/// that does not to the bound on its side; what is no number stays.
pub proof fn clamp_moves_only_what_lies_outside(v: F32Bits, lo: F32Bits, hi: F32Bits)
    requires
        !hi.lt_spec(lo),
    ensures
        !v.lt_spec(lo) && !hi.lt_spec(v) ==> v.clamp_spec(lo, hi) == v,
        v.lt_spec(lo) ==> v.clamp_spec(lo, hi) == lo,
        hi.lt_spec(v) ==> v.clamp_spec(lo, hi) == hi,
        0x7F80_0000 < v.bits < 0x8000_0000 || 0xFF80_0000 < v.bits ==> v.clamp_spec(lo, hi) == v,
{
}

} // verus!
