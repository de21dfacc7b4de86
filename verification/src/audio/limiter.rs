//! Settings and readout of the master limiter.
//!
//! The gain itself is arithmetic on the samples and happens outside; this
//! module keeps what decides whether a block is limited at all, and what the
//! meter shows of it.
use vstd::prelude::*;

use crate::f32_bits::{F32Bits, INFINITY_BITS, ZERO_BITS};

verus! {

/// Bit pattern of the default threshold, half a decibel below full scale.
pub const DEFAULT_THRESHOLD_BITS: u32 = 0xBF00_0000;

/// Bit pattern of the lowest threshold, 24 decibels below full scale.
pub const MIN_THRESHOLD_BITS: u32 = 0xC1C0_0000;

/// Steps of the gain reduction readout in a decibel.
pub const GAIN_REDUCTION_SCALE: i16 = 10;

/// The threshold that a setting stands for.
pub open spec fn threshold_spec(db: F32Bits) -> F32Bits {
    if db.magnitude() < INFINITY_BITS {
        db.clamp_spec(F32Bits { bits: MIN_THRESHOLD_BITS }, F32Bits { bits: ZERO_BITS })
    } else {
        F32Bits { bits: DEFAULT_THRESHOLD_BITS }
    }
}

/// Confine a threshold to its range; the default where it is no finite
/// number.
pub fn clamp_threshold_db(db: F32Bits) -> (r: F32Bits)
    ensures
        r == threshold_spec(db),
{
    if db.is_finite() {
        db.clamp(F32Bits { bits: MIN_THRESHOLD_BITS }, F32Bits { bits: ZERO_BITS })
    } else {
        F32Bits { bits: DEFAULT_THRESHOLD_BITS }
    }
}

/// What to do with a block of samples.
#[derive(Clone, Copy, Debug, PartialEq, Eq, Structural)]
pub enum BlockStep {
    /// Leave it as it is.
    Bypass,
    /// Limit it; where the sample rate has changed since the block before,
    /// the time constants have to be computed anew.
    Limit { recompute: bool },
}

/// The master limiter as it is set, and what its meter shows.
#[derive(Clone, Copy, Debug, PartialEq, Eq, Structural)]
pub struct MasterLimiter {
    threshold_db: F32Bits,
    enabled: bool,
    sample_rate: u32,
    gain_reduction: i16,
}

impl MasterLimiter {
    /// Whether blocks are limited.
    pub closed spec fn is_on(&self) -> bool {
        self.enabled
    }

    /// The threshold, confined to its range.
    pub closed spec fn threshold(&self) -> F32Bits {
        self.threshold_db
    }

    /// The sample rate that the time constants were computed for.
    pub closed spec fn rate(&self) -> u32 {
        self.sample_rate
    }

    /// What the meter shows: steps of gain, never above zero.
    pub closed spec fn meter(&self) -> i16 {
        self.gain_reduction
    }

    /// A limiter that is on, at the default threshold, with its meter at
    /// rest.
    pub fn new(sample_rate: u32) -> (r: Self)
        ensures
            r.is_on(),
            r.threshold().bits == DEFAULT_THRESHOLD_BITS,
            r.rate() == sample_rate,
            r.meter() == 0,
    {
        MasterLimiter {
            threshold_db: F32Bits { bits: DEFAULT_THRESHOLD_BITS },
            enabled: true,
            sample_rate,
            gain_reduction: 0,
        }
    }

    /// Switch the limiter on or off.
    pub fn set_enabled(&mut self, enabled: bool)
        ensures
            final(self).is_on() == enabled,
            final(self).threshold() == old(self).threshold(),
            final(self).rate() == old(self).rate(),
            final(self).meter() == old(self).meter(),
    {
        self.enabled = enabled;
    }

    /// Whether the limiter is on.
    pub fn enabled(&self) -> (r: bool)
        ensures
            r == self.is_on(),
    {
        self.enabled
    }

    /// Set the threshold.
    pub fn set_threshold_db(&mut self, db: F32Bits)
        ensures
            final(self).threshold() == threshold_spec(db),
            final(self).is_on() == old(self).is_on(),
            final(self).rate() == old(self).rate(),
            final(self).meter() == old(self).meter(),
    {
        self.threshold_db = clamp_threshold_db(db);
    }

    /// The threshold.
    pub fn threshold_db(&self) -> (r: F32Bits)
        ensures
            r == self.threshold(),
    {
        self.threshold_db
    }

    /// What the meter shows.
    pub fn gain_reduction(&self) -> (r: i16)
        ensures
            r == self.meter(),
    {
        self.gain_reduction
    }

    /// Begin a block. A limiter that is off puts its meter to rest, so that
    /// it does not freeze on what it showed last.
    pub fn begin_block(&mut self, sample_rate: u32) -> (r: BlockStep)
        ensures
            final(self).is_on() == old(self).is_on(),
            final(self).threshold() == old(self).threshold(),
            if old(self).is_on() {
                &&& r == BlockStep::Limit { recompute: sample_rate != old(self).rate() }
                &&& final(self).rate() == sample_rate
                &&& final(self).meter() == old(self).meter()
            } else {
                &&& r == BlockStep::Bypass
                &&& final(self).rate() == old(self).rate()
                &&& final(self).meter() == 0
            },
    {
        if !self.enabled {
            self.gain_reduction = 0;
            return BlockStep::Bypass;
        }
        let recompute: bool = sample_rate != self.sample_rate;
        self.sample_rate = sample_rate;
        BlockStep::Limit { recompute }
    }

    /// Finish a block with its strongest gain reduction, in steps.
    pub fn finish_block(&mut self, gain: i16)
        ensures
            final(self).meter() == (if gain > 0 {
                0
            } else {
                gain
            }),
            final(self).is_on() == old(self).is_on(),
            final(self).threshold() == old(self).threshold(),
            final(self).rate() == old(self).rate(),
    {
        self.gain_reduction = if gain > 0 {
            0
        } else {
            gain
        };
    }
}

/// Whatever is asked for, a threshold lies between its bounds.
pub proof fn thresholds_stay_in_range(db: F32Bits)
    ensures
        (F32Bits { bits: MIN_THRESHOLD_BITS }).rank() <= threshold_spec(db).rank() <= 0,
{
}

/// A threshold between full scale and 24 decibels below it is taken as it is;
/// one above or below that goes to the bound on its side; what is no finite
/// number gives half a decibel below full scale.
pub proof fn thresholds_in_range_are_taken(db: F32Bits)
    ensures
        db.bits == 0 || 0x8000_0000 <= db.bits <= 0xC1C0_0000 ==> threshold_spec(db) == db,
        0 < db.bits < 0x7F80_0000 ==> threshold_spec(db).bits == 0,
        0xC1C0_0000 < db.bits < 0xFF80_0000 ==> threshold_spec(db).bits == 0xC1C0_0000,
        0x7F80_0000 <= db.bits < 0x8000_0000 || 0xFF80_0000 <= db.bits ==> threshold_spec(db).bits
            == 0xBF00_0000,
{
}

} // verus!
