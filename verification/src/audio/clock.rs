//! The engine clock: sample frames rendered so far, and the master tempo.
//!
//! The counters are shared between threads, so a read tells what some thread
//! left there; no contract can say which value that is.
use std::sync::atomic::{AtomicU32, AtomicU64, Ordering};
use std::sync::Arc;

use vstd::prelude::*;

use crate::f32_bits::{F32Bits, ZERO_BITS};

verus! {

/// Bit pattern of the default tempo, 120 beats per minute.
pub const DEFAULT_MASTER_BPM_BITS: u32 = 0x42F0_0000;

/// What drives the master tempo.
#[derive(Clone, Copy, Debug, PartialEq, Eq, Hash, Structural)]
pub enum ClockSource {
    Internal,
    MidiIn,
    AbletonLink,
}

impl ClockSource {
    /// The label that clients see.
    pub open spec fn label(self) -> Seq<char> {
        match self {
            ClockSource::Internal => "internal"@,
            ClockSource::MidiIn => "midi_in"@,
            ClockSource::AbletonLink => "ableton_link"@,
        }
    }

    /// The label that clients see.
    pub fn as_str(&self) -> (r: &'static str)
        ensures
            r@ == self.label(),
    {
        match self {
            ClockSource::Internal => "internal",
            ClockSource::MidiIn => "midi_in",
            ClockSource::AbletonLink => "ableton_link",
        }
    }
}

/// Constant parameters of the audio thread and its clock.
#[derive(Clone)]
pub struct EngineClock {
    pub sample_rate: u32,
    /// Nominal tempo of the session.
    pub master_bpm: F32Bits,
    /// Master phase in radians.
    pub master_phase: F32Bits,
    pub shared: SharedClock,
}

impl EngineClock {
    /// A clock at frame 0, at phase 0 and with the given tempo.
    pub fn new(sample_rate: u32, master_bpm: F32Bits) -> (r: Self)
        ensures
            r.sample_rate == sample_rate,
            r.master_bpm == master_bpm,
            r.master_phase.bits == ZERO_BITS,
    {
        EngineClock {
            sample_rate,
            master_bpm,
            master_phase: F32Bits { bits: ZERO_BITS },
            shared: SharedClock::with_bpm(master_bpm),
        }
    }

    /// Frames rendered so far.
    pub fn frame(&self) -> u64 {
        self.shared.frame()
    }

    /// Count `by` more frames.
    pub fn advance(&self, by: u32) {
        self.shared.advance(by);
    }
}

struct SharedClockInner {
    frame: AtomicU64,
    bpm_bits: AtomicU32,
}

/// Handle on a clock; clones share it.
#[derive(Clone)]
pub struct SharedClock {
    inner: Arc<SharedClockInner>,
}

/// A tempo that a clock can run at: a positive, finite number.
pub open spec fn usable_tempo(bpm: F32Bits) -> bool {
    bpm.magnitude() < crate::f32_bits::INFINITY_BITS && bpm.rank() > 0
}

/// Whether a clock can run at a tempo.
pub fn is_usable_tempo(bpm: F32Bits) -> (r: bool)
    ensures
        r == usable_tempo(bpm),
{
    let zero: F32Bits = F32Bits { bits: ZERO_BITS };
    bpm.is_finite() && zero.less_than(bpm)
}

fn widen(by: u32) -> (r: u64)
    ensures
        r == by,
{
    by as u64
}

impl SharedClock {
    /// A clock at frame 0 with the default tempo.
    pub fn new() -> Self {
        SharedClock::with_bpm(F32Bits { bits: DEFAULT_MASTER_BPM_BITS })
    }

    /// A clock at frame 0 with the given tempo.
    pub fn with_bpm(bpm: F32Bits) -> Self {
        SharedClock {
            inner: Arc::new(
                SharedClockInner {
                    frame: AtomicU64::new(0),
                    bpm_bits: AtomicU32::new(bpm.bits),
                },
            ),
        }
    }

    /// Frames counted so far, by whichever thread.
    pub fn frame(&self) -> u64 {
        self.inner.frame.load(Ordering::Relaxed)
    }

    /// Count `by` more frames.
    pub fn advance(&self, by: u32) {
        let _before: u64 = self.inner.frame.fetch_add(widen(by), Ordering::Relaxed);
    }

    /// The tempo that was set last.
    pub fn master_bpm(&self) -> F32Bits {
        F32Bits { bits: self.inner.bpm_bits.load(Ordering::Relaxed) }
    }

    /// Set the tempo, unless a clock cannot run at it. The result tells
    /// whether it was set.
    pub fn set_master_bpm(&self, bpm: F32Bits) -> (r: bool)
        ensures
            r == usable_tempo(bpm),
    {
        if is_usable_tempo(bpm) {
            self.inner.bpm_bits.store(bpm.bits, Ordering::Relaxed);
            true
        } else {
            false
        }
    }
}

impl Default for SharedClock {
    fn default() -> Self {
        SharedClock::new()
    }
}

/// A clock runs at every positive number that is not infinite, and at nothing
/// else.
pub proof fn clocks_run_at_positive_tempos(bpm: F32Bits)
    ensures
        usable_tempo(bpm) <==> 0 < bpm.bits < 0x7F80_0000,
{
}

/// No two sources of the tempo share a label.
pub proof fn clock_labels_are_distinct(a: ClockSource, b: ClockSource)
    ensures
        a.label() == b.label() <==> a == b,
{
    reveal_strlit("internal");
    reveal_strlit("midi_in");
    reveal_strlit("ableton_link");
    assert(a.label().len() == b.label().len() ==> a == b);
}

/// Every source of the tempo goes by its own name.
pub proof fn clock_sources_go_by_their_names(a: ClockSource)
    ensures
        a.label() == "internal"@ <==> a == ClockSource::Internal,
        a.label() == "midi_in"@ <==> a == ClockSource::MidiIn,
        a.label() == "ableton_link"@ <==> a == ClockSource::AbletonLink,
{
    clock_labels_are_distinct(a, ClockSource::Internal);
    clock_labels_are_distinct(a, ClockSource::MidiIn);
    clock_labels_are_distinct(a, ClockSource::AbletonLink);
}

} // verus!
