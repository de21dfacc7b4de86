//! Commands from the control thread to the audio thread.
//!
//! A command is plain data: it fits a fixed-size ring slot and owns no heap.
use vstd::prelude::*;

use crate::audio::decode::{DecodeHandle, StemHandle};
use crate::audio::effects::lfo::LfoConfig;
use crate::f32_bits::F32Bits;
use crate::state::{CrossfaderCurve, DeckId};

verus! {

/// Largest opaque byte payload a command may carry.
pub const RAMP_BUFFER_MAX: usize = 32;

/// A command that takes effect at an absolute sample frame.
#[derive(Clone, Copy, Debug, PartialEq, Eq)]
pub struct AudioCommand {
    /// It takes effect with the first buffer that ends at this frame or
    /// behind it.
    pub at_frame: u64,
    pub kind: AudioCommandKind,
}

/// What the audio thread is asked to do.
#[derive(Clone, Copy, Debug, PartialEq, Eq)]
pub enum AudioCommandKind {
    DeckPlay { deck: DeckId },
    DeckPause { deck: DeckId },
    DeckSeek { deck: DeckId, frame: u64 },
    Crossfader { target: F32Bits, ramp_frames: u32 },
    SetCrossfaderCurve { curve: CrossfaderCurve },
    EqLow { deck: DeckId, target_db: F32Bits, ramp_frames: u32 },
    EqMid { deck: DeckId, target_db: F32Bits, ramp_frames: u32 },
    EqHigh { deck: DeckId, target_db: F32Bits, ramp_frames: u32 },
    Pitch { deck: DeckId, semitones: F32Bits, ramp_frames: u32 },
    Tempo { deck: DeckId, ratio: F32Bits, ramp_frames: u32 },
    PitchTempoReset { deck: DeckId },
    LoopArm { deck: DeckId, in_frame: u64, out_frame: u64 },
    LoopDisarm { deck: DeckId },
    DeckLoad { deck: DeckId, handle: DecodeHandle, track_gain_db: F32Bits },
    DeckUnload { deck: DeckId },
    DeckLoadStems { deck: DeckId, stems: StemHandle },
    SetStemGain { deck: DeckId, stem: u8, gain: F32Bits },
    /// Keep the co-pilot's automation running until `until_frame`.
    ArmHandoff { deck: DeckId, until_frame: u64 },
    /// Drop the commands of `deck` that are pending for more than
    /// `after_frames` after this one.
    CancelAfter { deck: DeckId, after_frames: u32 },
    EffectAssign { deck: DeckId, slot: u8, effect_id: u32 },
    EffectClear { deck: DeckId, slot: u8 },
    EffectParam { deck: DeckId, slot: u8, param_id: u8, value: F32Bits },
    EffectWetDry { deck: DeckId, slot: u8, value: F32Bits },
    EffectEnable { deck: DeckId, slot: u8, enabled: bool },
    EffectSwap { deck: DeckId, a: u8, b: u8 },
    EffectLfoSet { deck: DeckId, slot: u8, config: LfoConfig },
    EffectLfoClear { deck: DeckId, slot: u8 },
    SetMasterLimiterEnabled { enabled: bool },
    SetMasterLimiterThreshold { threshold_db: F32Bits },
}

} // verus!
