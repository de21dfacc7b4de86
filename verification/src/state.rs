//! The part of the engine state and of its events that the audio side reads.
use vstd::prelude::*;

use crate::audio::effects::lfo::LfoConfig;
use crate::audio::effects::EFFECT_NONE;
use crate::audio::limiter::DEFAULT_THRESHOLD_BITS;
use crate::f32_bits::{F32Bits, HALF_BITS, ONE_BITS, ZERO_BITS};

verus! {

/// Effect slots per deck.
pub const EFFECT_SLOTS: usize = 3;

#[derive(Clone, Copy, Debug, PartialEq, Eq, Hash, Structural)]
pub enum DeckId {
    A,
    B,
}

#[derive(Clone, Copy, Debug, PartialEq, Eq, Hash, Structural)]
pub enum EqBand {
    Low,
    Mid,
    High,
}

/// Gain law of the crossfader.
#[derive(Clone, Copy, Debug, PartialEq, Eq, Hash, Structural)]
pub enum CrossfaderCurve {
    Linear,
    ConstantPower,
    Cut,
}

/// A track in the library: its id and where its audio lives.
#[derive(Debug)]
pub struct TrackRef {
    pub id: String,
    pub path: String,
}

/// One slot of a deck's effect chain; `effect_id` 0 means empty.
#[derive(Clone, Copy, Debug, PartialEq, Eq, Structural)]
pub struct EffectSlot {
    pub effect_id: u32,
    pub enabled: bool,
    pub lfo: Option<LfoConfig>,
}

#[derive(Clone, Copy, Debug)]
pub struct Deck {
    pub playing: bool,
    pub position_ms: u64,
    pub eq_low_db: F32Bits,
    pub eq_mid_db: F32Bits,
    pub eq_high_db: F32Bits,
    pub pitch_semitones: F32Bits,
    pub tempo_ratio: F32Bits,
    pub loop_active: bool,
    pub loop_in_ms: Option<u64>,
    pub loop_out_ms: Option<u64>,
    pub effects: [EffectSlot; 3],
}

#[derive(Clone, Copy, Debug)]
pub struct EngineState {
    pub deck_a: Deck,
    pub deck_b: Deck,
    pub crossfader: F32Bits,
    pub crossfader_curve: CrossfaderCurve,
    pub master_limiter_enabled: bool,
    pub master_limiter_threshold_db: F32Bits,
}

/// Who caused an event.
#[derive(Debug)]
pub enum EventSource {
    Ui,
    Midi { device: String, mapping: String },
    Copilot,
}

/// What happened.
#[derive(Debug)]
pub enum EventKind {
    SessionStart,
    SessionEnd,
    DeckLoad {
        deck: DeckId,
        track: TrackRef,
        bpm: F32Bits,
        beat_grid_anchor_ms: u64,
        downbeats_ms: Vec<u64>,
        hot_cues: [Option<u64>; 8],
        track_gain_db: F32Bits,
    },
    DeckLoadStems { deck: DeckId, track: TrackRef, stem_paths: [String; 4] },
    DeckUnload { deck: DeckId },
    DeckPlay { deck: DeckId },
    DeckPause { deck: DeckId },
    DeckCue { deck: DeckId, position_ms: u64 },
    HotCueSet { deck: DeckId, index: u8, position_ms: u64 },
    HotCueTrigger { deck: DeckId, index: u8 },
    LoopIn { deck: DeckId },
    LoopOut { deck: DeckId },
    LoopExit { deck: DeckId },
    SetLoopBars { deck: DeckId, bars: u32 },
    Crossfader { value: F32Bits },
    SetCrossfaderCurve { curve: CrossfaderCurve },
    EqAdjust { deck: DeckId, band: EqBand, value_db: F32Bits },
    PitchBend { deck: DeckId, semitones: F32Bits },
    TempoBend { deck: DeckId, ratio: F32Bits },
    PitchTempoReset { deck: DeckId },
    PhaseNudge { deck: DeckId, ms: F32Bits },
    SetStemGain { deck: DeckId, stem: u8, gain: F32Bits },
    CopilotEngage { deck: DeckId },
    CopilotDisengage { deck: DeckId },
    TakeOver { deck: DeckId, handoff_until_frame: u64 },
    EffectAssign { deck: DeckId, slot: u8, effect_id: u32 },
    EffectClear { deck: DeckId, slot: u8 },
    EffectParam { deck: DeckId, slot: u8, param: String, value: F32Bits },
    EffectWetDry { deck: DeckId, slot: u8, value: F32Bits },
    EffectEnable { deck: DeckId, slot: u8, enabled: bool },
    EffectSwapSlots { deck: DeckId, slot_a: u8, slot_b: u8 },
    EffectLfoSet { deck: DeckId, slot: u8, config: LfoConfig },
    EffectLfoClear { deck: DeckId, slot: u8 },
    EffectOneShot { deck: DeckId, slot: u8, beats: F32Bits },
    SetMasterBpm { bpm: F32Bits },
    SetMasterLimiterEnabled { enabled: bool },
    SetMasterLimiterThreshold { threshold_db: F32Bits },
}

#[derive(Debug)]
pub struct Event {
    pub id: u64,
    pub ts_micros: i64,
    pub source: EventSource,
    pub kind: EventKind,
}

/// Two values tell of the same happening; the downbeats of a load count by
/// their numbers.
pub open spec fn same_kind(a: EventKind, b: EventKind) -> bool {
    match a {
        EventKind::DeckLoad {
            deck,
            track,
            bpm,
            beat_grid_anchor_ms,
            downbeats_ms,
            hot_cues,
            track_gain_db,
        } => {
            &&& b is DeckLoad
            &&& b->DeckLoad_downbeats_ms@ == downbeats_ms@
            &&& b == (EventKind::DeckLoad {
                deck,
                track,
                bpm,
                beat_grid_anchor_ms,
                downbeats_ms: b->DeckLoad_downbeats_ms,
                hot_cues,
                track_gain_db,
            })
        },
        _ => b == a,
    }
}

/// Two values are the same event.
pub open spec fn same_event(a: Event, b: Event) -> bool {
    &&& a.id == b.id
    &&& a.ts_micros == b.ts_micros
    &&& a.source == b.source
    &&& same_kind(a.kind, b.kind)
}

fn copy_of(v: &Vec<u64>) -> (r: Vec<u64>)
    ensures
        r@ == v@,
{
    let mut out: Vec<u64> = Vec::new();
    let n: usize = v.len();
    let mut i: usize = 0;
    assert(v@.take(0) =~= out@);
    while i < n
        invariant
            i <= n,
            n == v@.len(),
            out@ == v@.take(i as int),
        decreases n - i,
    {
        out.push(v[i]);
        i += 1;
        assert(v@.take(i as int) =~= v@.take(i - 1).push(v@[i - 1]));
    }
    assert(v@.take(n as int) =~= v@);
    out
}

impl Clone for TrackRef {
    fn clone(&self) -> (r: Self)
        ensures
            r == *self,
    {
        TrackRef { id: self.id.clone(), path: self.path.clone() }
    }
}

impl Clone for EventSource {
    fn clone(&self) -> (r: Self)
        ensures
            r == *self,
    {
        match self {
            EventSource::Ui => EventSource::Ui,
            EventSource::Midi { device, mapping } => EventSource::Midi {
                device: device.clone(),
                mapping: mapping.clone(),
            },
            EventSource::Copilot => EventSource::Copilot,
        }
    }
}

impl Clone for EventKind {
    fn clone(&self) -> (r: Self)
        ensures
            same_kind(*self, r),
    {
        match self {
            EventKind::SessionStart => EventKind::SessionStart,
            EventKind::SessionEnd => EventKind::SessionEnd,
            EventKind::DeckLoad {
                deck,
                track,
                bpm,
                beat_grid_anchor_ms,
                downbeats_ms,
                hot_cues,
                track_gain_db,
            } => EventKind::DeckLoad {
                deck: *deck,
                track: track.clone(),
                bpm: *bpm,
                beat_grid_anchor_ms: *beat_grid_anchor_ms,
                downbeats_ms: copy_of(downbeats_ms),
                hot_cues: *hot_cues,
                track_gain_db: *track_gain_db,
            },
            EventKind::DeckLoadStems { deck, track, stem_paths } => {
                let paths: [String; 4] = [
                    stem_paths[0].clone(),
                    stem_paths[1].clone(),
                    stem_paths[2].clone(),
                    stem_paths[3].clone(),
                ];
                assert(paths =~= *stem_paths);
                EventKind::DeckLoadStems { deck: *deck, track: track.clone(), stem_paths: paths }
            },
            EventKind::DeckUnload { deck } => EventKind::DeckUnload { deck: *deck },
            EventKind::DeckPlay { deck } => EventKind::DeckPlay { deck: *deck },
            EventKind::DeckPause { deck } => EventKind::DeckPause { deck: *deck },
            EventKind::DeckCue { deck, position_ms } => EventKind::DeckCue {
                deck: *deck,
                position_ms: *position_ms,
            },
            EventKind::HotCueSet { deck, index, position_ms } => EventKind::HotCueSet {
                deck: *deck,
                index: *index,
                position_ms: *position_ms,
            },
            EventKind::HotCueTrigger { deck, index } => EventKind::HotCueTrigger {
                deck: *deck,
                index: *index,
            },
            EventKind::LoopIn { deck } => EventKind::LoopIn { deck: *deck },
            EventKind::LoopOut { deck } => EventKind::LoopOut { deck: *deck },
            EventKind::LoopExit { deck } => EventKind::LoopExit { deck: *deck },
            EventKind::SetLoopBars { deck, bars } => EventKind::SetLoopBars {
                deck: *deck,
                bars: *bars,
            },
            EventKind::Crossfader { value } => EventKind::Crossfader { value: *value },
            EventKind::SetCrossfaderCurve { curve } => EventKind::SetCrossfaderCurve {
                curve: *curve,
            },
            EventKind::EqAdjust { deck, band, value_db } => EventKind::EqAdjust {
                deck: *deck,
                band: *band,
                value_db: *value_db,
            },
            EventKind::PitchBend { deck, semitones } => EventKind::PitchBend {
                deck: *deck,
                semitones: *semitones,
            },
            EventKind::TempoBend { deck, ratio } => EventKind::TempoBend {
                deck: *deck,
                ratio: *ratio,
            },
            EventKind::PitchTempoReset { deck } => EventKind::PitchTempoReset { deck: *deck },
            EventKind::PhaseNudge { deck, ms } => EventKind::PhaseNudge { deck: *deck, ms: *ms },
            EventKind::SetStemGain { deck, stem, gain } => EventKind::SetStemGain {
                deck: *deck,
                stem: *stem,
                gain: *gain,
            },
            EventKind::CopilotEngage { deck } => EventKind::CopilotEngage { deck: *deck },
            EventKind::CopilotDisengage { deck } => EventKind::CopilotDisengage { deck: *deck },
            EventKind::TakeOver { deck, handoff_until_frame } => EventKind::TakeOver {
                deck: *deck,
                handoff_until_frame: *handoff_until_frame,
            },
            EventKind::EffectAssign { deck, slot, effect_id } => EventKind::EffectAssign {
                deck: *deck,
                slot: *slot,
                effect_id: *effect_id,
            },
            EventKind::EffectClear { deck, slot } => EventKind::EffectClear {
                deck: *deck,
                slot: *slot,
            },
            EventKind::EffectParam { deck, slot, param, value } => EventKind::EffectParam {
                deck: *deck,
                slot: *slot,
                param: param.clone(),
                value: *value,
            },
            EventKind::EffectWetDry { deck, slot, value } => EventKind::EffectWetDry {
                deck: *deck,
                slot: *slot,
                value: *value,
            },
            EventKind::EffectEnable { deck, slot, enabled } => EventKind::EffectEnable {
                deck: *deck,
                slot: *slot,
                enabled: *enabled,
            },
            EventKind::EffectSwapSlots { deck, slot_a, slot_b } => EventKind::EffectSwapSlots {
                deck: *deck,
                slot_a: *slot_a,
                slot_b: *slot_b,
            },
            EventKind::EffectLfoSet { deck, slot, config } => EventKind::EffectLfoSet {
                deck: *deck,
                slot: *slot,
                config: *config,
            },
            EventKind::EffectLfoClear { deck, slot } => EventKind::EffectLfoClear {
                deck: *deck,
                slot: *slot,
            },
            EventKind::EffectOneShot { deck, slot, beats } => EventKind::EffectOneShot {
                deck: *deck,
                slot: *slot,
                beats: *beats,
            },
            EventKind::SetMasterBpm { bpm } => EventKind::SetMasterBpm { bpm: *bpm },
            EventKind::SetMasterLimiterEnabled { enabled } => EventKind::SetMasterLimiterEnabled {
                enabled: *enabled,
            },
            EventKind::SetMasterLimiterThreshold { threshold_db } => EventKind::SetMasterLimiterThreshold {
                threshold_db: *threshold_db,
            },
        }
    }
}

impl Clone for Event {
    fn clone(&self) -> (r: Self)
        ensures
            same_event(*self, r),
    {
        Event {
            id: self.id,
            ts_micros: self.ts_micros,
            source: self.source.clone(),
            kind: self.kind.clone(),
        }
    }
}

impl EffectSlot {
    /// The empty slot.
    pub open spec fn empty_spec() -> EffectSlot {
        EffectSlot { effect_id: EFFECT_NONE, enabled: false, lfo: None }
    }
}

impl Default for EffectSlot {
    /// The empty slot.
    fn default() -> (r: Self)
        ensures
            r == EffectSlot::empty_spec(),
    {
        EffectSlot { effect_id: EFFECT_NONE, enabled: false, lfo: None }
    }
}

impl Deck {
    /// A stopped deck at the start of no track, with neutral controls.
    pub open spec fn idle(self) -> bool {
        &&& !self.playing
        &&& self.position_ms == 0
        &&& self.eq_low_db.bits == ZERO_BITS
        &&& self.eq_mid_db.bits == ZERO_BITS
        &&& self.eq_high_db.bits == ZERO_BITS
        &&& self.pitch_semitones.bits == ZERO_BITS
        &&& self.tempo_ratio.bits == ONE_BITS
        &&& !self.loop_active
        &&& self.loop_in_ms is None
        &&& self.loop_out_ms is None
        &&& forall|i: int|
            0 <= i < EFFECT_SLOTS ==> #[trigger] self.effects[i] == EffectSlot::empty_spec()
    }
}

impl Default for Deck {
    /// An idle deck.
    fn default() -> (r: Self)
        ensures
            r.idle(),
    {
        let zero: F32Bits = F32Bits { bits: ZERO_BITS };
        let slot: EffectSlot = EffectSlot { effect_id: EFFECT_NONE, enabled: false, lfo: None };
        Deck {
            playing: false,
            position_ms: 0,
            eq_low_db: zero,
            eq_mid_db: zero,
            eq_high_db: zero,
            pitch_semitones: zero,
            tempo_ratio: F32Bits { bits: ONE_BITS },
            loop_active: false,
            loop_in_ms: None,
            loop_out_ms: None,
            effects: [slot, slot, slot],
        }
    }
}

impl EngineState {
    /// Two idle decks, the crossfader in the middle, the limiter on.
    pub open spec fn initial(self) -> bool {
        &&& self.deck_a.idle()
        &&& self.deck_b.idle()
        &&& self.crossfader.bits == HALF_BITS
        &&& self.crossfader_curve == CrossfaderCurve::Linear
        &&& self.master_limiter_enabled
        &&& self.master_limiter_threshold_db.bits == DEFAULT_THRESHOLD_BITS
    }
}

impl Default for EngineState {
    /// The state that a session starts in.
    fn default() -> (r: Self)
        ensures
            r.initial(),
    {
        EngineState {
            deck_a: Deck::default(),
            deck_b: Deck::default(),
            crossfader: F32Bits { bits: HALF_BITS },
            crossfader_curve: CrossfaderCurve::Linear,
            master_limiter_enabled: true,
            master_limiter_threshold_db: F32Bits { bits: DEFAULT_THRESHOLD_BITS },
        }
    }
}

impl EngineState {
    /// The deck named by `id`.
    pub open spec fn deck(self, id: DeckId) -> Deck {
        match id {
            DeckId::A => self.deck_a,
            DeckId::B => self.deck_b,
        }
    }

    /// Borrow the deck named by `id`.
    pub fn deck_ref(&self, id: DeckId) -> (r: &Deck)
        ensures
            *r == self.deck(id),
    {
        match id {
            DeckId::A => &self.deck_a,
            DeckId::B => &self.deck_b,
        }
    }
}

impl Deck {
    /// The effect slot at `slot`, or `None` past the end of the chain.
    pub open spec fn slot(self, slot: u8) -> Option<EffectSlot> {
        if slot < EFFECT_SLOTS {
            Some(self.effects[slot as int])
        } else {
            None
        }
    }

    /// Look up an effect slot.
    pub fn effect_slot(&self, slot: u8) -> (r: Option<EffectSlot>)
        ensures
            r == self.slot(slot),
    {
        let i: usize = slot as usize;
        if i < EFFECT_SLOTS {
            Some(self.effects[i])
        } else {
            None
        }
    }
}

/// A copy of an event tells the same in every part of it.
pub proof fn copies_tell_the_same(a: Event, b: Event)
    requires
        same_event(a, b),
    ensures
        a.id == b.id,
        a.ts_micros == b.ts_micros,
        a.source == b.source,
        !(a.kind is DeckLoad) ==> a.kind == b.kind,
        a.kind is DeckLoad ==> {
            &&& b.kind is DeckLoad
            &&& a.kind->DeckLoad_deck == b.kind->DeckLoad_deck
            &&& a.kind->DeckLoad_track == b.kind->DeckLoad_track
            &&& a.kind->DeckLoad_bpm == b.kind->DeckLoad_bpm
            &&& a.kind->DeckLoad_beat_grid_anchor_ms == b.kind->DeckLoad_beat_grid_anchor_ms
            &&& a.kind->DeckLoad_downbeats_ms@ == b.kind->DeckLoad_downbeats_ms@
            &&& a.kind->DeckLoad_hot_cues == b.kind->DeckLoad_hot_cues
            &&& a.kind->DeckLoad_track_gain_db == b.kind->DeckLoad_track_gain_db
        },
{
}

/// Each deck and each slot of its chain is the one that is named.
pub proof fn decks_and_slots_are_the_named_ones(state: EngineState, d: Deck, slot: u8)
    ensures
        state.deck(DeckId::A) == state.deck_a,
        state.deck(DeckId::B) == state.deck_b,
        slot < 3 ==> d.slot(slot) == Some(d.effects[slot as int]),
        slot >= 3 ==> d.slot(slot) is None,
{
}

/// A session starts with both decks stopped and neutral, their slots empty,
/// the crossfader in the middle and the limiter half a decibel below full
/// scale.
pub proof fn sessions_start_neutral(state: EngineState, i: int)
    requires
        state.initial(),
        0 <= i < 3,
    ensures
        state.crossfader.bits == 0x3F00_0000,
        state.crossfader_curve == CrossfaderCurve::Linear,
        state.master_limiter_enabled,
        state.master_limiter_threshold_db.bits == 0xBF00_0000,
        forall|id: DeckId|
            ({
                let d = #[trigger] state.deck(id);
                &&& !d.playing && d.position_ms == 0 && !d.loop_active
                &&& d.loop_in_ms is None && d.loop_out_ms is None
                &&& d.eq_low_db.bits == 0 && d.eq_mid_db.bits == 0 && d.eq_high_db.bits == 0
                &&& d.pitch_semitones.bits == 0 && d.tempo_ratio.bits == 0x3F80_0000
                &&& d.effects[i].effect_id == 0
                &&& !d.effects[i].enabled
                &&& d.effects[i].lfo is None
            }),
{
}

} // verus!
