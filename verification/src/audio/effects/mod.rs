//! Effect registry and per-slot effect state.
use vstd::prelude::*;

use crate::f32_bits::{F32Bits, HALF_BITS, ONE_BITS, ZERO_BITS};
use crate::text::same_text;

pub mod delay;
pub mod lfo;

use lfo::LfoConfig;

verus! {

/// Registry number of an effect; 0 is the empty slot.
pub type EffectId = u32;

pub const EFFECT_NONE: u32 = 0;

pub const EFFECT_FILTER: u32 = 1;

pub const EFFECT_ECHO: u32 = 2;

pub const EFFECT_REVERB: u32 = 3;

pub const EFFECT_GATE: u32 = 4;

/// Parameters an effect can expose at most.
pub const MAX_PARAMS: usize = 6;

/// One effect's parameter values, by descriptor index.
pub type EffectParams = [F32Bits; 6];

/// Static description of one effect parameter.
#[derive(Clone, Copy, Debug)]
pub struct ParamDescriptor {
    pub name: &'static str,
    pub min: F32Bits,
    pub max: F32Bits,
    pub default: F32Bits,
}

/// What a descriptor says.
pub struct ParamView {
    pub name: Seq<char>,
    pub min: u32,
    pub max: u32,
    pub default: u32,
}

impl View for ParamDescriptor {
    type V = ParamView;

    open spec fn view(&self) -> ParamView {
        ParamView {
            name: self.name@,
            min: self.min.bits,
            max: self.max.bits,
            default: self.default.bits,
        }
    }
}

impl ParamDescriptor {
    /// Describe a parameter; the range and the default are bit patterns.
    fn new(name: &'static str, min: u32, max: u32, default: u32) -> (r: Self)
        ensures
            r@ == (ParamView { name: name@, min, max, default }),
    {
        ParamDescriptor {
            name,
            min: F32Bits { bits: min },
            max: F32Bits { bits: max },
            default: F32Bits { bits: default },
        }
    }

    /// Confine a candidate value to the parameter's range.
    pub fn clamp(&self, v: F32Bits) -> (r: F32Bits)
        ensures
            r == v.clamp_spec(self.min, self.max),
    {
        v.clamp(self.min, self.max)
    }
}

/// One row of the registry.
pub open spec fn param(name: Seq<char>, min: u32, max: u32, default: u32) -> ParamView {
    ParamView { name, min, max, default }
}

/// The parameters of each effect, in index order.
pub open spec fn registry(effect_id: EffectId) -> Seq<ParamView> {
    if effect_id == EFFECT_FILTER {
        seq![
            param("cutoff_hz"@, 0x41A0_0000, 0x469C_4000, 0x43FA_0000),
            param("resonance"@, ZERO_BITS, ONE_BITS, 0x3E99_999A),
            param("mode"@, ZERO_BITS, 0x4000_0000, ZERO_BITS),
        ]
    } else if effect_id == EFFECT_ECHO {
        seq![
            param("time_ms"@, 0x4120_0000, 0x44FA_0000, 0x437A_0000),
            param("feedback"@, ZERO_BITS, 0x3F73_3333, 0x3EE6_6666),
            param("tone"@, 0xBF80_0000, ONE_BITS, ZERO_BITS),
        ]
    } else if effect_id == EFFECT_REVERB {
        seq![
            param("room_size"@, ZERO_BITS, ONE_BITS, HALF_BITS),
            param("damping"@, ZERO_BITS, ONE_BITS, 0x3ECC_CCCD),
            param("width"@, ZERO_BITS, ONE_BITS, 0x3F33_3333),
        ]
    } else if effect_id == EFFECT_GATE {
        seq![
            param("period_div"@, ZERO_BITS, 0x4040_0000, ONE_BITS),
            param("duty"@, ZERO_BITS, ONE_BITS, HALF_BITS),
        ]
    } else {
        Seq::empty()
    }
}

/// The views of a list of descriptors.
pub open spec fn views(d: Seq<ParamDescriptor>) -> Seq<ParamView> {
    Seq::new(d.len(), |i: int| d[i]@)
}

/// Parameter `i` of an effect; none past the last, and none of an unknown
/// effect.
pub fn descriptor(effect_id: EffectId, i: usize) -> (r: Option<ParamDescriptor>)
    ensures
        match r {
            Some(d) => i < registry(effect_id).len() && d@ == registry(effect_id)[i as int],
            None => i >= registry(effect_id).len(),
        },
        registry(effect_id).len() <= 3,
{
    if effect_id == EFFECT_FILTER {
        match i {
            0 => Some(ParamDescriptor::new("cutoff_hz", 0x41A0_0000, 0x469C_4000, 0x43FA_0000)),
            1 => Some(ParamDescriptor::new("resonance", ZERO_BITS, ONE_BITS, 0x3E99_999A)),
            2 => Some(ParamDescriptor::new("mode", ZERO_BITS, 0x4000_0000, ZERO_BITS)),
            _ => None,
        }
    } else if effect_id == EFFECT_ECHO {
        match i {
            0 => Some(ParamDescriptor::new("time_ms", 0x4120_0000, 0x44FA_0000, 0x437A_0000)),
            1 => Some(ParamDescriptor::new("feedback", ZERO_BITS, 0x3F73_3333, 0x3EE6_6666)),
            2 => Some(ParamDescriptor::new("tone", 0xBF80_0000, ONE_BITS, ZERO_BITS)),
            _ => None,
        }
    } else if effect_id == EFFECT_REVERB {
        match i {
            0 => Some(ParamDescriptor::new("room_size", ZERO_BITS, ONE_BITS, HALF_BITS)),
            1 => Some(ParamDescriptor::new("damping", ZERO_BITS, ONE_BITS, 0x3ECC_CCCD)),
            2 => Some(ParamDescriptor::new("width", ZERO_BITS, ONE_BITS, 0x3F33_3333)),
            _ => None,
        }
    } else if effect_id == EFFECT_GATE {
        match i {
            0 => Some(ParamDescriptor::new("period_div", ZERO_BITS, 0x4040_0000, ONE_BITS)),
            1 => Some(ParamDescriptor::new("duty", ZERO_BITS, ONE_BITS, HALF_BITS)),
            _ => None,
        }
    } else {
        None
    }
}

/// The parameters of an effect; empty for an unknown effect.
pub fn descriptors(effect_id: EffectId) -> (r: Vec<ParamDescriptor>)
    ensures
        views(r@) == registry(effect_id),
        r@.len() <= 3,
{
    let mut out: Vec<ParamDescriptor> = Vec::new();
    let mut i: usize = 0;
    while i < MAX_PARAMS
        invariant
            i <= MAX_PARAMS,
            out@.len() == i,
            i <= registry(effect_id).len(),
            forall|j: int| 0 <= j < i ==> (#[trigger] out@[j])@ == registry(effect_id)[j],
        ensures
            out@.len() == registry(effect_id).len(),
            out@.len() <= 3,
            forall|j: int|
                0 <= j < out@.len() ==> (#[trigger] out@[j])@ == registry(effect_id)[j],
        decreases MAX_PARAMS - i,
    {
        match descriptor(effect_id, i) {
            Some(d) => {
                out.push(d);
            },
            None => {
                break;
            },
        }
        i += 1;
    }
    assert(views(out@) =~= registry(effect_id));
    out
}

/// Index of the first parameter called `name` in `table`, if there is one.
pub open spec fn first_named(table: Seq<ParamView>, name: Seq<char>) -> Option<int>
    decreases table.len(),
{
    if table.len() == 0 {
        None
    } else if table[0].name == name {
        Some(0)
    } else {
        match first_named(table.drop_first(), name) {
            Some(i) => Some(i + 1),
            None => None,
        }
    }
}

/// Number of the parameter `name` of an effect.
pub open spec fn resolved(effect_id: EffectId, name: Seq<char>) -> Option<u8> {
    match first_named(registry(effect_id), name) {
        Some(i) => Some(i as u8),
        None => None,
    }
}

/// `first_named` finds exactly the first match.
pub proof fn first_named_is_first(table: Seq<ParamView>, name: Seq<char>)
    ensures
        match first_named(table, name) {
            Some(i) => 0 <= i < table.len() && table[i].name == name && forall|j: int|
                0 <= j < i ==> #[trigger] table[j].name != name,
            None => forall|j: int| 0 <= j < table.len() ==> #[trigger] table[j].name != name,
        },
    decreases table.len(),
{
    if table.len() > 0 && table[0].name != name {
        let rest = table.drop_first();
        first_named_is_first(rest, name);
        assert forall|j: int| 1 <= j < table.len() implies table[j] == rest[j - 1] by {}
        match first_named(rest, name) {
            Some(i) => {
                assert forall|j: int| 0 <= j < i + 1 implies #[trigger] table[j].name != name by {
                    if j > 0 {
                        assert(table[j] == rest[j - 1]);
                    }
                }
            },
            None => {
                assert forall|j: int| 0 <= j < table.len() implies #[trigger] table[j].name
                    != name by {
                    if j > 0 {
                        assert(table[j] == rest[j - 1]);
                    }
                }
            },
        }
    }
}

/// Resolve a textual parameter name to its number for the given effect.
/// `None` if the effect or the parameter is unknown.
pub fn resolve_param(effect_id: EffectId, name: &str) -> (r: Option<u8>)
    ensures
        r == resolved(effect_id, name@),
{
    let ghost table = registry(effect_id);
    let mut i: usize = 0;
    while i < MAX_PARAMS
        invariant
            table == registry(effect_id),
            i <= MAX_PARAMS,
            i <= table.len(),
            forall|j: int| 0 <= j < i ==> #[trigger] table[j].name != name@,
        ensures
            i == table.len(),
            forall|j: int| 0 <= j < i ==> #[trigger] table[j].name != name@,
        decreases MAX_PARAMS - i,
    {
        match descriptor(effect_id, i) {
            Some(d) => {
                if same_text(d.name, name) {
                    proof {
                        first_named_is_first(table, name@);
                        assert(table[i as int].name == name@);
                    }
                    return Some(i as u8);
                }
            },
            None => {
                break;
            },
        }
        i += 1;
    }
    proof {
        first_named_is_first(table, name@);
    }
    None
}

/// Default value of parameter `i`: the descriptor's, or zero past its end.
pub open spec fn default_value(effect_id: EffectId, i: int) -> F32Bits {
    if 0 <= i < registry(effect_id).len() {
        F32Bits { bits: registry(effect_id)[i].default }
    } else {
        F32Bits { bits: ZERO_BITS }
    }
}

/// The default parameter table of an effect.
pub fn default_params(effect_id: EffectId) -> (r: EffectParams)
    ensures
        forall|i: int| 0 <= i < MAX_PARAMS ==> #[trigger] r[i] == default_value(effect_id, i),
{
    let zero: F32Bits = F32Bits { bits: ZERO_BITS };
    let mut p: [F32Bits; 6] = [zero, zero, zero, zero, zero, zero];
    let mut i: usize = 0;
    while i < MAX_PARAMS
        invariant
            i <= MAX_PARAMS,
            forall|j: int| 0 <= j < i ==> #[trigger] p[j] == default_value(effect_id, j),
            forall|j: int| i <= j < MAX_PARAMS ==> #[trigger] p[j] == zero,
            zero == (F32Bits { bits: ZERO_BITS }),
        decreases MAX_PARAMS - i,
    {
        match descriptor(effect_id, i) {
            Some(d) => {
                assert(d@ == registry(effect_id)[i as int]);
                p[i] = d.default;
            },
            None => {},
        }
        i += 1;
    }
    p
}

/// Control state of one effect slot.
pub struct FxBank {
    /// 0 for an empty slot, else the effect's registry number.
    pub effect_id: EffectId,
    pub params: EffectParams,
    /// 0 is fully dry, 1 fully wet.
    pub wet_dry: F32Bits,
    pub enabled: bool,
    /// Oscillator that modulates one parameter.
    pub lfo: Option<LfoConfig>,
}

/// What an effect slot does to the next buffer.
#[derive(Clone, Copy, Debug, PartialEq, Eq, Structural)]
pub struct FxPlan {
    pub effect_id: EffectId,
    /// Wet share, confined to `[0, 1]`.
    pub wet: F32Bits,
    pub lfo: Option<LfoConfig>,
}

impl FxBank {
    /// An empty, disabled slot.
    pub fn new() -> (r: Self)
        ensures
            r.effect_id == EFFECT_NONE,
            forall|i: int| 0 <= i < MAX_PARAMS ==> #[trigger] r.params[i].bits == ZERO_BITS,
            r.wet_dry.bits == HALF_BITS,
            !r.enabled,
            r.lfo is None,
    {
        let zero: F32Bits = F32Bits { bits: ZERO_BITS };
        FxBank {
            effect_id: EFFECT_NONE,
            params: [zero, zero, zero, zero, zero, zero],
            wet_dry: F32Bits { bits: HALF_BITS },
            enabled: false,
            lfo: None,
        }
    }

    /// Attach or replace the slot's oscillator.
    pub fn set_lfo(&mut self, config: LfoConfig)
        ensures
            *final(self) == (FxBank { lfo: Some(config), ..*old(self) }),
    {
        self.lfo = Some(config);
    }

    /// Detach the slot's oscillator.
    pub fn clear_lfo(&mut self)
        ensures
            *final(self) == (FxBank { lfo: None, ..*old(self) }),
    {
        self.lfo = None;
    }

    /// Give the slot to an effect: its default parameters, half wet,
    /// enabled. An oscillator is dropped, because its target index means
    /// something else under another effect. The result tells which effect
    /// has to clear its internal state.
    pub fn assign(&mut self, effect_id: EffectId) -> (reset: Option<EffectId>)
        ensures
            final(self).effect_id == effect_id,
            forall|i: int|
                0 <= i < MAX_PARAMS ==> #[trigger] final(self).params[i] == default_value(
                    effect_id,
                    i,
                ),
            final(self).wet_dry.bits == HALF_BITS,
            final(self).enabled,
            final(self).lfo is None,
            reset == (if EFFECT_FILTER <= effect_id <= EFFECT_GATE {
                Some(effect_id)
            } else {
                None::<EffectId>
            }),
    {
        self.effect_id = effect_id;
        self.params = default_params(effect_id);
        self.wet_dry = F32Bits { bits: HALF_BITS };
        self.enabled = true;
        self.lfo = None;
        if EFFECT_FILTER <= effect_id && effect_id <= EFFECT_GATE {
            Some(effect_id)
        } else {
            None
        }
    }

    /// Empty the slot. Parameters and blend keep their values.
    pub fn clear(&mut self)
        ensures
            *final(self) == (FxBank {
                effect_id: EFFECT_NONE,
                enabled: false,
                lfo: None,
                ..*old(self)
            }),
    {
        self.effect_id = EFFECT_NONE;
        self.enabled = false;
        self.lfo = None;
    }

    /// Value that a write of `value` to parameter `idx` leaves behind.
    pub open spec fn stored_value(self, idx: u8, value: F32Bits) -> F32Bits {
        let table = registry(self.effect_id);
        if (idx as int) < table.len() {
            value.clamp_spec(
                F32Bits { bits: table[idx as int].min },
                F32Bits { bits: table[idx as int].max },
            )
        } else {
            value
        }
    }

    /// Write one parameter, confined to its descriptor's range. An index
    /// past the table is ignored; one past the descriptors is stored raw.
    pub fn set_param(&mut self, idx: u8, value: F32Bits)
        ensures
            final(self).effect_id == old(self).effect_id,
            final(self).wet_dry == old(self).wet_dry,
            final(self).enabled == old(self).enabled,
            final(self).lfo == old(self).lfo,
            forall|i: int|
                0 <= i < MAX_PARAMS ==> #[trigger] final(self).params[i] == (if i == idx {
                    old(self).stored_value(idx, value)
                } else {
                    old(self).params[i]
                }),
    {
        let i: usize = idx as usize;
        if i < MAX_PARAMS {
            let stored: F32Bits = match descriptor(self.effect_id, i) {
                Some(d) => {
                    assert(d@ == registry(self.effect_id)[i as int]);
                    d.clamp(value)
                },
                None => value,
            };
            self.params[i] = stored;
        }
    }

    /// The slot's effect on a buffer, or `None` where the buffer passes
    /// untouched: the slot is disabled, empty or fully dry.
    pub open spec fn plan_spec(self) -> Option<FxPlan> {
        let zero = F32Bits { bits: ZERO_BITS };
        let dry = !self.wet_dry.is_nan_spec() && !zero.lt_spec(self.wet_dry);
        if !self.enabled || self.effect_id == EFFECT_NONE || dry {
            None
        } else {
            Some(
                FxPlan {
                    effect_id: self.effect_id,
                    wet: self.wet_dry.clamp_spec(zero, F32Bits { bits: ONE_BITS }),
                    lfo: self.lfo,
                },
            )
        }
    }

    /// Decide what to do to the next buffer.
    pub fn plan(&self) -> (r: Option<FxPlan>)
        ensures
            r == self.plan_spec(),
            r matches Some(p) ==> p.effect_id == self.effect_id && p.lfo == self.lfo,
            r is None <==> !self.enabled || self.effect_id == 0 || self.wet_dry.bits == 0
                || 0x8000_0000 <= self.wet_dry.bits <= 0xFF80_0000,
    {
        let zero: F32Bits = F32Bits { bits: ZERO_BITS };
        let one: F32Bits = F32Bits { bits: ONE_BITS };
        if !self.enabled || self.effect_id == EFFECT_NONE {
            return None;
        }
        if !self.wet_dry.is_nan() && !zero.less_than(self.wet_dry) {
            return None;
        }
        Some(FxPlan { effect_id: self.effect_id, wet: self.wet_dry.clamp(zero, one), lfo: self.lfo })
    }
}

/// How an oscillator moves a parameter.
#[derive(Clone, Copy, Debug, PartialEq, Eq, Structural)]
pub enum Modulation {
    /// Multiply by a power of two, this many octaves at full depth.
    Octaves(u32),
    /// Add half of the parameter's range at full depth.
    Additive,
}

/// The parameter that an oscillator moves, and how.
pub open spec fn modulation_spec(config: LfoConfig, effect_id: EffectId) -> Option<
    (usize, Modulation),
> {
    let idx = config.target_param as int;
    if idx >= MAX_PARAMS || idx >= registry(effect_id).len() {
        None
    } else if idx == 0 && effect_id == EFFECT_FILTER {
        Some((0usize, Modulation::Octaves(2)))
    } else if idx == 0 && effect_id == EFFECT_ECHO {
        Some((0usize, Modulation::Octaves(1)))
    } else {
        Some((idx as usize, Modulation::Additive))
    }
}

/// Choose the parameter that an oscillator moves. Filter cutoff sweeps two
/// octaves and echo time one, all others move additively; a target without
/// a descriptor moves nothing.
pub fn modulation(config: LfoConfig, effect_id: EffectId) -> (r: Option<(usize, Modulation)>)
    ensures
        r == modulation_spec(config, effect_id),
{
    let idx: usize = config.target_param as usize;
    if idx >= MAX_PARAMS || descriptor(effect_id, idx).is_none() {
        None
    } else if idx == 0 && effect_id == EFFECT_FILTER {
        Some((0, Modulation::Octaves(2)))
    } else if idx == 0 && effect_id == EFFECT_ECHO {
        Some((0, Modulation::Octaves(1)))
    } else {
        Some((idx, Modulation::Additive))
    }
}

/// Frames that a gate lets through.
pub open spec fn gate_open_spec(frame: int, period_frames: int, open_frames: int) -> bool {
    period_frames == 0 || frame % period_frames < open_frames
}

/// Whether a gate that opens for the first `open_frames` of every
/// `period_frames` lets `frame` through. A degenerate period never closes.
pub fn gate_open(frame: u64, period_frames: u64, open_frames: u64) -> (r: bool)
    ensures
        r == gate_open_spec(frame as int, period_frames as int, open_frames as int),
{
    if period_frames == 0 {
        true
    } else {
        frame % period_frames < open_frames
    }
}

/// A gate repeats with its period.
pub proof fn gate_is_periodic(frame: int, period_frames: int, open_frames: int)
    requires
        period_frames >= 0,
    ensures
        gate_open_spec(frame + period_frames, period_frames, open_frames) == gate_open_spec(
            frame,
            period_frames,
            open_frames,
        ),
{
    if period_frames > 0 {
        vstd::arithmetic::div_mod::lemma_mod_add_multiples_vanish(frame, period_frames);
    }
}

/// A freshly assigned slot uses every parameter at its default, and each of
/// those defaults lies inside the parameter's range.
pub proof fn defaults_lie_in_range(effect_id: EffectId, i: int)
    requires
        0 <= i < registry(effect_id).len(),
    ensures
        ({
            let row = registry(effect_id)[i];
            let d = F32Bits { bits: row.default };
            d.clamp_spec(F32Bits { bits: row.min }, F32Bits { bits: row.max }) == d
        }),
{
}

/// A plan is for the effect that the slot holds, with the slot's oscillator
/// and its share of wet, which is cut at fully wet.
pub proof fn plans_are_for_the_slots_effect(bank: FxBank)
    ensures
        bank.plan_spec() matches Some(p) ==> {
            &&& p.effect_id == bank.effect_id
            &&& p.lfo == bank.lfo
            &&& bank.wet_dry.bits <= 0x3F80_0000 ==> p.wet == bank.wet_dry
            &&& 0x3F80_0000 < bank.wet_dry.bits <= 0x7F80_0000 ==> p.wet.bits == 0x3F80_0000
            &&& 0x7F80_0000 < bank.wet_dry.bits < 0x8000_0000 || 0xFF80_0000 < bank.wet_dry.bits
                ==> p.wet == bank.wet_dry
        },
{
}

/// A slot lets a buffer pass untouched just where it is disabled, empty or
/// fully dry.
pub proof fn slots_pass_only_when_idle(bank: FxBank)
    ensures
        bank.plan_spec() is None <==> !bank.enabled || bank.effect_id == 0 || bank.wet_dry.bits == 0
            || 0x8000_0000 <= bank.wet_dry.bits <= 0xFF80_0000,
{
}

/// A slot that was given to an effect runs that effect, half wet and without
/// an oscillator; given to none, it runs nothing.
pub proof fn assigned_effects_are_planned(bank: FxBank, effect_id: EffectId)
    requires
        bank.effect_id == effect_id,
        bank.enabled,
        bank.wet_dry.bits == 0x3F00_0000,
        bank.lfo is None,
    ensures
        effect_id != 0 ==> bank.plan_spec() == Some(
            FxPlan { effect_id, wet: F32Bits { bits: 0x3F00_0000 }, lfo: None },
        ),
        effect_id == 0 ==> bank.plan_spec() is None,
{
}

/// A slot's plan does not depend on its parameters, and an oscillator shows
/// in it as it was attached.
pub proof fn plans_carry_the_oscillator(bank: FxBank, params: EffectParams, config: LfoConfig)
    ensures
        (FxBank { params, ..bank }).plan_spec() == bank.plan_spec(),
        (FxBank { lfo: Some(config), ..bank }).plan_spec() matches Some(p) ==> p.lfo == Some(config),
        (FxBank { lfo: None, ..bank }).plan_spec() matches Some(p) ==> p.lfo is None,
        (FxBank { lfo: Some(config), ..bank }).plan_spec() is Some <==> bank.plan_spec() is Some,
{
}

/// A value that is written to a parameter of the slot's effect stays as it
/// is, where it lies in the parameter's range; a smaller or larger one gives
/// the bound on its side. Past the effect's parameters nothing is confined.
pub proof fn written_values_stay_in_range(bank: FxBank, idx: u8, value: F32Bits)
    ensures
        ({
            let table = registry(bank.effect_id);
            let lo = F32Bits { bits: table[idx as int].min };
            let hi = F32Bits { bits: table[idx as int].max };
            let stored = bank.stored_value(idx, value);
            &&& idx >= table.len() ==> stored == value
            &&& idx < table.len() ==> {
                &&& !value.lt_spec(lo) && !hi.lt_spec(value) ==> stored == value
                &&& value.lt_spec(lo) ==> stored == lo
                &&& hi.lt_spec(value) ==> stored == hi
            }
        }),
{
}

/// The parameters of the effects: how many there are, and the range and the
/// default of each, as bit patterns.
pub proof fn parameter_ranges()
    ensures
        forall|id: EffectId| id == 0 || id > 4 ==> (#[trigger] registry(id)).len() == 0,
        registry(1).len() == 3,
        registry(2).len() == 3,
        registry(3).len() == 3,
        registry(4).len() == 2,
        // Cutoff: 20 Hz to 20 kHz; resonance: a share; mode: one of three.
        registry(1)[0].min == 0x41A0_0000 && registry(1)[0].max == 0x469C_4000,
        registry(1)[1].min == 0 && registry(1)[1].max == 0x3F80_0000,
        registry(1)[2].min == 0 && registry(1)[2].max == 0x4000_0000,
        // Time: 10 ms to 2 s; feedback: below one; tone: either way.
        registry(2)[0].min == 0x4120_0000 && registry(2)[0].max == 0x44FA_0000,
        registry(2)[1].min == 0 && registry(2)[1].max == 0x3F73_3333,
        registry(2)[2].min == 0xBF80_0000 && registry(2)[2].max == 0x3F80_0000,
        // Room size, damping and width: shares.
        forall|i: int|
            0 <= i < 3 ==> (#[trigger] registry(3)[i]).min == 0 && registry(3)[i].max == 0x3F80_0000,
        // Period: one of four; duty: a share.
        registry(4)[0].min == 0 && registry(4)[0].max == 0x4040_0000,
        registry(4)[1].min == 0 && registry(4)[1].max == 0x3F80_0000,
        registry(1)[0].default == 0x43FA_0000,
        registry(1)[1].default == 0x3E99_999A,
        registry(1)[2].default == 0,
        registry(2)[0].default == 0x437A_0000,
        registry(2)[1].default == 0x3EE6_6666,
        registry(2)[2].default == 0,
        registry(3)[0].default == 0x3F00_0000,
        registry(3)[1].default == 0x3ECC_CCCD,
        registry(3)[2].default == 0x3F33_3333,
        registry(4)[0].default == 0x3F80_0000,
        registry(4)[1].default == 0x3F00_0000,
{
}

/// Every parameter of an effect starts at its default, and places without a
/// parameter at zero.
pub proof fn defaults_come_from_the_table(effect_id: EffectId, i: int)
    requires
        0 <= i < 6,
    ensures
        i < registry(effect_id).len() ==> default_value(effect_id, i).bits == registry(
            effect_id,
        )[i].default,
        i >= registry(effect_id).len() ==> default_value(effect_id, i).bits == 0,
{
}

/// A parameter is found by its name, and by no other.
pub proof fn parameters_are_found_by_name(effect_id: EffectId, name: Seq<char>, i: int)
    ensures
        match resolved(effect_id, name) {
            Some(n) => n < registry(effect_id).len() && registry(effect_id)[n as int].name == name
                && forall|j: int| 0 <= j < n ==> #[trigger] registry(effect_id)[j].name != name,
            None => forall|j: int|
                0 <= j < registry(effect_id).len() ==> #[trigger] registry(effect_id)[j].name
                    != name,
        },
        0 <= i < registry(effect_id).len() ==> resolved(effect_id, registry(effect_id)[i].name)
            == Some(i as u8),
{
    first_named_is_first(registry(effect_id), name);
    lemma_names_are_distinct(effect_id);
    if 0 <= i < registry(effect_id).len() {
        first_named_is_first(registry(effect_id), registry(effect_id)[i].name);
    }
}

proof fn lemma_names_are_distinct(effect_id: EffectId)
    ensures
        forall|i: int, j: int|
            0 <= i < j < registry(effect_id).len() ==> (#[trigger] registry(effect_id)[i]).name != (
            #[trigger] registry(effect_id)[j]).name,
{
    reveal_strlit("cutoff_hz");
    reveal_strlit("resonance");
    reveal_strlit("mode");
    reveal_strlit("time_ms");
    reveal_strlit("feedback");
    reveal_strlit("tone");
    reveal_strlit("room_size");
    reveal_strlit("damping");
    reveal_strlit("width");
    reveal_strlit("period_div");
    reveal_strlit("duty");
    let table = registry(effect_id);
    assert forall|i: int, j: int| 0 <= i < j < table.len() implies (#[trigger] table[i]).name != (
    #[trigger] table[j]).name by {
        assert(table[i].name.len() != table[j].name.len() || table[i].name[0] != table[j].name[0]);
    }
}

/// An oscillator moves the parameter that it names, where the effect has it,
/// and nothing else: the filter's cutoff by two octaves, the echo's time by
/// one, and every other parameter by adding.
pub proof fn oscillators_move_the_parameter_they_name(config: LfoConfig, effect_id: EffectId)
    ensures
        modulation_spec(config, effect_id) is Some <==> config.target_param < registry(
            effect_id,
        ).len(),
        modulation_spec(config, effect_id) matches Some(m) ==> {
            &&& m.0 == config.target_param
            &&& m.1 == Modulation::Octaves(2) <==> effect_id == 1 && m.0 == 0
            &&& m.1 == Modulation::Octaves(1) <==> effect_id == 2 && m.0 == 0
            &&& m.1 == Modulation::Additive <==> !((effect_id == 1 || effect_id == 2) && m.0 == 0)
        },
{
}

/// A gate is open for the first `open_frames` frames of every period and
/// closed for the rest of it; without a period it is open.
pub proof fn gates_open_at_the_start_of_each_period(
    period: int,
    k: int,
    period_frames: int,
    open_frames: int,
)
    requires
        0 <= period,
        0 <= k,
        k < period_frames || period_frames == 0,
    ensures
        period_frames > 0 ==> (gate_open_spec(
            period * period_frames + k,
            period_frames,
            open_frames,
        ) <==> k < open_frames),
        period_frames == 0 ==> gate_open_spec(k, period_frames, open_frames),
{
    if period_frames > 0 {
        vstd::arithmetic::div_mod::lemma_mod_multiples_vanish(period, k, period_frames);
        vstd::arithmetic::div_mod::lemma_small_mod(k as nat, period_frames as nat);
        assert(period_frames * period + k == period * period_frames + k) by (nonlinear_arith);
    }
}

} // verus!
