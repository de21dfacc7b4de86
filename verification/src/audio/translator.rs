//! Translation of applied events into audio commands.
//!
//! A translation looks at the state before and after an event and yields the
//! commands that bring the audio thread from one to the other. Where an event
//! loads a track, the decode service is asked for it first; what it answered
//! is then an input of the translation like any other.
use vstd::prelude::*;

use crate::audio::batch::{AudioCmdBatch, DecodeFailures};
use crate::audio::command::{AudioCommand, AudioCommandKind};
use crate::audio::decode::{
    handles_of, source_of, sources_are_the_tracks_own, stem_source, stems_are_asked_for_in_turn,
    stems_asked_for, unnamed, Attempt, DecodeError, DecodeHandle, DecodeService, StemHandle,
};
use crate::audio::effects::{resolve_param, resolved, EFFECT_NONE};
use crate::audio::mixer::{
    commands_keep_to_their_own, crossfader_goes_to_its_target, decks_play_between_start_and_stop,
    limiter_follows_its_commands, AudioMixer,
};
use crate::audio::slots::slot_of;
use crate::audio::effects::lfo::LfoConfig;
use crate::f32_bits::F32Bits;
use crate::state::{
    CrossfaderCurve, Deck, DeckId, EffectSlot, EngineState, EqBand, Event, EventKind, TrackRef,
    EFFECT_SLOTS,
};

verus! {

/// Beats per bar in 4/4.
pub const BAR_BEATS: u32 = 4;

/// Ramp of continuous parameters, in milliseconds; long enough to mask
/// zipper noise.
pub const DEFAULT_RAMP_MS: u32 = 5;

/// Stems of a separated track.
pub const STEMS: u8 = 4;

/// A load that failed while an event was translated.
#[derive(Debug)]
pub struct DecodeFailure {
    /// Deck that the load was for.
    pub deck: DeckId,
    pub track_id: String,
    pub error: DecodeError,
}

/// Coarse class of a decode error.
pub open spec fn error_category(error: DecodeError) -> Seq<char> {
    match error {
        DecodeError::Io { .. } => "file_not_found"@,
        DecodeError::Probe(_) => "format_unsupported"@,
        DecodeError::NoTrack => "format_unsupported"@,
        DecodeError::Resampler(_) => "decoder_error"@,
        DecodeError::NoFreeSlot => "resource_exhausted"@,
        DecodeError::UnknownInlineSource(_) => "unknown_inline_source"@,
        DecodeError::Spawn(_) => "decoder_thread_spawn"@,
    }
}

impl DecodeFailure {
    /// Coarse failure class, stable so that a client can branch on it.
    pub fn category(&self) -> (r: &'static str)
        ensures
            r@ == error_category(self.error),
    {
        match &self.error {
            DecodeError::Io { .. } => "file_not_found",
            DecodeError::Probe(_) => "format_unsupported",
            DecodeError::NoTrack => "format_unsupported",
            DecodeError::Resampler(_) => "decoder_error",
            DecodeError::NoFreeSlot => "resource_exhausted",
            DecodeError::UnknownInlineSource(_) => "unknown_inline_source",
            DecodeError::Spawn(_) => "decoder_thread_spawn",
        }
    }
}

/// What the decode service answered to an event that loads a track.
#[derive(Debug)]
pub enum Opened {
    /// The event loads nothing.
    NotAsked,
    Track(Result<DecodeHandle, DecodeError>),
    Stems(Result<StemHandle, DecodeError>),
}

/// Frames in `ms` milliseconds, modulo the range of a frame number.
pub open spec fn frames_in(ms: u64, sample_rate: u32) -> u64 {
    ((ms * sample_rate / 1000) % 0x1_0000_0000_0000_0000) as u64
}

/// Frames of the default ramp.
pub open spec fn ramp_spec(sample_rate: u32) -> u32 {
    (DEFAULT_RAMP_MS * sample_rate / 1000) as u32
}

/// Frames from `now` to `until`, modulo the range of the command's field;
/// 0 once `until` has passed.
pub open spec fn frames_until(until: u64, now: u64) -> u32 {
    if until <= now {
        0
    } else {
        ((until - now) % 0x1_0000_0000) as u32
    }
}

/// The slot number confined to the chain.
pub open spec fn clamped_slot(slot: u8) -> u8 {
    if slot < EFFECT_SLOTS {
        slot
    } else {
        (EFFECT_SLOTS - 1) as u8
    }
}

/// Effect in a slot, or none past the chain.
pub open spec fn effect_in(deck: Deck, slot: u8) -> u32 {
    match deck.slot(slot) {
        Some(s) => s.effect_id,
        None => EFFECT_NONE,
    }
}

/// Whether a slot exists and is enabled.
pub open spec fn slot_enabled(deck: Deck, slot: u8) -> bool {
    match deck.slot(slot) {
        Some(s) => s.enabled,
        None => false,
    }
}

/// The armed loop of a deck as a command, if the deck has a whole one.
pub open spec fn loop_command(d: Deck, deck: DeckId, sample_rate: u32) -> Option<
    AudioCommandKind,
> {
    match (d.loop_in_ms, d.loop_out_ms) {
        (Some(in_ms), Some(out_ms)) => if d.loop_active {
            Some(
                AudioCommandKind::LoopArm {
                    deck,
                    in_frame: frames_in(in_ms, sample_rate),
                    out_frame: frames_in(out_ms, sample_rate),
                },
            )
        } else {
            None
        },
        _ => None,
    }
}

/// The one command that an event gives rise to, if it does. Taking a deck
/// over is the exception, which yields two: see `commands_for`.
pub open spec fn command_for(
    prev: EngineState,
    next: EngineState,
    kind: EventKind,
    sample_rate: u32,
    opened: Opened,
) -> Option<AudioCommandKind> {
    let ramp_frames = ramp_spec(sample_rate);
    match kind {
        EventKind::DeckPlay { deck } => if !prev.deck(deck).playing && next.deck(deck).playing {
            Some(AudioCommandKind::DeckPlay { deck })
        } else {
            None
        },
        EventKind::DeckPause { deck } => if prev.deck(deck).playing && !next.deck(deck).playing {
            Some(AudioCommandKind::DeckPause { deck })
        } else {
            None
        },
        EventKind::DeckCue { deck, position_ms } => Some(
            AudioCommandKind::DeckSeek { deck, frame: frames_in(position_ms, sample_rate) },
        ),
        EventKind::HotCueTrigger { deck, .. } => Some(
            AudioCommandKind::DeckSeek {
                deck,
                frame: frames_in(next.deck(deck).position_ms, sample_rate),
            },
        ),
        EventKind::Crossfader { .. } => Some(
            AudioCommandKind::Crossfader { target: next.crossfader, ramp_frames },
        ),
        EventKind::SetCrossfaderCurve { .. } => Some(
            AudioCommandKind::SetCrossfaderCurve { curve: next.crossfader_curve },
        ),
        EventKind::EqAdjust { deck, band, .. } => Some(
            match band {
                EqBand::Low => AudioCommandKind::EqLow {
                    deck,
                    target_db: next.deck(deck).eq_low_db,
                    ramp_frames,
                },
                EqBand::Mid => AudioCommandKind::EqMid {
                    deck,
                    target_db: next.deck(deck).eq_mid_db,
                    ramp_frames,
                },
                EqBand::High => AudioCommandKind::EqHigh {
                    deck,
                    target_db: next.deck(deck).eq_high_db,
                    ramp_frames,
                },
            },
        ),
        EventKind::PitchBend { deck, .. } => Some(
            AudioCommandKind::Pitch {
                deck,
                semitones: next.deck(deck).pitch_semitones,
                ramp_frames,
            },
        ),
        EventKind::TempoBend { deck, .. } => Some(
            AudioCommandKind::Tempo { deck, ratio: next.deck(deck).tempo_ratio, ramp_frames },
        ),
        EventKind::PitchTempoReset { deck } => Some(AudioCommandKind::PitchTempoReset { deck }),
        EventKind::LoopOut { deck } => loop_command(next.deck(deck), deck, sample_rate),
        EventKind::SetLoopBars { deck, .. } => loop_command(next.deck(deck), deck, sample_rate),
        EventKind::LoopExit { deck } => Some(AudioCommandKind::LoopDisarm { deck }),
        EventKind::DeckLoad { deck, track_gain_db, .. } => match opened {
            Opened::Track(Ok(handle)) => Some(
                AudioCommandKind::DeckLoad { deck, handle, track_gain_db },
            ),
            _ => None,
        },
        EventKind::DeckLoadStems { deck, .. } => match opened {
            Opened::Stems(Ok(stems)) => Some(AudioCommandKind::DeckLoadStems { deck, stems }),
            _ => None,
        },
        EventKind::DeckUnload { deck } => Some(AudioCommandKind::DeckUnload { deck }),
        EventKind::SetStemGain { deck, stem, gain } => if stem < STEMS {
            Some(AudioCommandKind::SetStemGain { deck, stem, gain })
        } else {
            None
        },
        EventKind::EffectAssign { deck, slot, effect_id } => Some(
            AudioCommandKind::EffectAssign { deck, slot, effect_id },
        ),
        EventKind::EffectClear { deck, slot } => Some(AudioCommandKind::EffectClear { deck, slot }),
        EventKind::EffectParam { deck, slot, param, value } => match resolved(
            effect_in(next.deck(deck), slot),
            param@,
        ) {
            Some(param_id) => Some(
                AudioCommandKind::EffectParam { deck, slot, param_id, value },
            ),
            None => None,
        },
        EventKind::EffectWetDry { deck, slot, value } => Some(
            AudioCommandKind::EffectWetDry { deck, slot, value },
        ),
        EventKind::EffectEnable { deck, slot, enabled } => Some(
            AudioCommandKind::EffectEnable { deck, slot, enabled },
        ),
        EventKind::EffectSwapSlots { deck, slot_a, slot_b } => if clamped_slot(slot_a)
            != clamped_slot(slot_b) {
            Some(
                AudioCommandKind::EffectSwap {
                    deck,
                    a: clamped_slot(slot_a),
                    b: clamped_slot(slot_b),
                },
            )
        } else {
            None
        },
        EventKind::EffectLfoSet { deck, slot, .. } => match next.deck(deck).slot(slot) {
            Some(EffectSlot { lfo: Some(config), .. }) => Some(
                AudioCommandKind::EffectLfoSet { deck, slot, config },
            ),
            _ => None,
        },
        EventKind::EffectLfoClear { deck, slot } => Some(
            AudioCommandKind::EffectLfoClear { deck, slot },
        ),
        EventKind::EffectOneShot { deck, slot, .. } => if !slot_enabled(prev.deck(deck), slot)
            && slot_enabled(next.deck(deck), slot) {
            Some(AudioCommandKind::EffectEnable { deck, slot, enabled: true })
        } else {
            None
        },
        EventKind::SetMasterLimiterEnabled { .. } => Some(
            AudioCommandKind::SetMasterLimiterEnabled { enabled: next.master_limiter_enabled },
        ),
        EventKind::SetMasterLimiterThreshold { .. } => Some(
            AudioCommandKind::SetMasterLimiterThreshold {
                threshold_db: next.master_limiter_threshold_db,
            },
        ),
        _ => None,
    }
}

/// The commands that an event gives rise to, all at `now`.
pub open spec fn commands_for(
    prev: EngineState,
    next: EngineState,
    kind: EventKind,
    now: u64,
    sample_rate: u32,
    opened: Opened,
) -> Seq<AudioCommand> {
    match kind {
        EventKind::TakeOver { deck, handoff_until_frame } => seq![
            AudioCommand {
                at_frame: now,
                kind: AudioCommandKind::ArmHandoff { deck, until_frame: handoff_until_frame },
            },
            AudioCommand {
                at_frame: now,
                kind: AudioCommandKind::CancelAfter {
                    deck,
                    after_frames: frames_until(handoff_until_frame, now),
                },
            },
        ],
        _ => match command_for(prev, next, kind, sample_rate, opened) {
            Some(kind) => seq![AudioCommand { at_frame: now, kind }],
            None => Seq::empty(),
        },
    }
}

/// The failures that an event gives rise to.
pub open spec fn failures_for(kind: EventKind, opened: Opened) -> Seq<DecodeFailure> {
    match (kind, opened) {
        (EventKind::DeckLoad { deck, track, .. }, Opened::Track(Err(error))) => seq![
            DecodeFailure { deck, track_id: track.id, error },
        ],
        (EventKind::DeckLoadStems { deck, track, .. }, Opened::Stems(Err(error))) => seq![
            DecodeFailure { deck, track_id: track.id, error },
        ],
        _ => Seq::empty(),
    }
}

/// Convert milliseconds into a track to sample frames.
pub fn ms_to_frames(ms: u64, sample_rate: u32) -> (r: u64)
    ensures
        r == frames_in(ms, sample_rate),
        ms * sample_rate < 1000 * 0x1_0000_0000_0000_0000 ==> 1000 * r <= ms * sample_rate < 1000 * r
            + 1000,
{
    assert(0 <= ms * sample_rate <= 0xFFFF_FFFF_FFFF_FFFF * 0xFFFF_FFFF) by (nonlinear_arith)
        requires
            0 <= ms <= 0xFFFF_FFFF_FFFF_FFFF,
            0 <= sample_rate <= 0xFFFF_FFFF,
    ;
    let frames: u128 = (ms as u128) * (sample_rate as u128) / 1000;
    assert(frames as u64 == frames % 0x1_0000_0000_0000_0000) by (bit_vector);
    #[verifier::truncate]
    (frames as u64)
}

/// Frames of the default ramp at a sample rate.
pub fn ramp_frames(sample_rate: u32) -> (r: u32)
    ensures
        r == ramp_spec(sample_rate),
        1000 * r <= 5 * sample_rate < 1000 * r + 1000,
{
    let ms: u64 = DEFAULT_RAMP_MS as u64;
    let scaled: u64 = ms * (sample_rate as u64);
    assert(scaled == 5 * sample_rate);
    (scaled / 1000) as u32
}

/// Frames left until a handoff ends.
fn handoff_frames(until: u64, now: u64) -> (r: u32)
    ensures
        r == frames_until(until, now),
{
    let left: u64 = until.saturating_sub(now);
    assert(left as u32 == left % 0x1_0000_0000) by (bit_vector);
    #[verifier::truncate]
    (left as u32)
}

/// Confine a slot number to the chain.
fn clamp_slot(slot: u8) -> (r: u8)
    ensures
        r == clamped_slot(slot),
{
    if (slot as usize) < EFFECT_SLOTS {
        slot
    } else {
        2
    }
}

/// Read a deck's armed loop as a command.
fn arm_loop(d: &Deck, deck: DeckId, sample_rate: u32) -> (r: Option<AudioCommandKind>)
    ensures
        r == loop_command(*d, deck, sample_rate),
{
    if !d.loop_active {
        return None;
    }
    match (d.loop_in_ms, d.loop_out_ms) {
        (Some(in_ms), Some(out_ms)) => Some(
            AudioCommandKind::LoopArm {
                deck,
                in_frame: ms_to_frames(in_ms, sample_rate),
                out_frame: ms_to_frames(out_ms, sample_rate),
            },
        ),
        _ => None,
    }
}

/// Read whether a slot exists and is enabled.
fn is_slot_enabled(d: &Deck, slot: u8) -> (r: bool)
    ensures
        r == slot_enabled(*d, slot),
{
    match d.effect_slot(slot) {
        Some(s) => s.enabled,
        None => false,
    }
}

/// Choose the one command that an event other than a takeover yields.
///
/// Play and pause yield a command only where the deck changes over, a
/// one-shot only where its slot goes from off to on. Continuous values are
/// taken from the state after the event, so that the audio thread and the
/// state agree. A parameter name that the slot's effect does not know, a stem
/// or an oscillator that does not exist and a swap of a slot with itself
/// yield nothing.
#[verifier::rlimit(40)]
fn single_command(
    prev: &EngineState,
    next: &EngineState,
    kind: &EventKind,
    sample_rate: u32,
    opened: &Opened,
) -> (r: Option<AudioCommandKind>)
    ensures
        r == command_for(*prev, *next, *kind, sample_rate, *opened),
{
    let ramp: u32 = ramp_frames(sample_rate);
    match kind {
        EventKind::DeckPlay { deck } => {
            if !prev.deck_ref(*deck).playing && next.deck_ref(*deck).playing {
                Some(AudioCommandKind::DeckPlay { deck: *deck })
            } else {
                None
            }
        },
        EventKind::DeckPause { deck } => {
            if prev.deck_ref(*deck).playing && !next.deck_ref(*deck).playing {
                Some(AudioCommandKind::DeckPause { deck: *deck })
            } else {
                None
            }
        },
        EventKind::DeckCue { deck, position_ms } => Some(
            AudioCommandKind::DeckSeek {
                deck: *deck,
                frame: ms_to_frames(*position_ms, sample_rate),
            },
        ),
        EventKind::HotCueTrigger { deck, .. } => Some(
            AudioCommandKind::DeckSeek {
                deck: *deck,
                frame: ms_to_frames(next.deck_ref(*deck).position_ms, sample_rate),
            },
        ),
        EventKind::Crossfader { .. } => Some(
            AudioCommandKind::Crossfader { target: next.crossfader, ramp_frames: ramp },
        ),
        EventKind::SetCrossfaderCurve { .. } => Some(
            AudioCommandKind::SetCrossfaderCurve { curve: next.crossfader_curve },
        ),
        EventKind::EqAdjust { deck, band, .. } => {
            let d: &Deck = next.deck_ref(*deck);
            Some(
                match band {
                    EqBand::Low => AudioCommandKind::EqLow {
                        deck: *deck,
                        target_db: d.eq_low_db,
                        ramp_frames: ramp,
                    },
                    EqBand::Mid => AudioCommandKind::EqMid {
                        deck: *deck,
                        target_db: d.eq_mid_db,
                        ramp_frames: ramp,
                    },
                    EqBand::High => AudioCommandKind::EqHigh {
                        deck: *deck,
                        target_db: d.eq_high_db,
                        ramp_frames: ramp,
                    },
                },
            )
        },
        EventKind::PitchBend { deck, .. } => Some(
            AudioCommandKind::Pitch {
                deck: *deck,
                semitones: next.deck_ref(*deck).pitch_semitones,
                ramp_frames: ramp,
            },
        ),
        EventKind::TempoBend { deck, .. } => Some(
            AudioCommandKind::Tempo {
                deck: *deck,
                ratio: next.deck_ref(*deck).tempo_ratio,
                ramp_frames: ramp,
            },
        ),
        EventKind::PitchTempoReset { deck } => Some(
            AudioCommandKind::PitchTempoReset { deck: *deck },
        ),
        EventKind::LoopOut { deck } => arm_loop(next.deck_ref(*deck), *deck, sample_rate),
        EventKind::SetLoopBars { deck, .. } => arm_loop(next.deck_ref(*deck), *deck, sample_rate),
        EventKind::LoopExit { deck } => Some(AudioCommandKind::LoopDisarm { deck: *deck }),
        EventKind::DeckLoad { deck, track_gain_db, .. } => match opened {
            Opened::Track(Ok(handle)) => Some(
                AudioCommandKind::DeckLoad {
                    deck: *deck,
                    handle: *handle,
                    track_gain_db: *track_gain_db,
                },
            ),
            _ => None,
        },
        EventKind::DeckLoadStems { deck, .. } => match opened {
            Opened::Stems(Ok(stems)) => Some(
                AudioCommandKind::DeckLoadStems { deck: *deck, stems: *stems },
            ),
            _ => None,
        },
        EventKind::DeckUnload { deck } => Some(AudioCommandKind::DeckUnload { deck: *deck }),
        EventKind::SetStemGain { deck, stem, gain } => {
            if *stem < STEMS {
                Some(AudioCommandKind::SetStemGain { deck: *deck, stem: *stem, gain: *gain })
            } else {
                None
            }
        },
        EventKind::EffectAssign { deck, slot, effect_id } => Some(
            AudioCommandKind::EffectAssign { deck: *deck, slot: *slot, effect_id: *effect_id },
        ),
        EventKind::EffectClear { deck, slot } => Some(
            AudioCommandKind::EffectClear { deck: *deck, slot: *slot },
        ),
        EventKind::EffectParam { deck, slot, param, value } => {
            let effect_id: u32 = match next.deck_ref(*deck).effect_slot(*slot) {
                Some(s) => s.effect_id,
                None => EFFECT_NONE,
            };
            match resolve_param(effect_id, param.as_str()) {
                Some(param_id) => Some(
                    AudioCommandKind::EffectParam {
                        deck: *deck,
                        slot: *slot,
                        param_id,
                        value: *value,
                    },
                ),
                None => None,
            }
        },
        EventKind::EffectWetDry { deck, slot, value } => Some(
            AudioCommandKind::EffectWetDry { deck: *deck, slot: *slot, value: *value },
        ),
        EventKind::EffectEnable { deck, slot, enabled } => Some(
            AudioCommandKind::EffectEnable { deck: *deck, slot: *slot, enabled: *enabled },
        ),
        EventKind::EffectSwapSlots { deck, slot_a, slot_b } => {
            let a: u8 = clamp_slot(*slot_a);
            let b: u8 = clamp_slot(*slot_b);
            if a != b {
                Some(AudioCommandKind::EffectSwap { deck: *deck, a, b })
            } else {
                None
            }
        },
        EventKind::EffectLfoSet { deck, slot, .. } => match next.deck_ref(*deck).effect_slot(
            *slot,
        ) {
            Some(s) => match s.lfo {
                Some(config) => Some(
                    AudioCommandKind::EffectLfoSet { deck: *deck, slot: *slot, config },
                ),
                None => None,
            },
            None => None,
        },
        EventKind::EffectLfoClear { deck, slot } => Some(
            AudioCommandKind::EffectLfoClear { deck: *deck, slot: *slot },
        ),
        EventKind::EffectOneShot { deck, slot, .. } => {
            if !is_slot_enabled(prev.deck_ref(*deck), *slot) && is_slot_enabled(
                next.deck_ref(*deck),
                *slot,
            ) {
                Some(
                    AudioCommandKind::EffectEnable { deck: *deck, slot: *slot, enabled: true },
                )
            } else {
                None
            }
        },
        EventKind::SetMasterLimiterEnabled { .. } => Some(
            AudioCommandKind::SetMasterLimiterEnabled { enabled: next.master_limiter_enabled },
        ),
        EventKind::SetMasterLimiterThreshold { .. } => Some(
            AudioCommandKind::SetMasterLimiterThreshold {
                threshold_db: next.master_limiter_threshold_db,
            },
        ),
        EventKind::TakeOver { .. }
        | EventKind::HotCueSet { .. }
        | EventKind::LoopIn { .. }
        | EventKind::PhaseNudge { .. }
        | EventKind::CopilotEngage { .. }
        | EventKind::CopilotDisengage { .. }
        | EventKind::SetMasterBpm { .. }
        | EventKind::SessionStart
        | EventKind::SessionEnd => None,
    }
}

/// Translate an event, given what the decode service answered to it.
pub fn translate(
    prev: &EngineState,
    next: &EngineState,
    ev: &Event,
    now_frame: u64,
    sample_rate: u32,
    opened: Opened,
) -> (r: (AudioCmdBatch, DecodeFailures))
    ensures
        r.0@ == commands_for(*prev, *next, ev.kind, now_frame, sample_rate, opened),
        r.1@ == failures_for(ev.kind, opened),
{
    let mut out: AudioCmdBatch = AudioCmdBatch::new();
    let mut errors: DecodeFailures = DecodeFailures::new();
    match &ev.kind {
        EventKind::TakeOver { deck, handoff_until_frame } => {
            out.push(
                AudioCommand {
                    at_frame: now_frame,
                    kind: AudioCommandKind::ArmHandoff {
                        deck: *deck,
                        until_frame: *handoff_until_frame,
                    },
                },
            );
            out.push(
                AudioCommand {
                    at_frame: now_frame,
                    kind: AudioCommandKind::CancelAfter {
                        deck: *deck,
                        after_frames: handoff_frames(*handoff_until_frame, now_frame),
                    },
                },
            );
        },
        _ => {
            match single_command(prev, next, &ev.kind, sample_rate, &opened) {
                Some(kind) => out.push(AudioCommand { at_frame: now_frame, kind }),
                None => {},
            }
        },
    }
    match (&ev.kind, opened) {
        (EventKind::DeckLoad { deck, track, .. }, Opened::Track(Err(error))) => {
            errors.push(DecodeFailure { deck: *deck, track_id: track.id.clone(), error });
        },
        (EventKind::DeckLoadStems { deck, track, .. }, Opened::Stems(Err(error))) => {
            errors.push(DecodeFailure { deck: *deck, track_id: track.id.clone(), error });
        },
        _ => {},
    }
    (out, errors)
}

/// What an event asks a decode service to open.
#[derive(Debug)]
pub enum Load<'a> {
    Track(&'a TrackRef),
    Stems(&'a TrackRef, &'a [String; 4]),
    Nothing,
}

/// Tell what an event asks a decode service to open.
pub fn load_of(kind: &EventKind) -> (r: Load<'_>)
    ensures
        match *kind {
            EventKind::DeckLoad { track, .. } => r matches Load::Track(t) && *t == track,
            EventKind::DeckLoadStems { track, stem_paths, .. } => r matches Load::Stems(t, p)
                && *t == track && *p == stem_paths,
            _ => r is Nothing,
        },
{
    match kind {
        EventKind::DeckLoad { track, .. } => Load::Track(track),
        EventKind::DeckLoadStems { track, stem_paths, .. } => Load::Stems(track, stem_paths),
        _ => Load::Nothing,
    }
}

/// The decode service went from `before` to `after` by answering `opened` to
/// an event; it is asked only where the event loads something, and then for
/// the event's own track and files.
pub open spec fn answered<D: DecodeService>(
    before: D,
    after: D,
    kind: EventKind,
    sample_rate: u32,
    opened: Opened,
) -> bool {
    match kind {
        EventKind::DeckLoad { track, .. } => {
            &&& opened matches Opened::Track(o)
            &&& after.attempts() == before.attempts().push(
                Attempt { source: source_of(track, sample_rate), outcome: o },
            )
            &&& after.closings() == before.closings()
            &&& match o {
                Ok(h) => {
                    &&& h != DecodeHandle::none_spec()
                    &&& !before.open_set().contains(slot_of(h))
                    &&& after.open_set() == before.open_set().insert(slot_of(h))
                    &&& after.source(slot_of(h)) == source_of(track, sample_rate)
                    &&& forall|k: int|
                        k != slot_of(h) ==> #[trigger] after.source(k) == before.source(k)
                },
                Err(_) => {
                    &&& after.open_set() == before.open_set()
                    &&& forall|k: int| #[trigger] after.source(k) == before.source(k)
                },
            }
        },
        EventKind::DeckLoadStems { track, stem_paths, .. } => {
            let asked = after.attempts().skip(before.attempts().len() as int);
            &&& opened matches Opened::Stems(o)
            &&& before.attempts().is_prefix_of(after.attempts())
            &&& stems_asked_for(asked, track, stem_paths, sample_rate, o)
            &&& forall|k: int|
                unnamed(handles_of(asked), k) ==> #[trigger] after.source(k) == before.source(k)
            &&& match o {
                Ok(s) => {
                    &&& forall|i: int|
                        0 <= i < 4 ==> {
                            &&& !before.open_set().contains(slot_of(#[trigger] s.0[i]))
                            &&& after.source(slot_of(s.0[i])) == stem_source(
                                track,
                                stem_paths[i],
                                sample_rate,
                                i,
                            )
                        }
                    &&& after.open_set() == before.open_set().insert(slot_of(s.0[0])).insert(
                        slot_of(s.0[1]),
                    ).insert(slot_of(s.0[2])).insert(slot_of(s.0[3]))
                    &&& after.closings() == before.closings()
                },
                Err(_) => {
                    &&& after.open_set() == before.open_set()
                    &&& after.closings() == before.closings() + handles_of(asked)
                },
            }
        },
        _ => opened is NotAsked && after == before,
    }
}

/// Translate an event, asking the decode service for what it loads.
///
/// A load that fails yields no command and one failure; the deck keeps what
/// it had.
pub fn event_to_commands_with_errors<D: DecodeService>(
    prev: &EngineState,
    next: &EngineState,
    ev: &Event,
    now_frame: u64,
    sample_rate: u32,
    decode: &mut D,
) -> (r: (AudioCmdBatch, DecodeFailures))
    requires
        old(decode).valid(),
    ensures
        final(decode).valid(),
        exists|o: Opened|
            #![trigger answered(*old(decode), *final(decode), ev.kind, sample_rate, o)]
            answered(*old(decode), *final(decode), ev.kind, sample_rate, o) && r.0@
                == commands_for(*prev, *next, ev.kind, now_frame, sample_rate, o) && r.1@
                == failures_for(ev.kind, o),
{
    let opened: Opened = match load_of(&ev.kind) {
        Load::Track(track) => Opened::Track(decode.open(track, sample_rate)),
        Load::Stems(track, stem_paths) => Opened::Stems(
            decode.open_stems(track, stem_paths, sample_rate),
        ),
        Load::Nothing => Opened::NotAsked,
    };
    let ghost o = opened;
    assert(answered(*old(decode), *decode, ev.kind, sample_rate, o));
    translate(prev, next, ev, now_frame, sample_rate, opened)
}

/// Translate an event and drop the failures.
pub fn event_to_commands<D: DecodeService>(
    prev: &EngineState,
    next: &EngineState,
    ev: &Event,
    now_frame: u64,
    sample_rate: u32,
    decode: &mut D,
) -> (r: AudioCmdBatch)
    requires
        old(decode).valid(),
    ensures
        final(decode).valid(),
        exists|o: Opened|
            #![trigger answered(*old(decode), *final(decode), ev.kind, sample_rate, o)]
            answered(*old(decode), *final(decode), ev.kind, sample_rate, o) && r@ == commands_for(
                *prev,
                *next,
                ev.kind,
                now_frame,
                sample_rate,
                o,
            ),
{
    let (cmds, _errors): (AudioCmdBatch, DecodeFailures) = event_to_commands_with_errors(
        prev,
        next,
        ev,
        now_frame,
        sample_rate,
        decode,
    );
    cmds
}

/// Two translations of one event, with a service that was in the same state
/// and granted or refused the same requests, give the same commands and the
/// same failures: dropping the failures changes nothing else.
pub proof fn same_answers_same_commands<D: DecodeService>(
    before: D,
    one: D,
    other: D,
    prev: EngineState,
    next: EngineState,
    kind: EventKind,
    now: u64,
    sample_rate: u32,
    o1: Opened,
    o2: Opened,
)
    requires
        answered(before, one, kind, sample_rate, o1),
        answered(before, other, kind, sample_rate, o2),
        one.attempts() == other.attempts(),
    ensures
        commands_for(prev, next, kind, now, sample_rate, o1) == commands_for(
            prev,
            next,
            kind,
            now,
            sample_rate,
            o2,
        ),
        failures_for(kind, o1) == failures_for(kind, o2),
{
    match kind {
        EventKind::DeckLoad { .. } => {
            assert(one.attempts().last() == other.attempts().last());
        },
        EventKind::DeckLoadStems { .. } => {
            let asked = one.attempts().skip(before.attempts().len() as int);
            assert(asked[asked.len() - 1] == asked.last());
            match (o1, o2) {
                (Opened::Stems(Ok(a)), Opened::Stems(Ok(b))) => {
                    assert forall|i: int| 0 <= i < 4 implies a.0[i] == b.0[i] by {
                        assert(asked[i].outcome is Ok);
                    }
                    assert(a.0 =~= b.0);
                },
                _ => {},
            }
        },
        _ => {},
    }
}

/// Every command of a translation takes effect at the frame of the
/// translation, and there are at most two.
pub proof fn commands_are_immediate(
    prev: EngineState,
    next: EngineState,
    kind: EventKind,
    now: u64,
    sample_rate: u32,
    opened: Opened,
    i: int,
)
    requires
        0 <= i < commands_for(prev, next, kind, now, sample_rate, opened).len(),
    ensures
        commands_for(prev, next, kind, now, sample_rate, opened)[i].at_frame == now,
        commands_for(prev, next, kind, now, sample_rate, opened).len() <= 2,
{
}

/// Only a load can fail, and one that fails yields one failure and no
/// command.
pub proof fn failed_loads_are_silent(
    prev: EngineState,
    next: EngineState,
    kind: EventKind,
    now: u64,
    sample_rate: u32,
    opened: Opened,
)
    ensures
        failures_for(kind, opened).len() > 0 ==> {
            &&& kind is DeckLoad || kind is DeckLoadStems
            &&& failures_for(kind, opened).len() == 1
            &&& commands_for(prev, next, kind, now, sample_rate, opened).len() == 0
        },
{
}

/// An event that leaves the played state of its deck as it was starts and
/// stops nothing.
pub proof fn play_is_idempotent(
    state: EngineState,
    deck: DeckId,
    now: u64,
    sample_rate: u32,
    opened: Opened,
)
    ensures
        commands_for(state, state, EventKind::DeckPlay { deck }, now, sample_rate, opened).len()
            == 0,
        commands_for(state, state, EventKind::DeckPause { deck }, now, sample_rate, opened).len()
            == 0,
{
}

/// Taking a deck over arms the handoff first and cancels what lies behind it
/// second, whatever the states are.
pub proof fn takeover_arms_then_cancels(
    prev: EngineState,
    next: EngineState,
    deck: DeckId,
    until: u64,
    now: u64,
    sample_rate: u32,
    opened: Opened,
)
    ensures
        ({
            let c = commands_for(
                prev,
                next,
                EventKind::TakeOver { deck, handoff_until_frame: until },
                now,
                sample_rate,
                opened,
            );
            &&& c.len() == 2
            &&& c[0].kind == AudioCommandKind::ArmHandoff { deck, until_frame: until }
            &&& c[1].kind is CancelAfter
            &&& now <= until < now + 0x1_0000_0000 ==> c[1].kind
                == AudioCommandKind::CancelAfter { deck, after_frames: (until - now) as u32 }
        }),
{
}

/// The mixer shows what the state says: which decks play, where the
/// crossfader stands, and how the limiter is set.
pub open spec fn in_step(m: AudioMixer, state: EngineState) -> bool {
    &&& m.deck_a.playing == state.deck_a.playing
    &&& m.deck_b.playing == state.deck_b.playing
    &&& m.crossfader == state.crossfader
    &&& m.limiter_enabled == state.master_limiter_enabled
    &&& m.limiter_threshold_db == state.master_limiter_threshold_db
}

/// Commands keep the mixer in step with the state: where it showed the state
/// before an event, it shows the state after it, once it has gone through the
/// event's commands. Of what it shows, an event changes only the part that it
/// speaks of: starting, pausing and unloading whether its deck plays, and the
/// others the crossfader and the limiter, within their ranges.
pub proof fn commands_keep_the_mixer_in_step(
    m: AudioMixer,
    prev: EngineState,
    next: EngineState,
    kind: EventKind,
    now: u64,
    sample_rate: u32,
    opened: Opened,
)
    requires
        in_step(m, prev),
        next.deck_a.playing != prev.deck_a.playing ==> {
            ||| kind == (EventKind::DeckPlay { deck: DeckId::A }) && next.deck_a.playing
            ||| kind == (EventKind::DeckPause { deck: DeckId::A }) && !next.deck_a.playing
            ||| kind == (EventKind::DeckUnload { deck: DeckId::A }) && !next.deck_a.playing
        },
        next.deck_b.playing != prev.deck_b.playing ==> {
            ||| kind == (EventKind::DeckPlay { deck: DeckId::B }) && next.deck_b.playing
            ||| kind == (EventKind::DeckPause { deck: DeckId::B }) && !next.deck_b.playing
            ||| kind == (EventKind::DeckUnload { deck: DeckId::B }) && !next.deck_b.playing
        },
        kind == (EventKind::DeckUnload { deck: DeckId::A }) ==> !next.deck_a.playing,
        kind == (EventKind::DeckUnload { deck: DeckId::B }) ==> !next.deck_b.playing,
        next.crossfader != prev.crossfader ==> kind is Crossfader,
        next.crossfader.bits <= 0x3F80_0000,
        next.master_limiter_enabled != prev.master_limiter_enabled
            ==> kind is SetMasterLimiterEnabled,
        next.master_limiter_threshold_db != prev.master_limiter_threshold_db
            ==> kind is SetMasterLimiterThreshold,
        next.master_limiter_threshold_db.bits == 0 || 0x8000_0000
            <= next.master_limiter_threshold_db.bits <= 0xC1C0_0000,
    ensures
        in_step(
            m.after_all(commands_for(prev, next, kind, now, sample_rate, opened)),
            next,
        ),
{
    let c = commands_for(prev, next, kind, now, sample_rate, opened);
    lemma_after_all(m, c);
    if kind is TakeOver {
    } else {
        match command_for(prev, next, kind, sample_rate, opened) {
            Some(command) => {
                assert(c[0].kind == command);
                lemma_in_step_after(m, prev, next, kind, sample_rate, opened, command);
            },
            None => {},
        }
    }
}

proof fn lemma_after_all(m: AudioMixer, c: Seq<AudioCommand>)
    ensures
        c.len() == 0 ==> m.after_all(c) == m,
        c.len() == 1 ==> m.after_all(c) == m.after(c[0].kind),
        c.len() == 2 ==> m.after_all(c) == m.after(c[0].kind).after(c[1].kind),
{
    reveal_with_fuel(AudioMixer::after_all, 3);
    if c.len() == 2 {
        assert(c.drop_last().last() == c[0]);
        assert(c.drop_last().drop_last().len() == 0);
    }
}

#[verifier::rlimit(50)]
#[verifier::spinoff_prover]
proof fn lemma_in_step_after(
    m: AudioMixer,
    prev: EngineState,
    next: EngineState,
    kind: EventKind,
    sample_rate: u32,
    opened: Opened,
    command: AudioCommandKind,
)
    requires
        command_for(prev, next, kind, sample_rate, opened) == Some(command),
        in_step(m, prev),
        next.deck_a.playing != prev.deck_a.playing ==> {
            ||| kind == (EventKind::DeckPlay { deck: DeckId::A }) && next.deck_a.playing
            ||| kind == (EventKind::DeckPause { deck: DeckId::A }) && !next.deck_a.playing
            ||| kind == (EventKind::DeckUnload { deck: DeckId::A }) && !next.deck_a.playing
        },
        next.deck_b.playing != prev.deck_b.playing ==> {
            ||| kind == (EventKind::DeckPlay { deck: DeckId::B }) && next.deck_b.playing
            ||| kind == (EventKind::DeckPause { deck: DeckId::B }) && !next.deck_b.playing
            ||| kind == (EventKind::DeckUnload { deck: DeckId::B }) && !next.deck_b.playing
        },
        kind == (EventKind::DeckUnload { deck: DeckId::A }) ==> !next.deck_a.playing,
        kind == (EventKind::DeckUnload { deck: DeckId::B }) ==> !next.deck_b.playing,
        next.crossfader != prev.crossfader ==> kind is Crossfader,
        next.crossfader.bits <= 0x3F80_0000,
        next.master_limiter_enabled != prev.master_limiter_enabled
            ==> kind is SetMasterLimiterEnabled,
        next.master_limiter_threshold_db != prev.master_limiter_threshold_db
            ==> kind is SetMasterLimiterThreshold,
        next.master_limiter_threshold_db.bits == 0 || 0x8000_0000
            <= next.master_limiter_threshold_db.bits <= 0xC1C0_0000,
    ensures
        in_step(m.after(command), next),
{
    commands_keep_to_their_own(m, command);
    decks_play_between_start_and_stop(m, command);
    match kind {
        EventKind::DeckPlay { deck } => {},
        EventKind::DeckPause { deck } => {},
        EventKind::DeckUnload { deck } => {},
        EventKind::Crossfader { .. } => {
            crossfader_goes_to_its_target(m, next.crossfader, ramp_spec(sample_rate));
        },
        EventKind::SetMasterLimiterEnabled { .. } => {},
        EventKind::SetMasterLimiterThreshold { .. } => {
            limiter_follows_its_commands(m, true, next.master_limiter_threshold_db);
        },
        _ => {},
    }
}

/// Starting and pausing bring the deck of the event to where the state says:
/// a mixer whose decks play as they did before the event has them play as
/// they do after it.
pub proof fn decks_play_as_the_state_says(
    m: AudioMixer,
    prev: EngineState,
    next: EngineState,
    deck: DeckId,
    start: bool,
    now: u64,
    sample_rate: u32,
    opened: Opened,
)
    requires
        m.deck_a.playing == prev.deck_a.playing,
        m.deck_b.playing == prev.deck_b.playing,
        deck == DeckId::A ==> next.deck_a.playing == start && next.deck_b.playing
            == prev.deck_b.playing,
        deck == DeckId::B ==> next.deck_b.playing == start && next.deck_a.playing
            == prev.deck_a.playing,
    ensures
        ({
            let kind = if start {
                EventKind::DeckPlay { deck }
            } else {
                EventKind::DeckPause { deck }
            };
            let after = m.after_all(commands_for(prev, next, kind, now, sample_rate, opened));
            &&& after.deck_a.playing == next.deck_a.playing
            &&& after.deck_b.playing == next.deck_b.playing
        }),
{
    reveal_with_fuel(AudioMixer::after_all, 2);
}

/// An event starts or stops a deck only where the deck changes over: then it
/// yields the one command that does so, for the event's deck, and else none.
pub proof fn transport_commands_mark_the_change(
    prev: EngineState,
    next: EngineState,
    deck: DeckId,
    now: u64,
    sample_rate: u32,
    opened: Opened,
)
    ensures
        ({
            let before = if deck == DeckId::A {
                prev.deck_a.playing
            } else {
                prev.deck_b.playing
            };
            let after = if deck == DeckId::A {
                next.deck_a.playing
            } else {
                next.deck_b.playing
            };
            let play = commands_for(
                prev,
                next,
                EventKind::DeckPlay { deck },
                now,
                sample_rate,
                opened,
            );
            let pause = commands_for(
                prev,
                next,
                EventKind::DeckPause { deck },
                now,
                sample_rate,
                opened,
            );
            &&& play == (if !before && after {
                seq![AudioCommand { at_frame: now, kind: AudioCommandKind::DeckPlay { deck } }]
            } else {
                Seq::empty()
            })
            &&& pause == (if before && !after {
                seq![AudioCommand { at_frame: now, kind: AudioCommandKind::DeckPause { deck } }]
            } else {
                Seq::empty()
            })
        }),
{
}

/// Times become frames by the sample rate: so many whole frames as fit into
/// the time. A default ramp lasts five milliseconds.
pub proof fn times_become_frames(ms: u64, sample_rate: u32)
    ensures
        ms * sample_rate < 1000 * 0x1_0000_0000_0000_0000 ==> 1000 * frames_in(ms, sample_rate)
            <= ms * sample_rate < 1000 * frames_in(ms, sample_rate) + 1000,
        1000 * ramp_spec(sample_rate) <= 5 * sample_rate < 1000 * ramp_spec(sample_rate) + 1000,
{
    let n = ms * sample_rate;
    assert(n >= 0) by (nonlinear_arith)
        requires
            n == ms * sample_rate,
    ;
}

/// A jump goes to the position that was asked for, on the deck that was
/// asked: a cue to its own position, a hot cue to the one that the state then
/// shows for the deck.
pub proof fn jumps_go_to_the_position(
    prev: EngineState,
    next: EngineState,
    deck: DeckId,
    index: u8,
    position_ms: u64,
    now: u64,
    sample_rate: u32,
    opened: Opened,
)
    ensures
        ({
            let shown = if deck == DeckId::A {
                next.deck_a.position_ms
            } else {
                next.deck_b.position_ms
            };
            let cue = commands_for(
                prev,
                next,
                EventKind::DeckCue { deck, position_ms },
                now,
                sample_rate,
                opened,
            );
            let hot = commands_for(
                prev,
                next,
                EventKind::HotCueTrigger { deck, index },
                now,
                sample_rate,
                opened,
            );
            &&& cue.len() == 1
            &&& cue[0].kind matches AudioCommandKind::DeckSeek { deck: d, frame }
            &&& d == deck
            &&& position_ms * sample_rate < 1000 * 0x1_0000_0000_0000_0000 ==> 1000 * frame
                <= position_ms * sample_rate < 1000 * frame + 1000
            &&& hot.len() == 1
            &&& hot[0].kind matches AudioCommandKind::DeckSeek { deck: e, frame: there }
            &&& e == deck
            &&& shown * sample_rate < 1000 * 0x1_0000_0000_0000_0000 ==> 1000 * there <= shown
                * sample_rate < 1000 * there + 1000
        }),
{
    times_become_frames(position_ms, sample_rate);
    times_become_frames(next.deck_a.position_ms, sample_rate);
    times_become_frames(next.deck_b.position_ms, sample_rate);
}

/// A control that can be turned is sent as the state then shows it, for the
/// deck and the band that were turned, with a ramp of five milliseconds.
pub proof fn turned_controls_are_sent_as_shown(
    prev: EngineState,
    next: EngineState,
    deck: DeckId,
    value: F32Bits,
    now: u64,
    sample_rate: u32,
    opened: Opened,
)
    ensures
        ({
            let d = if deck == DeckId::A {
                next.deck_a
            } else {
                next.deck_b
            };
            let of = |kind: EventKind|
                commands_for(prev, next, kind, now, sample_rate, opened);
            let fader = of(EventKind::Crossfader { value });
            let low = of(EventKind::EqAdjust { deck, band: EqBand::Low, value_db: value });
            let mid = of(EventKind::EqAdjust { deck, band: EqBand::Mid, value_db: value });
            let high = of(EventKind::EqAdjust { deck, band: EqBand::High, value_db: value });
            let pitch = of(EventKind::PitchBend { deck, semitones: value });
            let tempo = of(EventKind::TempoBend { deck, ratio: value });
            let ramp = |frames: u32| 1000 * frames <= 5 * sample_rate < 1000 * frames + 1000;
            &&& fader.len() == 1 && low.len() == 1 && mid.len() == 1 && high.len() == 1
                && pitch.len() == 1 && tempo.len() == 1
            &&& fader[0].kind matches AudioCommandKind::Crossfader { target, ramp_frames: r1 }
            &&& target == next.crossfader && ramp(r1)
            &&& low[0].kind matches AudioCommandKind::EqLow {
                deck: d1,
                target_db: v1,
                ramp_frames: r2,
            }
            &&& d1 == deck && v1 == d.eq_low_db && ramp(r2)
            &&& mid[0].kind matches AudioCommandKind::EqMid {
                deck: d2,
                target_db: v2,
                ramp_frames: r3,
            }
            &&& d2 == deck && v2 == d.eq_mid_db && ramp(r3)
            &&& high[0].kind matches AudioCommandKind::EqHigh {
                deck: d3,
                target_db: v3,
                ramp_frames: r4,
            }
            &&& d3 == deck && v3 == d.eq_high_db && ramp(r4)
            &&& pitch[0].kind matches AudioCommandKind::Pitch {
                deck: d4,
                semitones,
                ramp_frames: r5,
            }
            &&& d4 == deck && semitones == d.pitch_semitones && ramp(r5)
            &&& tempo[0].kind matches AudioCommandKind::Tempo { deck: d5, ratio, ramp_frames: r6 }
            &&& d5 == deck && ratio == d.tempo_ratio && ramp(r6)
        }),
{
    times_become_frames(0, sample_rate);
}

/// A setting of the whole mixer is sent as the state then shows it.
pub proof fn switched_settings_are_sent_as_shown(
    prev: EngineState,
    next: EngineState,
    curve: CrossfaderCurve,
    enabled: bool,
    threshold_db: F32Bits,
    now: u64,
    sample_rate: u32,
    opened: Opened,
)
    ensures
        commands_for(
            prev,
            next,
            EventKind::SetCrossfaderCurve { curve },
            now,
            sample_rate,
            opened,
        ) == seq![
            AudioCommand {
                at_frame: now,
                kind: AudioCommandKind::SetCrossfaderCurve { curve: next.crossfader_curve },
            },
        ],
        commands_for(
            prev,
            next,
            EventKind::SetMasterLimiterEnabled { enabled },
            now,
            sample_rate,
            opened,
        ) == seq![
            AudioCommand {
                at_frame: now,
                kind: AudioCommandKind::SetMasterLimiterEnabled {
                    enabled: next.master_limiter_enabled,
                },
            },
        ],
        commands_for(
            prev,
            next,
            EventKind::SetMasterLimiterThreshold { threshold_db },
            now,
            sample_rate,
            opened,
        ) == seq![
            AudioCommand {
                at_frame: now,
                kind: AudioCommandKind::SetMasterLimiterThreshold {
                    threshold_db: next.master_limiter_threshold_db,
                },
            },
        ],
{
}

/// A loop is armed just where the deck then has a whole one that is on, from
/// its beginning to its end; leaving it always disarms it.
pub proof fn loops_are_armed_when_whole(
    prev: EngineState,
    next: EngineState,
    deck: DeckId,
    bars: u32,
    now: u64,
    sample_rate: u32,
    opened: Opened,
)
    ensures
        ({
            let d = if deck == DeckId::A {
                next.deck_a
            } else {
                next.deck_b
            };
            let of = |kind: EventKind|
                commands_for(prev, next, kind, now, sample_rate, opened);
            let out = of(EventKind::LoopOut { deck });
            let whole = d.loop_active && d.loop_in_ms is Some && d.loop_out_ms is Some;
            let at = |ms: u64, frame: u64|
                ms * sample_rate < 1000 * 0x1_0000_0000_0000_0000 ==> 1000 * frame <= ms
                    * sample_rate < 1000 * frame + 1000;
            &&& of(EventKind::SetLoopBars { deck, bars }) == out
            &&& of(EventKind::LoopExit { deck }) == seq![
                AudioCommand { at_frame: now, kind: AudioCommandKind::LoopDisarm { deck } },
            ]
            &&& !whole ==> out.len() == 0
            &&& whole ==> {
                &&& out.len() == 1
                &&& out[0].kind matches AudioCommandKind::LoopArm { deck: e, in_frame, out_frame }
                &&& e == deck
                &&& at(d.loop_in_ms->0, in_frame)
                &&& at(d.loop_out_ms->0, out_frame)
            }
        }),
{
    let d = next.deck(deck);
    if d.loop_in_ms is Some {
        times_become_frames(d.loop_in_ms->0, sample_rate);
    }
    if d.loop_out_ms is Some {
        times_become_frames(d.loop_out_ms->0, sample_rate);
    }
}

/// A track that could be opened is loaded into the deck of the event, by its
/// handle; where the service refused, or was not asked, nothing is loaded.
pub proof fn opened_tracks_are_loaded(
    prev: EngineState,
    next: EngineState,
    kind: EventKind,
    now: u64,
    sample_rate: u32,
    opened: Opened,
)
    ensures
        ({
            let c = commands_for(prev, next, kind, now, sample_rate, opened);
            &&& kind matches EventKind::DeckLoad { deck, track_gain_db, .. } ==> match opened {
                Opened::Track(Ok(handle)) => c == seq![
                    AudioCommand {
                        at_frame: now,
                        kind: AudioCommandKind::DeckLoad { deck, handle, track_gain_db },
                    },
                ],
                _ => c.len() == 0,
            }
            &&& kind matches EventKind::DeckLoadStems { deck, .. } ==> match opened {
                Opened::Stems(Ok(stems)) => c == seq![
                    AudioCommand {
                        at_frame: now,
                        kind: AudioCommandKind::DeckLoadStems { deck, stems },
                    },
                ],
                _ => c.len() == 0,
            }
        }),
{
}

/// A load that the service refused is reported once, for the deck and the
/// track that it was for and with the reason; nothing else is reported.
pub proof fn refused_loads_are_reported(kind: EventKind, opened: Opened)
    ensures
        ({
            let f = failures_for(kind, opened);
            &&& f.len() == 1 <==> (kind is DeckLoad && opened is Track && opened->Track_0 is Err) || (
            kind is DeckLoadStems && opened is Stems && opened->Stems_0 is Err)
            &&& f.len() <= 1
            &&& kind matches EventKind::DeckLoad { deck, track, .. } ==> (
            opened matches Opened::Track(Err(error)) ==> f[0] == (DecodeFailure {
                deck,
                track_id: track.id,
                error,
            }))
            &&& kind matches EventKind::DeckLoadStems { deck, track, .. } ==> (
            opened matches Opened::Stems(Err(error)) ==> f[0] == (DecodeFailure {
                deck,
                track_id: track.id,
                error,
            }))
        }),
{
}

/// What an event tells of a deck goes on to that deck as it is: unloading,
/// putting the knobs to rest, and the gain of one of four stems.
pub proof fn deck_orders_go_on_as_they_are(
    prev: EngineState,
    next: EngineState,
    deck: DeckId,
    stem: u8,
    gain: F32Bits,
    now: u64,
    sample_rate: u32,
    opened: Opened,
)
    ensures
        ({
            let of = |kind: EventKind|
                commands_for(prev, next, kind, now, sample_rate, opened);
            let gains = of(EventKind::SetStemGain { deck, stem, gain });
            &&& of(EventKind::DeckUnload { deck }) == seq![
                AudioCommand { at_frame: now, kind: AudioCommandKind::DeckUnload { deck } },
            ]
            &&& of(EventKind::PitchTempoReset { deck }) == seq![
                AudioCommand { at_frame: now, kind: AudioCommandKind::PitchTempoReset { deck } },
            ]
            &&& stem < 4 ==> gains == seq![
                AudioCommand {
                    at_frame: now,
                    kind: AudioCommandKind::SetStemGain { deck, stem, gain },
                },
            ]
            &&& stem >= 4 ==> gains.len() == 0
        }),
{
}

/// What an event tells of an effect slot goes on to that slot as it is.
pub proof fn slot_orders_go_on_as_they_are(
    prev: EngineState,
    next: EngineState,
    deck: DeckId,
    slot: u8,
    effect_id: u32,
    value: F32Bits,
    enabled: bool,
    now: u64,
    sample_rate: u32,
    opened: Opened,
)
    ensures
        ({
            let of = |kind: EventKind|
                commands_for(prev, next, kind, now, sample_rate, opened);
            let one = |kind: AudioCommandKind| seq![AudioCommand { at_frame: now, kind }];
            &&& of(EventKind::EffectAssign { deck, slot, effect_id }) == one(
                AudioCommandKind::EffectAssign { deck, slot, effect_id },
            )
            &&& of(EventKind::EffectClear { deck, slot }) == one(
                AudioCommandKind::EffectClear { deck, slot },
            )
            &&& of(EventKind::EffectWetDry { deck, slot, value }) == one(
                AudioCommandKind::EffectWetDry { deck, slot, value },
            )
            &&& of(EventKind::EffectEnable { deck, slot, enabled }) == one(
                AudioCommandKind::EffectEnable { deck, slot, enabled },
            )
            &&& of(EventKind::EffectLfoClear { deck, slot }) == one(
                AudioCommandKind::EffectLfoClear { deck, slot },
            )
        }),
{
}

/// Two slots of the chain are swapped where they differ; a number past the
/// chain means its last slot.
pub proof fn swaps_stay_in_the_chain(
    prev: EngineState,
    next: EngineState,
    deck: DeckId,
    slot_a: u8,
    slot_b: u8,
    now: u64,
    sample_rate: u32,
    opened: Opened,
)
    ensures
        ({
            let c = commands_for(
                prev,
                next,
                EventKind::EffectSwapSlots { deck, slot_a, slot_b },
                now,
                sample_rate,
                opened,
            );
            let same = slot_a == slot_b || (slot_a >= 2 && slot_b >= 2);
            &&& same ==> c.len() == 0
            &&& !same ==> {
                &&& c.len() == 1
                &&& c[0].kind matches AudioCommandKind::EffectSwap { deck: e, a, b }
                &&& e == deck
                &&& a < 3 && b < 3
                &&& slot_a < 3 ==> a == slot_a
                &&& slot_b < 3 ==> b == slot_b
                &&& slot_a >= 3 ==> a == 2
                &&& slot_b >= 3 ==> b == 2
            }
        }),
{
}

/// A parameter is written where the effect that the slot then holds has one
/// of that name, and to no other.
pub proof fn parameters_go_to_the_slots_effect(
    prev: EngineState,
    next: EngineState,
    deck: DeckId,
    slot: u8,
    param: String,
    value: F32Bits,
    now: u64,
    sample_rate: u32,
    opened: Opened,
)
    ensures
        ({
            let d = if deck == DeckId::A {
                next.deck_a
            } else {
                next.deck_b
            };
            let c = commands_for(
                prev,
                next,
                EventKind::EffectParam { deck, slot, param, value },
                now,
                sample_rate,
                opened,
            );
            let known = slot < 3 && resolved(d.effects[slot as int].effect_id, param@) is Some;
            &&& !known ==> c.len() == 0
            &&& known ==> c == seq![
                AudioCommand {
                    at_frame: now,
                    kind: AudioCommandKind::EffectParam {
                        deck,
                        slot,
                        param_id: resolved(d.effects[slot as int].effect_id, param@)->0,
                        value,
                    },
                },
            ]
        }),
{
}

/// An oscillator is sent as the state then shows it in the slot; a one-shot
/// switches its slot on, where it goes from off to on.
pub proof fn oscillators_and_one_shots_follow_the_slot(
    prev: EngineState,
    next: EngineState,
    deck: DeckId,
    slot: u8,
    config: LfoConfig,
    beats: F32Bits,
    now: u64,
    sample_rate: u32,
    opened: Opened,
)
    ensures
        ({
            let before = if deck == DeckId::A {
                prev.deck_a
            } else {
                prev.deck_b
            };
            let after = if deck == DeckId::A {
                next.deck_a
            } else {
                next.deck_b
            };
            let shot = commands_for(
                prev,
                next,
                EventKind::EffectOneShot { deck, slot, beats },
                now,
                sample_rate,
                opened,
            );
            let lfo = commands_for(
                prev,
                next,
                EventKind::EffectLfoSet { deck, slot, config },
                now,
                sample_rate,
                opened,
            );
            let goes_on = slot < 3 && !before.effects[slot as int].enabled
                && after.effects[slot as int].enabled;
            let has_lfo = slot < 3 && after.effects[slot as int].lfo is Some;
            &&& shot == (if goes_on {
                seq![
                    AudioCommand {
                        at_frame: now,
                        kind: AudioCommandKind::EffectEnable { deck, slot, enabled: true },
                    },
                ]
            } else {
                Seq::empty()
            })
            &&& lfo == (if has_lfo {
                seq![
                    AudioCommand {
                        at_frame: now,
                        kind: AudioCommandKind::EffectLfoSet {
                            deck,
                            slot,
                            config: after.effects[slot as int].lfo->0,
                        },
                    },
                ]
            } else {
                Seq::empty()
            })
        }),
{
}

/// An event that does not concern the audio thread yields nothing.
pub proof fn other_events_are_silent(
    prev: EngineState,
    next: EngineState,
    kind: EventKind,
    now: u64,
    sample_rate: u32,
    opened: Opened,
)
    requires
        kind is HotCueSet || kind is LoopIn || kind is PhaseNudge || kind is CopilotEngage
            || kind is CopilotDisengage || kind is SetMasterBpm || kind is SessionStart
            || kind is SessionEnd,
    ensures
        commands_for(prev, next, kind, now, sample_rate, opened).len() == 0,
        failures_for(kind, opened).len() == 0,
{
}

/// What is cancelled when a deck is taken over lies behind the end of the
/// handoff: its distance is counted from now, and is none once the end has
/// passed.
pub proof fn takeovers_count_from_now(
    prev: EngineState,
    next: EngineState,
    deck: DeckId,
    until: u64,
    now: u64,
    sample_rate: u32,
    opened: Opened,
)
    ensures
        ({
            let c = commands_for(
                prev,
                next,
                EventKind::TakeOver { deck, handoff_until_frame: until },
                now,
                sample_rate,
                opened,
            );
            &&& c.len() == 2
            &&& c[1].kind matches AudioCommandKind::CancelAfter { deck: e, after_frames }
            &&& e == deck
            &&& until <= now ==> after_frames == 0
            &&& until > now ==> (until - now - after_frames) % 0x1_0000_0000 == 0
        }),
{
    if until > now {
        let left = until - now;
        vstd::arithmetic::div_mod::lemma_fundamental_div_mod(left, 0x1_0000_0000);
        vstd::arithmetic::div_mod::lemma_mod_multiples_basic(
            left / 0x1_0000_0000,
            0x1_0000_0000,
        );
    }
}

/// The class of a failure tells its causes apart, but for a format that is
/// not supported and a file without a track, which a client treats alike.
pub proof fn categories_tell_causes_apart(a: DecodeError, b: DecodeError)
    ensures
        error_category(a) == error_category(b) <==> ({
            ||| a is Io && b is Io
            ||| (a is Probe || a is NoTrack) && (b is Probe || b is NoTrack)
            ||| a is Resampler && b is Resampler
            ||| a is NoFreeSlot && b is NoFreeSlot
            ||| a is UnknownInlineSource && b is UnknownInlineSource
            ||| a is Spawn && b is Spawn
        }),
        a is Io ==> error_category(a) == "file_not_found"@,
        a is Probe ==> error_category(a) == "format_unsupported"@,
        a is Resampler ==> error_category(a) == "decoder_error"@,
        a is NoFreeSlot ==> error_category(a) == "resource_exhausted"@,
        a is UnknownInlineSource ==> error_category(a) == "unknown_inline_source"@,
        a is Spawn ==> error_category(a) == "decoder_thread_spawn"@,
{
    reveal_strlit("file_not_found");
    reveal_strlit("format_unsupported");
    reveal_strlit("decoder_error");
    reveal_strlit("resource_exhausted");
    reveal_strlit("unknown_inline_source");
    reveal_strlit("decoder_thread_spawn");
    if error_category(a) == error_category(b) {
        assert(error_category(a).len() == error_category(b).len());
        assert(error_category(a)[0] == error_category(b)[0]);
    }
}

/// A load asks the decode service once for the event's own track, by its id
/// and from its path, at the rate of the engine; the slot that then opens was
/// opened for that, and it is the one that the deck gets.
pub proof fn loads_ask_for_the_events_track<D: DecodeService>(
    before: D,
    after: D,
    kind: EventKind,
    sample_rate: u32,
    opened: Opened,
)
    requires
        answered(before, after, kind, sample_rate, opened),
        kind is DeckLoad,
    ensures
        ({
            let track = kind->DeckLoad_track;
            let last = after.attempts().last();
            &&& after.attempts().len() == before.attempts().len() + 1
            &&& before.attempts().is_prefix_of(after.attempts())
            &&& last.source.id == track.id@
            &&& last.source.path == track.path@
            &&& last.source.rate == sample_rate
            &&& opened == Opened::Track(last.outcome)
            &&& last.outcome matches Ok(h) ==> {
                &&& after.open_set().contains(slot_of(h))
                &&& !before.open_set().contains(slot_of(h))
                &&& after.source(slot_of(h)).path == track.path@
            }
            &&& last.outcome is Err ==> after.open_set() == before.open_set()
        }),
{
}

/// Loading stems asks for the event's own stems, each from its own path and
/// at the rate of the engine; where one fails, nothing is left open.
pub proof fn stem_loads_ask_for_the_events_stems<D: DecodeService>(
    before: D,
    after: D,
    kind: EventKind,
    sample_rate: u32,
    opened: Opened,
    i: int,
)
    requires
        answered(before, after, kind, sample_rate, opened),
        kind is DeckLoadStems,
        before.attempts().len() <= i < after.attempts().len(),
    ensures
        ({
            let k = i - before.attempts().len();
            &&& after.attempts()[i].source.path == kind->DeckLoadStems_stem_paths[k]@
            &&& after.attempts()[i].source.rate == sample_rate
            &&& after.attempts().len() <= before.attempts().len() + 4
            &&& before.attempts() == after.attempts().take(before.attempts().len() as int)
            &&& opened matches Opened::Stems(Ok(s)) ==> {
                &&& after.closings() == before.closings()
                &&& after.attempts()[i].outcome == Ok::<DecodeHandle, DecodeError>(s.0[k])
                &&& after.open_set().contains(slot_of(s.0[k]))
                &&& after.source(slot_of(s.0[k])).path == kind->DeckLoadStems_stem_paths[k]@
            }
            &&& opened matches Opened::Stems(Err(_)) ==> {
                &&& after.open_set() == before.open_set()
                &&& before.closings().is_prefix_of(after.closings())
                &&& after.closings().skip(before.closings().len() as int) == handles_of(
                    after.attempts().skip(before.attempts().len() as int),
                )
            }
        }),
{
    let asked = after.attempts().skip(before.attempts().len() as int);
    let k = i - before.attempts().len();
    assert(asked[k] == after.attempts()[i]);
    assert(before.attempts() =~= after.attempts().take(before.attempts().len() as int));
    if opened matches Opened::Stems(Err(_)) {
        assert(after.closings().skip(before.closings().len() as int) =~= handles_of(asked));
    }
    if let Opened::Stems(o) = opened {
        stems_are_asked_for_in_turn(
            asked,
            kind->DeckLoadStems_track,
            kind->DeckLoadStems_stem_paths,
            sample_rate,
            o,
            k,
        );
        sources_are_the_tracks_own(
            kind->DeckLoadStems_track,
            kind->DeckLoadStems_stem_paths[k],
            sample_rate,
            k,
        );
    }
}

/// An event that loads nothing leaves the decode service alone.
pub proof fn other_events_ask_for_nothing<D: DecodeService>(
    before: D,
    after: D,
    kind: EventKind,
    sample_rate: u32,
    opened: Opened,
)
    requires
        answered(before, after, kind, sample_rate, opened),
        !(kind is DeckLoad),
        !(kind is DeckLoadStems),
    ensures
        after == before,
        opened is NotAsked,
{
}

} // verus!
