//! Control state of the mixer, and where each deck's samples come from.
//!
//! Commands change this state when they take effect; the ramp that some of
//! them carry is for the code that turns the state into samples.
use vstd::prelude::*;

use crate::audio::command::{AudioCommand, AudioCommandKind};
use crate::audio::decode::DecodeHandle;
use crate::audio::limiter::{clamp_threshold_db, threshold_spec, DEFAULT_THRESHOLD_BITS};
use crate::f32_bits::{F32Bits, HALF_BITS, ONE_BITS, ZERO_BITS};
use crate::state::DeckId;

verus! {

/// Frames pulled from a decoder at a time.
pub const STEREO_PULL_FRAMES: usize = 256;

/// Bit pattern of 440, the pitch of deck A's oscillator in Hz.
pub const TONE_A_BITS: u32 = 0x43DC_0000;

/// Bit pattern of 220, the pitch of deck B's oscillator in Hz.
pub const TONE_B_BITS: u32 = 0x435C_0000;

/// One deck as the audio thread sees it.
#[derive(Clone, Copy, Debug, PartialEq, Eq, Structural)]
pub struct DeckHot {
    pub playing: bool,
    /// Phase of the fallback oscillator in radians.
    pub phase: F32Bits,
    /// Pitch of the fallback oscillator in Hz.
    pub freq_hz: F32Bits,
    /// Gain in decibels.
    pub gain_db: F32Bits,
    /// End of the handoff envelope; 0 while none is armed.
    pub handoff_until_frame: u64,
    /// The loaded track, or the empty handle.
    pub loaded: DecodeHandle,
}

/// Where a deck's samples come from.
#[derive(Clone, Copy, Debug, PartialEq, Eq, Structural)]
pub enum DeckSource {
    Silence,
    /// The fallback oscillator.
    Oscillator,
    /// A decoded track.
    Decoder(DecodeHandle),
}

/// Mixing state of the audio thread.
#[derive(Clone, Copy, Debug, PartialEq, Eq, Structural)]
pub struct AudioMixer {
    pub sample_rate: u32,
    pub crossfader: F32Bits,
    pub deck_a: DeckHot,
    pub deck_b: DeckHot,
    /// Whether a decode service is there to pull from.
    pub has_decode: bool,
    /// Whether the master bus is limited.
    pub limiter_enabled: bool,
    /// Threshold of the master limiter in decibels, within its range.
    pub limiter_threshold_db: F32Bits,
}

/// A deck at rest.
pub open spec fn idle_deck(freq_bits: u32) -> DeckHot {
    DeckHot {
        playing: false,
        phase: F32Bits { bits: ZERO_BITS },
        freq_hz: F32Bits { bits: freq_bits },
        gain_db: F32Bits { bits: ZERO_BITS },
        handoff_until_frame: 0,
        loaded: DecodeHandle::none_spec(),
    }
}

/// What a command does to the deck that it names.
pub open spec fn deck_after(d: DeckHot, kind: AudioCommandKind) -> DeckHot {
    match kind {
        AudioCommandKind::DeckPlay { .. } => DeckHot { playing: true, ..d },
        AudioCommandKind::DeckPause { .. } => DeckHot { playing: false, ..d },
        AudioCommandKind::DeckSeek { .. } => DeckHot { phase: F32Bits { bits: ZERO_BITS }, ..d },
        AudioCommandKind::EqLow { target_db, .. } => DeckHot { gain_db: target_db, ..d },
        AudioCommandKind::EqMid { target_db, .. } => DeckHot { gain_db: target_db, ..d },
        AudioCommandKind::EqHigh { target_db, .. } => DeckHot { gain_db: target_db, ..d },
        AudioCommandKind::DeckLoad { handle, .. } => DeckHot { loaded: handle, ..d },
        AudioCommandKind::DeckUnload { .. } => DeckHot {
            loaded: DecodeHandle::none_spec(),
            playing: false,
            ..d
        },
        AudioCommandKind::ArmHandoff { until_frame, .. } => DeckHot {
            handoff_until_frame: until_frame,
            ..d
        },
        _ => d,
    }
}

/// The deck whose mixing state a command changes, if it changes one.
pub open spec fn deck_named(kind: AudioCommandKind) -> Option<DeckId> {
    match kind {
        AudioCommandKind::DeckPlay { deck } => Some(deck),
        AudioCommandKind::DeckPause { deck } => Some(deck),
        AudioCommandKind::DeckSeek { deck, .. } => Some(deck),
        AudioCommandKind::EqLow { deck, .. } => Some(deck),
        AudioCommandKind::EqMid { deck, .. } => Some(deck),
        AudioCommandKind::EqHigh { deck, .. } => Some(deck),
        AudioCommandKind::DeckLoad { deck, .. } => Some(deck),
        AudioCommandKind::DeckUnload { deck } => Some(deck),
        AudioCommandKind::ArmHandoff { deck, .. } => Some(deck),
        _ => None,
    }
}

impl AudioMixer {
    /// The deck named by `id`.
    pub open spec fn deck(self, id: DeckId) -> DeckHot {
        match id {
            DeckId::A => self.deck_a,
            DeckId::B => self.deck_b,
        }
    }

    /// The state with deck `id` replaced.
    pub open spec fn with_deck(self, id: DeckId, d: DeckHot) -> AudioMixer {
        match id {
            DeckId::A => AudioMixer { deck_a: d, ..self },
            DeckId::B => AudioMixer { deck_b: d, ..self },
        }
    }

    /// The state after a command.
    pub open spec fn after(self, kind: AudioCommandKind) -> AudioMixer {
        match kind {
            AudioCommandKind::Crossfader { target, .. } => AudioMixer {
                crossfader: target.clamp_spec(
                    F32Bits { bits: ZERO_BITS },
                    F32Bits { bits: ONE_BITS },
                ),
                ..self
            },
            AudioCommandKind::SetMasterLimiterEnabled { enabled } => AudioMixer {
                limiter_enabled: enabled,
                ..self
            },
            AudioCommandKind::SetMasterLimiterThreshold { threshold_db } => AudioMixer {
                limiter_threshold_db: threshold_spec(threshold_db),
                ..self
            },
            _ => match deck_named(kind) {
                Some(id) => self.with_deck(id, deck_after(self.deck(id), kind)),
                None => self,
            },
        }
    }

    /// The state after some commands, one after the other.
    pub open spec fn after_all(self, cmds: Seq<AudioCommand>) -> AudioMixer
        decreases cmds.len(),
    {
        if cmds.len() == 0 {
            self
        } else {
            self.after_all(cmds.drop_last()).after(cmds.last().kind)
        }
    }

    /// Both decks at rest, the crossfader in the middle, no decode service,
    /// the master limiter on at its default threshold.
    pub fn new(sample_rate: u32) -> (r: Self)
        ensures
            r == (AudioMixer {
                sample_rate,
                crossfader: F32Bits { bits: HALF_BITS },
                deck_a: idle_deck(TONE_A_BITS),
                deck_b: idle_deck(TONE_B_BITS),
                has_decode: false,
                limiter_enabled: true,
                limiter_threshold_db: F32Bits { bits: DEFAULT_THRESHOLD_BITS },
            }),
            !r.deck_a.playing && !r.deck_b.playing,
            r.deck_a.loaded.0 == 0xFFFF_FFFF && r.deck_b.loaded.0 == 0xFFFF_FFFF,
            r.deck_a.freq_hz.bits == 0x43DC_0000 && r.deck_b.freq_hz.bits == 0x435C_0000,
            r.crossfader.bits == 0x3F00_0000,
            r.limiter_threshold_db.bits == 0xBF00_0000,
    {
        let zero: F32Bits = F32Bits { bits: ZERO_BITS };
        let a: DeckHot = DeckHot {
            playing: false,
            phase: zero,
            freq_hz: F32Bits { bits: TONE_A_BITS },
            gain_db: zero,
            handoff_until_frame: 0,
            loaded: DecodeHandle::none(),
        };
        let b: DeckHot = DeckHot { freq_hz: F32Bits { bits: TONE_B_BITS }, ..a };
        AudioMixer {
            sample_rate,
            crossfader: F32Bits { bits: HALF_BITS },
            deck_a: a,
            deck_b: b,
            has_decode: false,
            limiter_enabled: true,
            limiter_threshold_db: F32Bits { bits: DEFAULT_THRESHOLD_BITS },
        }
    }

    /// The same, with a decode service to pull from.
    pub fn with_decode(sample_rate: u32) -> (r: Self)
        ensures
            r == (AudioMixer {
                sample_rate,
                crossfader: F32Bits { bits: HALF_BITS },
                deck_a: idle_deck(TONE_A_BITS),
                deck_b: idle_deck(TONE_B_BITS),
                has_decode: true,
                limiter_enabled: true,
                limiter_threshold_db: F32Bits { bits: DEFAULT_THRESHOLD_BITS },
            }),
    {
        let mut m: AudioMixer = AudioMixer::new(sample_rate);
        m.has_decode = true;
        m
    }

    fn put(&mut self, id: DeckId, d: DeckHot)
        ensures
            *final(self) == old(self).with_deck(id, d),
    {
        match id {
            DeckId::A => {
                self.deck_a = d;
            },
            DeckId::B => {
                self.deck_b = d;
            },
        }
    }

    fn hot(&self, id: DeckId) -> (r: DeckHot)
        ensures
            r == self.deck(id),
    {
        match id {
            DeckId::A => self.deck_a,
            DeckId::B => self.deck_b,
        }
    }

    /// Apply one command.
    pub fn apply(&mut self, cmd: AudioCommand)
        ensures
            *final(self) == old(self).after(cmd.kind),
    {
        let zero: F32Bits = F32Bits { bits: ZERO_BITS };
        match cmd.kind {
            AudioCommandKind::DeckPlay { deck } => {
                let d: DeckHot = self.hot(deck);
                self.put(deck, DeckHot { playing: true, ..d });
            },
            AudioCommandKind::DeckPause { deck } => {
                let d: DeckHot = self.hot(deck);
                self.put(deck, DeckHot { playing: false, ..d });
            },
            AudioCommandKind::DeckSeek { deck, .. } => {
                let d: DeckHot = self.hot(deck);
                self.put(deck, DeckHot { phase: zero, ..d });
            },
            AudioCommandKind::Crossfader { target, .. } => {
                self.crossfader = target.clamp(zero, F32Bits { bits: ONE_BITS });
            },
            AudioCommandKind::SetMasterLimiterEnabled { enabled } => {
                self.limiter_enabled = enabled;
            },
            AudioCommandKind::SetMasterLimiterThreshold { threshold_db } => {
                self.limiter_threshold_db = clamp_threshold_db(threshold_db);
            },
            AudioCommandKind::EqLow { deck, target_db, .. }
            | AudioCommandKind::EqMid { deck, target_db, .. }
            | AudioCommandKind::EqHigh { deck, target_db, .. } => {
                let d: DeckHot = self.hot(deck);
                self.put(deck, DeckHot { gain_db: target_db, ..d });
            },
            AudioCommandKind::DeckLoad { deck, handle, .. } => {
                let d: DeckHot = self.hot(deck);
                self.put(deck, DeckHot { loaded: handle, ..d });
            },
            AudioCommandKind::DeckUnload { deck } => {
                let d: DeckHot = self.hot(deck);
                self.put(deck, DeckHot { loaded: DecodeHandle::none(), playing: false, ..d });
            },
            AudioCommandKind::ArmHandoff { deck, until_frame } => {
                let d: DeckHot = self.hot(deck);
                self.put(deck, DeckHot { handoff_until_frame: until_frame, ..d });
            },
            _ => {},
        }
    }

    /// Where a deck's samples come from: a playing deck pulls its track where
    /// it has one and there is a service, and else runs its oscillator.
    pub open spec fn source_spec(self, id: DeckId) -> DeckSource {
        let d = self.deck(id);
        if !d.playing {
            DeckSource::Silence
        } else if self.has_decode && d.loaded != DecodeHandle::none_spec() {
            DeckSource::Decoder(d.loaded)
        } else {
            DeckSource::Oscillator
        }
    }

    /// Tell where a deck's samples come from.
    pub fn source(&self, id: DeckId) -> (r: DeckSource)
        ensures
            r == self.source_spec(id),
    {
        let d: DeckHot = self.hot(id);
        if !d.playing {
            DeckSource::Silence
        } else if self.has_decode && d.loaded.is_some() {
            DeckSource::Decoder(d.loaded)
        } else {
            DeckSource::Oscillator
        }
    }

    /// Position of the crossfader: 0 is deck A alone, 1 deck B alone.
    pub fn crossfader(&self) -> (r: F32Bits)
        ensures
            r == self.crossfader,
    {
        self.crossfader
    }

    /// Whether a deck plays.
    pub fn is_playing(&self, deck: DeckId) -> (r: bool)
        ensures
            r == self.deck(deck).playing,
    {
        self.hot(deck).playing
    }

    /// End of a deck's handoff envelope.
    pub fn handoff_until(&self, deck: DeckId) -> (r: u64)
        ensures
            r == self.deck(deck).handoff_until_frame,
    {
        self.hot(deck).handoff_until_frame
    }

    /// Move the phase of a deck's oscillator.
    pub fn set_phase(&mut self, deck: DeckId, phase: F32Bits)
        ensures
            *final(self) == old(self).with_deck(
                deck,
                DeckHot { phase, ..old(self).deck(deck) },
            ),
    {
        let d: DeckHot = self.hot(deck);
        self.put(deck, DeckHot { phase, ..d });
    }
}

/// Frames of the next pull when `written` of `total` frames are done.
pub fn pull_frames(total: usize, written: usize) -> (r: usize)
    requires
        written <= total,
    ensures
        r == (if total - written < STEREO_PULL_FRAMES {
            total - written
        } else {
            STEREO_PULL_FRAMES as int
        }),
{
    let left: usize = total - written;
    if left < STEREO_PULL_FRAMES {
        left
    } else {
        STEREO_PULL_FRAMES
    }
}

/// A command changes at most the deck that it names: the other deck, the
/// sample rate and the decode service stay as they were.
pub proof fn commands_touch_one_deck(m: AudioMixer, kind: AudioCommandKind, other: DeckId)
    requires
        deck_named(kind) != Some(other),
    ensures
        m.after(kind).deck(other) == m.deck(other),
        m.after(kind).sample_rate == m.sample_rate,
        m.after(kind).has_decode == m.has_decode,
{
}

/// Whatever commands come, the crossfader stays between its ends or is not a
/// number.
pub proof fn crossfader_stays_in_range(m: AudioMixer, kind: AudioCommandKind)
    requires
        m.crossfader.is_nan_spec() || 0 <= m.crossfader.rank() <= ONE_BITS,
    ensures
        m.after(kind).crossfader.is_nan_spec() || 0 <= m.after(kind).crossfader.rank() <= ONE_BITS,
{
    if let AudioCommandKind::Crossfader { target, .. } = kind {
        crate::f32_bits::clamp_stays_in_range(
            target,
            F32Bits { bits: ZERO_BITS },
            F32Bits { bits: ONE_BITS },
        );
    }
}

/// Unloading a deck silences it, and what was loaded is gone.
pub proof fn unloading_silences(m: AudioMixer, deck: DeckId)
    ensures
        m.after(AudioCommandKind::DeckUnload { deck }).source_spec(deck) == DeckSource::Silence,
        m.after(AudioCommandKind::DeckUnload { deck }).deck(deck).loaded
            == DecodeHandle::none_spec(),
{
}

/// The crossfader goes where it is sent: a target between the ends is taken
/// as it is, one beyond an end gives that end, and nothing else moves.
pub proof fn crossfader_goes_to_its_target(m: AudioMixer, target: F32Bits, ramp_frames: u32)
    ensures
        ({
            let after = m.after(AudioCommandKind::Crossfader { target, ramp_frames });
            &&& !target.is_nan_spec() && 0 <= target.rank() <= ONE_BITS ==> after.crossfader
                == target
            &&& target.bits <= 0x3F80_0000 || target.bits == 0x8000_0000 ==> after.crossfader
                == target
            &&& 0x3F80_0000 < target.bits <= 0x7F80_0000 ==> after.crossfader.bits == 0x3F80_0000
            &&& 0x8000_0000 < target.bits <= 0xFF80_0000 ==> after.crossfader.bits == 0
            &&& 0x7F80_0000 < target.bits < 0x8000_0000 || 0xFF80_0000 < target.bits
                ==> after.crossfader == target
            &&& after.deck_a == m.deck_a
            &&& after.deck_b == m.deck_b
            &&& after.limiter_enabled == m.limiter_enabled
            &&& after.limiter_threshold_db == m.limiter_threshold_db
            &&& after.sample_rate == m.sample_rate
            &&& after.has_decode == m.has_decode
        }),
{
}

/// Only a command for the crossfader moves it, and only one for the limiter
/// changes that; no command changes the sample rate or whether there is a
/// decode service.
pub proof fn commands_keep_to_their_own(m: AudioMixer, kind: AudioCommandKind)
    ensures
        !(kind is Crossfader) ==> m.after(kind).crossfader == m.crossfader,
        !(kind is SetMasterLimiterEnabled) ==> m.after(kind).limiter_enabled == m.limiter_enabled,
        !(kind is SetMasterLimiterThreshold) ==> m.after(kind).limiter_threshold_db
            == m.limiter_threshold_db,
        m.after(kind).sample_rate == m.sample_rate,
        m.after(kind).has_decode == m.has_decode,
{
}

/// The limiter is on or off as the last command for it said, and its
/// threshold is the one that was asked for, where that lies in its range.
pub proof fn limiter_follows_its_commands(m: AudioMixer, enabled: bool, threshold_db: F32Bits)
    ensures
        m.after(AudioCommandKind::SetMasterLimiterEnabled { enabled }).limiter_enabled == enabled,
        m.after(AudioCommandKind::SetMasterLimiterEnabled { enabled }).deck_a == m.deck_a,
        m.after(AudioCommandKind::SetMasterLimiterEnabled { enabled }).deck_b == m.deck_b,
        ({
            let after = m.after(AudioCommandKind::SetMasterLimiterThreshold { threshold_db });
            let bits = threshold_db.bits;
            &&& bits == 0 || 0x8000_0000 <= bits <= 0xC1C0_0000 ==> after.limiter_threshold_db
                == threshold_db
            &&& 0 < bits < 0x7F80_0000 ==> after.limiter_threshold_db.bits == 0
            &&& 0xC1C0_0000 < bits < 0xFF80_0000 ==> after.limiter_threshold_db.bits == 0xC1C0_0000
            &&& 0x7F80_0000 <= bits < 0x8000_0000 || 0xFF80_0000 <= bits
                ==> after.limiter_threshold_db.bits == 0xBF00_0000
            &&& after.deck_a == m.deck_a
            &&& after.deck_b == m.deck_b
        }),
{
}

/// A deck plays from the command that starts it to the next one that stops
/// it, and no other command starts or stops it but the one that unloads it.
/// The other deck goes on as it did.
pub proof fn decks_play_between_start_and_stop(m: AudioMixer, kind: AudioCommandKind)
    ensures
        m.after(AudioCommandKind::DeckPlay { deck: DeckId::A }).deck_a.playing,
        m.after(AudioCommandKind::DeckPlay { deck: DeckId::B }).deck_b.playing,
        !m.after(AudioCommandKind::DeckPause { deck: DeckId::A }).deck_a.playing,
        !m.after(AudioCommandKind::DeckPause { deck: DeckId::B }).deck_b.playing,
        !m.after(AudioCommandKind::DeckUnload { deck: DeckId::A }).deck_a.playing,
        !m.after(AudioCommandKind::DeckUnload { deck: DeckId::B }).deck_b.playing,
        kind != (AudioCommandKind::DeckPlay { deck: DeckId::A }) && kind != (
        AudioCommandKind::DeckPause { deck: DeckId::A }) && kind != (AudioCommandKind::DeckUnload {
            deck: DeckId::A,
        }) ==> m.after(kind).deck_a.playing == m.deck_a.playing,
        kind != (AudioCommandKind::DeckPlay { deck: DeckId::B }) && kind != (
        AudioCommandKind::DeckPause { deck: DeckId::B }) && kind != (AudioCommandKind::DeckUnload {
            deck: DeckId::B,
        }) ==> m.after(kind).deck_b.playing == m.deck_b.playing,
{
}

/// Starting or stopping a deck changes nothing but whether it plays.
pub proof fn transport_changes_nothing_else(m: AudioMixer, deck: DeckId)
    ensures
        deck == DeckId::A ==> m.deck(deck) == m.deck_a,
        deck == DeckId::B ==> m.deck(deck) == m.deck_b,
        ({
            let there = m.after(AudioCommandKind::DeckPlay { deck });
            let back = there.after(AudioCommandKind::DeckPause { deck });
            let stopped = m.after(AudioCommandKind::DeckPause { deck });
            &&& back == stopped
            &&& m.deck(deck).playing ==> there == m
            &&& !m.deck(deck).playing ==> stopped == m
        }),
{
}

/// A track stays loaded from the command that loads it to the next one that
/// loads or unloads its deck; loading does not start the deck.
pub proof fn tracks_stay_until_replaced(
    m: AudioMixer,
    kind: AudioCommandKind,
    deck: DeckId,
    handle: DecodeHandle,
    track_gain_db: F32Bits,
)
    ensures
        ({
            let load = AudioCommandKind::DeckLoad { deck, handle, track_gain_db };
            let after = m.after(load);
            &&& deck == DeckId::A ==> after.deck_a == (DeckHot { loaded: handle, ..m.deck_a })
                && after.deck_b == m.deck_b
            &&& deck == DeckId::B ==> after.deck_b == (DeckHot { loaded: handle, ..m.deck_b })
                && after.deck_a == m.deck_a
        }),
        m.after(AudioCommandKind::DeckUnload { deck: DeckId::A }).deck_a.loaded.0 == 0xFFFF_FFFF,
        m.after(AudioCommandKind::DeckUnload { deck: DeckId::B }).deck_b.loaded.0 == 0xFFFF_FFFF,
        !(kind is DeckLoad) && kind != (AudioCommandKind::DeckUnload { deck: DeckId::A }) ==> m.after(
            kind,
        ).deck_a.loaded == m.deck_a.loaded,
        !(kind is DeckLoad) && kind != (AudioCommandKind::DeckUnload { deck: DeckId::B }) ==> m.after(
            kind,
        ).deck_b.loaded == m.deck_b.loaded,
{
}

/// Each of the other commands for a deck sets the one thing that it names, on
/// that deck: a seek puts the oscillator back to its start, an equaliser band
/// sets the gain, a handoff its end.
pub proof fn deck_settings_follow_their_commands(
    m: AudioMixer,
    deck: DeckId,
    frame: u64,
    target_db: F32Bits,
    ramp_frames: u32,
    until_frame: u64,
)
    ensures
        ({
            let seek = m.after(AudioCommandKind::DeckSeek { deck, frame });
            let low = m.after(AudioCommandKind::EqLow { deck, target_db, ramp_frames });
            let mid = m.after(AudioCommandKind::EqMid { deck, target_db, ramp_frames });
            let high = m.after(AudioCommandKind::EqHigh { deck, target_db, ramp_frames });
            let arm = m.after(AudioCommandKind::ArmHandoff { deck, until_frame });
            let start = F32Bits { bits: 0 };
            &&& deck == DeckId::A ==> {
                &&& seek == (AudioMixer { deck_a: DeckHot { phase: start, ..m.deck_a }, ..m })
                &&& low == (AudioMixer { deck_a: DeckHot { gain_db: target_db, ..m.deck_a }, ..m })
                &&& arm.deck_a == (DeckHot { handoff_until_frame: until_frame, ..m.deck_a })
                &&& arm.deck_b == m.deck_b
            }
            &&& deck == DeckId::B ==> {
                &&& seek == (AudioMixer { deck_b: DeckHot { phase: start, ..m.deck_b }, ..m })
                &&& low == (AudioMixer { deck_b: DeckHot { gain_db: target_db, ..m.deck_b }, ..m })
                &&& arm.deck_b == (DeckHot { handoff_until_frame: until_frame, ..m.deck_b })
                &&& arm.deck_a == m.deck_a
            }
            &&& mid == low
            &&& high == low
        }),
{
}

/// A command for the stages beside the mixer leaves the mixer as it is.
pub proof fn other_commands_leave_the_mixer(m: AudioMixer, kind: AudioCommandKind)
    requires
        kind is SetCrossfaderCurve || kind is Pitch || kind is Tempo || kind is PitchTempoReset
            || kind is LoopArm || kind is LoopDisarm || kind is DeckLoadStems || kind is SetStemGain
            || kind is CancelAfter || kind is EffectAssign || kind is EffectClear
            || kind is EffectParam || kind is EffectWetDry || kind is EffectEnable
            || kind is EffectSwap || kind is EffectLfoSet || kind is EffectLfoClear,
    ensures
        m.after(kind) == m,
{
}

/// A deck is silent just where it does not play. One that plays pulls its
/// track, where it has one and there is a service to pull from, and sounds
/// its oscillator else.
pub proof fn decks_sound_their_track(m: AudioMixer, deck: DeckId)
    ensures
        ({
            let d = if deck == DeckId::A {
                m.deck_a
            } else {
                m.deck_b
            };
            &&& m.source_spec(deck) == DeckSource::Silence <==> !d.playing
            &&& m.source_spec(deck) is Decoder <==> d.playing && m.has_decode && d.loaded.0
                != 0xFFFF_FFFF
            &&& m.source_spec(deck) matches DeckSource::Decoder(h) ==> h == d.loaded
            &&& !m.has_decode && d.playing ==> m.source_spec(deck) == DeckSource::Oscillator
        }),
{
}

/// A deck that is loaded and then started sounds the track that was loaded,
/// and one that is then paused or unloaded is silent.
pub proof fn loaded_decks_sound_what_was_loaded(
    m: AudioMixer,
    deck: DeckId,
    handle: DecodeHandle,
    track_gain_db: F32Bits,
)
    requires
        m.has_decode,
        handle.0 != 0xFFFF_FFFF,
    ensures
        ({
            let on = m.after(AudioCommandKind::DeckLoad { deck, handle, track_gain_db }).after(
                AudioCommandKind::DeckPlay { deck },
            );
            &&& on.source_spec(deck) == DeckSource::Decoder(handle)
            &&& on.after(AudioCommandKind::DeckPause { deck }).source_spec(deck)
                == DeckSource::Silence
            &&& on.after(AudioCommandKind::DeckUnload { deck }).source_spec(deck)
                == DeckSource::Silence
        }),
{
}

/// A deck starts stopped, without a track, a handoff or gain, with its
/// oscillator at its start and at the pitch that is given.
pub proof fn decks_start_at_rest(m: AudioMixer, freq_bits: u32)
    ensures
        !idle_deck(freq_bits).playing,
        idle_deck(freq_bits).phase.bits == 0,
        idle_deck(freq_bits).gain_db.bits == 0,
        idle_deck(freq_bits).handoff_until_frame == 0,
        idle_deck(freq_bits).loaded.0 == 0xFFFF_FFFF,
        idle_deck(freq_bits).freq_hz.bits == freq_bits,
        m.deck_a == idle_deck(freq_bits) ==> m.source_spec(DeckId::A) == DeckSource::Silence,
        m.deck_b == idle_deck(freq_bits) ==> m.source_spec(DeckId::B) == DeckSource::Silence,
{
}

/// Replacing one deck leaves the other and everything else as it is.
pub proof fn replaced_decks_leave_the_rest(m: AudioMixer, d: DeckHot)
    ensures
        m.with_deck(DeckId::A, d) == (AudioMixer { deck_a: d, ..m }),
        m.with_deck(DeckId::B, d) == (AudioMixer { deck_b: d, ..m }),
        m.deck(DeckId::A) == m.deck_a,
        m.deck(DeckId::B) == m.deck_b,
{
}

/// Going through commands is going through them one after the other.
pub proof fn commands_go_one_after_the_other(
    m: AudioMixer,
    cmds: Seq<AudioCommand>,
    cmd: AudioCommand,
)
    ensures
        m.after_all(Seq::empty()) == m,
        m.after_all(cmds.push(cmd)) == m.after_all(cmds).after(cmd.kind),
{
    assert(cmds.push(cmd).drop_last() =~= cmds);
}

} // verus!
