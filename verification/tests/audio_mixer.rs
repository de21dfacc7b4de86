use hypehouse_engine::audio::command::{AudioCommand, AudioCommandKind};
use hypehouse_engine::audio::decode::DecodeHandle;
use hypehouse_engine::audio::limiter::{clamp_threshold_db, BlockStep, MasterLimiter};
use hypehouse_engine::audio::mixer::{pull_frames, AudioMixer, DeckSource, STEREO_PULL_FRAMES};
use hypehouse_engine::f32_bits::F32Bits;
use hypehouse_engine::state::DeckId;

fn f(x: f32) -> F32Bits {
    F32Bits { bits: x.to_bits() }
}

fn g(x: F32Bits) -> f32 {
    f32::from_bits(x.bits)
}

fn cmd(kind: AudioCommandKind) -> AudioCommand {
    AudioCommand { at_frame: 0, kind }
}

#[test]
fn decks_at_rest_are_silent() {
    let m = AudioMixer::new(48_000);
    assert_eq!(m.source(DeckId::A), DeckSource::Silence);
    assert_eq!(m.source(DeckId::B), DeckSource::Silence);
}

#[test]
fn playing_decks_run_their_oscillator() {
    let mut m = AudioMixer::new(48_000);
    m.apply(cmd(AudioCommandKind::DeckPlay { deck: DeckId::A }));
    m.apply(cmd(AudioCommandKind::Crossfader { target: f(0.0), ramp_frames: 240 }));
    assert_eq!(m.source(DeckId::A), DeckSource::Oscillator, "deck A should produce signal");
    assert_eq!(g(m.deck_a.freq_hz), 440.0);
    assert_eq!(g(m.deck_b.freq_hz), 220.0);
    assert_eq!(g(m.crossfader()), 0.0);
}

#[test]
fn crossfader_clamps() {
    let mut m = AudioMixer::new(48_000);
    m.apply(cmd(AudioCommandKind::Crossfader { target: f(2.5), ramp_frames: 0 }));
    assert!((g(m.crossfader()) - 1.0).abs() < 1e-6);
    m.apply(cmd(AudioCommandKind::Crossfader { target: f(-0.5), ramp_frames: 0 }));
    assert!((g(m.crossfader()) - 0.0).abs() < 1e-6);
}

#[test]
fn arm_handoff_records_until_frame() {
    let mut m = AudioMixer::new(48_000);
    m.apply(cmd(AudioCommandKind::ArmHandoff { deck: DeckId::A, until_frame: 96_000 }));
    assert_eq!(m.handoff_until(DeckId::A), 96_000);
    assert_eq!(m.handoff_until(DeckId::B), 0);
}

#[test]
fn loaded_decks_pull_from_the_decoder() {
    let h = DecodeHandle(7);
    let load = AudioCommandKind::DeckLoad { deck: DeckId::B, handle: h, track_gain_db: f(0.0) };
    let mut m = AudioMixer::with_decode(48_000);
    m.apply(cmd(load));
    assert_eq!(m.source(DeckId::B), DeckSource::Silence);
    m.apply(cmd(AudioCommandKind::DeckPlay { deck: DeckId::B }));
    assert_eq!(m.source(DeckId::B), DeckSource::Decoder(h));
    let mut bare = AudioMixer::new(48_000);
    bare.apply(cmd(load));
    bare.apply(cmd(AudioCommandKind::DeckPlay { deck: DeckId::B }));
    assert_eq!(bare.source(DeckId::B), DeckSource::Oscillator);
}

#[test]
fn unloading_stops_the_deck() {
    let mut m = AudioMixer::with_decode(48_000);
    m.apply(cmd(AudioCommandKind::DeckPlay { deck: DeckId::A }));
    m.apply(cmd(AudioCommandKind::DeckUnload { deck: DeckId::A }));
    assert!(!m.is_playing(DeckId::A));
    assert_eq!(m.source(DeckId::A), DeckSource::Silence);
    assert!(!m.deck_a.loaded.is_some());
}

#[test]
fn seeks_and_eq_act_on_one_deck() {
    let mut m = AudioMixer::new(48_000);
    m.set_phase(DeckId::A, f(1.5));
    m.set_phase(DeckId::B, f(2.5));
    m.apply(cmd(AudioCommandKind::DeckSeek { deck: DeckId::A, frame: 9 }));
    assert_eq!(g(m.deck_a.phase), 0.0);
    assert_eq!(g(m.deck_b.phase), 2.5);
    m.apply(cmd(AudioCommandKind::EqMid { deck: DeckId::B, target_db: f(-6.0), ramp_frames: 1 }));
    assert_eq!(g(m.deck_b.gain_db), -6.0);
    assert_eq!(g(m.deck_a.gain_db), 0.0);
    m.apply(cmd(AudioCommandKind::DeckPlay { deck: DeckId::A }));
    m.apply(cmd(AudioCommandKind::DeckPause { deck: DeckId::A }));
    assert!(!m.is_playing(DeckId::A));
}

#[test]
fn pulls_come_in_chunks() {
    assert_eq!(pull_frames(1_000, 0), STEREO_PULL_FRAMES);
    assert_eq!(pull_frames(1_000, 768), 232);
    assert_eq!(pull_frames(10, 0), 10);
}

#[test]
fn limiter_threshold_clamps_to_safe_window() {
    assert_eq!(g(clamp_threshold_db(f(-100.0))), -24.0);
    assert_eq!(g(clamp_threshold_db(f(20.0))), 0.0);
    assert_eq!(g(clamp_threshold_db(f(f32::NAN))), -0.5);
    assert_eq!(g(clamp_threshold_db(f(-12.0))), -12.0);
    assert_eq!(g(clamp_threshold_db(f(f32::INFINITY))), -0.5);
}

#[test]
fn limiter_settings_start_on_and_keep_their_range() {
    let mut lim = MasterLimiter::new(48_000);
    assert!(lim.enabled());
    assert_eq!(g(lim.threshold_db()), -0.5);
    lim.set_threshold_db(f(-90.0));
    assert_eq!(g(lim.threshold_db()), -24.0);
    assert_eq!(lim.begin_block(48_000), BlockStep::Limit { recompute: false });
    assert_eq!(lim.begin_block(44_100), BlockStep::Limit { recompute: true });
    assert_eq!(lim.begin_block(44_100), BlockStep::Limit { recompute: false });
}

#[test]
fn switching_the_limiter_off_clears_the_meter() {
    let mut lim = MasterLimiter::new(48_000);
    lim.finish_block(-63);
    assert_eq!(lim.gain_reduction(), -63);
    lim.finish_block(5);
    assert_eq!(lim.gain_reduction(), 0);
    lim.finish_block(-12);
    lim.set_enabled(false);
    assert_eq!(lim.gain_reduction(), -12);
    assert_eq!(lim.begin_block(48_000), BlockStep::Bypass);
    assert_eq!(lim.gain_reduction(), 0);
}

#[test]
fn limiter_commands_change_its_settings() {
    let mut m = AudioMixer::new(48_000);
    assert!(m.limiter_enabled);
    assert_eq!(g(m.limiter_threshold_db), -0.5);
    m.apply(cmd(AudioCommandKind::SetMasterLimiterEnabled { enabled: false }));
    m.apply(cmd(AudioCommandKind::SetMasterLimiterThreshold { threshold_db: f(-100.0) }));
    assert!(!m.limiter_enabled);
    assert_eq!(g(m.limiter_threshold_db), -24.0);
}
