use hypehouse_engine::audio::clock::{is_usable_tempo, ClockSource, EngineClock, SharedClock};
use hypehouse_engine::f32_bits::F32Bits;

fn f(x: f32) -> F32Bits {
    F32Bits { bits: x.to_bits() }
}

fn g(x: F32Bits) -> f32 {
    f32::from_bits(x.bits)
}

#[test]
fn shared_clock_starts_zero_and_advances() {
    let c = SharedClock::new();
    assert_eq!(c.frame(), 0);
    c.advance(256);
    assert_eq!(c.frame(), 256);
    c.advance(256);
    assert_eq!(c.frame(), 512);
}

#[test]
fn engine_clock_carries_sample_rate_and_bpm() {
    let c = EngineClock::new(48_000, f(120.0));
    assert_eq!(c.sample_rate, 48_000);
    assert!((g(c.master_bpm) - 120.0).abs() < 1e-6);
    assert_eq!(c.frame(), 0);
    c.advance(128);
    assert_eq!(c.frame(), 128);
}

#[test]
fn shared_clock_clones_share_storage() {
    let c = SharedClock::new();
    let c2 = c.clone();
    c.advance(10);
    assert_eq!(c2.frame(), 10);
    c2.advance(5);
    assert_eq!(c.frame(), 15);
}

#[test]
fn shared_clock_bpm_round_trip() {
    let c = SharedClock::with_bpm(f(128.5));
    assert!((g(c.master_bpm()) - 128.5).abs() < 1e-6);
    c.set_master_bpm(f(174.0));
    assert!((g(c.master_bpm()) - 174.0).abs() < 1e-6);
}

#[test]
fn shared_clock_rejects_bad_bpm() {
    let c = SharedClock::with_bpm(f(120.0));
    c.set_master_bpm(f(f32::NAN));
    c.set_master_bpm(f(f32::INFINITY));
    c.set_master_bpm(f(0.0));
    c.set_master_bpm(f(-30.0));
    assert!((g(c.master_bpm()) - 120.0).abs() < 1e-6);
}

#[test]
fn engine_clock_seeds_shared_bpm() {
    let c = EngineClock::new(48_000, f(140.0));
    assert!((g(c.shared.master_bpm()) - 140.0).abs() < 1e-6);
}

#[test]
fn tempos_are_positive_and_finite() {
    for good in [120.0, 1.0e-30, f32::MAX, f32::MIN_POSITIVE] {
        assert!(is_usable_tempo(f(good)));
        assert!(SharedClock::new().set_master_bpm(f(good)));
    }
    for bad in [0.0, -0.0, -1.0, f32::NAN, f32::INFINITY, f32::NEG_INFINITY] {
        assert!(!is_usable_tempo(f(bad)));
        assert!(!SharedClock::new().set_master_bpm(f(bad)));
    }
    assert_eq!(g(SharedClock::new().master_bpm()), 120.0);
}

#[test]
fn clock_sources_have_labels() {
    assert_eq!(ClockSource::Internal.as_str(), "internal");
    assert_eq!(ClockSource::MidiIn.as_str(), "midi_in");
    assert_eq!(ClockSource::AbletonLink.as_str(), "ableton_link");
}
