use hypehouse_engine::audio::effects::delay::{
    clamp_delay, CoefCache, CoefKey, DelayLine, MAX_DELAY_FRAMES,
};
use hypehouse_engine::audio::effects::lfo::{LfoConfig, RateDiv, Shape};
use hypehouse_engine::audio::effects::{
    default_params, descriptor, descriptors, gate_open, modulation, resolve_param, FxBank, Modulation,
    EFFECT_ECHO, EFFECT_FILTER, EFFECT_GATE, EFFECT_NONE, EFFECT_REVERB,
};
use hypehouse_engine::f32_bits::F32Bits;

fn f(x: f32) -> F32Bits {
    F32Bits { bits: x.to_bits() }
}

fn g(x: F32Bits) -> f32 {
    f32::from_bits(x.bits)
}

fn bank() -> FxBank {
    FxBank::new()
}

#[test]
fn descriptors_resolve_param_names() {
    assert_eq!(resolve_param(EFFECT_FILTER, "cutoff_hz"), Some(0));
    assert_eq!(resolve_param(EFFECT_FILTER, "resonance"), Some(1));
    assert_eq!(resolve_param(EFFECT_FILTER, "mode"), Some(2));
    assert_eq!(resolve_param(EFFECT_FILTER, "nonsense"), None);
    assert_eq!(resolve_param(EFFECT_ECHO, "time_ms"), Some(0));
    assert_eq!(resolve_param(EFFECT_ECHO, "feedback"), Some(1));
    assert_eq!(resolve_param(EFFECT_ECHO, "tone"), Some(2));
    assert_eq!(resolve_param(EFFECT_REVERB, "room_size"), Some(0));
    assert_eq!(resolve_param(EFFECT_GATE, "period_div"), Some(0));
    assert_eq!(resolve_param(99, "anything"), None);
}

#[test]
fn default_params_uses_descriptor_defaults() {
    let p = default_params(EFFECT_FILTER);
    assert!((g(p[0]) - 500.0).abs() < 1e-6);
    assert!((g(p[1]) - 0.3).abs() < 1e-6);
    assert!((g(p[2]) - 0.0).abs() < 1e-6);
}

#[test]
fn disabled_slots_have_no_plan() {
    let mut b = bank();
    b.assign(EFFECT_FILTER);
    assert!(b.plan().is_some());
    b.enabled = false;
    assert!(b.plan().is_none());
}

#[test]
fn empty_slots_have_no_plan() {
    let mut b = bank();
    assert!(b.plan().is_none());
    b.enabled = true;
    assert_eq!(b.effect_id, EFFECT_NONE);
    assert!(b.plan().is_none());
}

#[test]
fn assigning_names_the_effect_to_reset() {
    let mut b = bank();
    assert_eq!(b.assign(EFFECT_ECHO), Some(EFFECT_ECHO));
    assert_eq!(b.assign(EFFECT_ECHO), Some(EFFECT_ECHO));
    assert_eq!(b.assign(99), None);
    let mut line = DelayLine::new(8);
    line.push(f(1.0));
    line.reset();
    for i in 1..=8 {
        assert_eq!(g(line.tap(i)), 0.0);
    }
}

#[test]
fn assigning_new_effect_clears_lfo() {
    let mut b = bank();
    b.assign(EFFECT_FILTER);
    b.set_lfo(LfoConfig::new(Shape::Sine, RateDiv::Beat, f(1.0), 0));
    assert!(b.lfo.is_some());
    b.assign(EFFECT_ECHO);
    assert!(b.lfo.is_none(), "assigning a new effect must clear the LFO");
}

#[test]
fn clear_slot_clears_lfo() {
    let mut b = bank();
    b.assign(EFFECT_FILTER);
    b.set_lfo(LfoConfig::new(Shape::Sine, RateDiv::Beat, f(1.0), 0));
    b.clear();
    assert!(b.lfo.is_none(), "clearing a slot must clear the LFO");
    assert_eq!(b.effect_id, EFFECT_NONE);
    assert!(!b.enabled);
}

#[test]
fn dry_slots_leave_the_buffer_alone() {
    let mut b = bank();
    b.assign(EFFECT_ECHO);
    b.wet_dry = f(0.0);
    assert!(b.plan().is_none());
    b.wet_dry = f(-0.5);
    assert!(b.plan().is_none());
    b.wet_dry = f(1.5);
    assert_eq!(g(b.plan().unwrap().wet), 1.0);
    b.wet_dry = f(0.25);
    assert_eq!(g(b.plan().unwrap().wet), 0.25);
}

#[test]
fn gates_open_for_the_first_part_of_each_period() {
    let sr: u32 = 48_000;
    let bpm = 120.0_f32;
    let period_frames = ((60.0 / bpm) * 0.25 * sr as f32) as u64;
    assert_eq!(period_frames, 6000);
    for frame in 0..3000 {
        assert!(gate_open(frame, period_frames, 3000), "expected gate open at frame {frame}");
    }
    for frame in 3000..6000 {
        assert!(!gate_open(frame, period_frames, 3000), "expected gate closed at frame {frame}");
    }
    assert!(gate_open(6000, period_frames, 3000));
    assert!(gate_open(9, 0, 0));
}

#[test]
fn gates_without_open_frames_stay_closed() {
    for frame in 0..1000 {
        assert!(!gate_open(frame, 6000, 0));
    }
}

#[test]
fn gates_with_open_frames_only_stay_open() {
    for frame in 0..1000 {
        assert!(gate_open(frame, 6000, 6000));
    }
}

#[test]
fn delay_lines_give_each_sample_back_once() {
    let mut line = DelayLine::new(64);
    for i in 0..40 {
        line.push(if i == 0 { f(1.0) } else { f(0.0) });
        let tap = g(line.tap(20));
        assert_eq!(tap, if i == 19 { 1.0 } else { 0.0 });
    }
}

#[test]
fn resets_silence_a_delay_line() {
    let mut line = DelayLine::new(16);
    for i in 0..16 {
        line.push(f(i as f32 + 1.0));
    }
    assert_eq!(g(line.oldest()), 1.0);
    assert_eq!(line.len(), 16);
    line.reset();
    assert_eq!(g(line.oldest()), 0.0);
}

#[test]
fn delays_stay_in_the_line() {
    assert_eq!(clamp_delay(0), 1);
    assert_eq!(clamp_delay(500), 500);
    assert_eq!(clamp_delay(1_000_000), MAX_DELAY_FRAMES - 1);
}

#[test]
fn coefficients_are_computed_once_per_key() {
    let mut c = CoefCache::new();
    let key = CoefKey { cutoff: f(500.0), q: f(0.3), mode: 0, sample_rate: 48_000 };
    assert!(c.refresh(key), "the first look computes");
    assert!(!c.refresh(key), "the same parameters hit the cache");
    assert!(c.refresh(CoefKey { sample_rate: 44_100, ..key }));
    c.reset();
}

#[test]
fn targets_without_a_descriptor_move_nothing() {
    let cfg = LfoConfig::new(Shape::Sine, RateDiv::Beat, f(1.0), 99);
    assert_eq!(modulation(cfg, EFFECT_FILTER), None, "out-of-range target_param must be no-op");
    let cfg = LfoConfig::new(Shape::Sine, RateDiv::Beat, f(1.0), 2);
    assert_eq!(modulation(cfg, EFFECT_GATE), None);
}

#[test]
fn oscillators_move_each_parameter_its_own_way() {
    let on = |target| LfoConfig::new(Shape::Sine, RateDiv::Bar, f(0.5), target);
    assert_eq!(modulation(on(0), EFFECT_FILTER), Some((0, Modulation::Octaves(2))));
    assert_eq!(modulation(on(0), EFFECT_ECHO), Some((0, Modulation::Octaves(1))));
    assert_eq!(modulation(on(0), EFFECT_REVERB), Some((0, Modulation::Additive)));
    assert_eq!(modulation(on(1), EFFECT_GATE), Some((1, Modulation::Additive)));
    assert_eq!(modulation(on(1), EFFECT_FILTER), Some((1, Modulation::Additive)));
}

#[test]
fn shape_and_ratediv_byte_round_trip() {
    for s in [Shape::Sine, Shape::Saw, Shape::Square, Shape::Triangle] {
        assert_eq!(Shape::from_byte(s as u8), s);
        assert!(!s.as_str().is_empty());
    }
    assert_eq!(Shape::from_byte(99), Shape::Sine);
    for r in [
        RateDiv::Bar,
        RateDiv::Beat,
        RateDiv::Half,
        RateDiv::Quarter,
        RateDiv::Eighth,
        RateDiv::Sixteenth,
    ] {
        assert_eq!(RateDiv::from_byte(r as u8), r);
        assert!(!r.as_str().is_empty());
        assert!(r.sixteenths_per_cycle() > 0);
    }
    assert_eq!(RateDiv::from_byte(99), RateDiv::Quarter);
    assert_eq!(RateDiv::Bar.sixteenths_per_cycle(), 64);
    assert_eq!(RateDiv::Sixteenth.sixteenths_per_cycle(), 1);
}

#[test]
fn parameters_are_confined_to_their_range() {
    let mut b = bank();
    b.assign(EFFECT_FILTER);
    b.set_param(0, f(5.0));
    assert_eq!(g(b.params[0]), 20.0);
    b.set_param(0, f(1.0e9));
    assert_eq!(g(b.params[0]), 20_000.0);
    b.set_param(0, f(800.0));
    assert_eq!(g(b.params[0]), 800.0);
    b.set_param(4, f(7.0));
    assert_eq!(g(b.params[4]), 7.0);
    b.set_param(9, f(7.0));
    assert_eq!(descriptors(EFFECT_FILTER)[0].clamp(f(f32::NAN)).bits & 0x7F80_0000, 0x7F80_0000);
    b.clear_lfo();
}

#[test]
fn registry_values_are_the_floats_they_stand_for() {
    let table = |id| -> Vec<(String, f32, f32, f32)> {
        descriptors(id)
            .iter()
            .map(|d| (d.name.to_string(), g(d.min), g(d.max), g(d.default)))
            .collect()
    };
    let row = |n: &str, a, b, c| (n.to_string(), a, b, c);
    assert_eq!(
        table(EFFECT_FILTER),
        vec![
            row("cutoff_hz", 20.0, 20_000.0, 500.0),
            row("resonance", 0.0, 1.0, 0.3),
            row("mode", 0.0, 2.0, 0.0),
        ]
    );
    assert_eq!(
        table(EFFECT_ECHO),
        vec![
            row("time_ms", 10.0, 2_000.0, 250.0),
            row("feedback", 0.0, 0.95, 0.45),
            row("tone", -1.0, 1.0, 0.0),
        ]
    );
    assert_eq!(
        table(EFFECT_REVERB),
        vec![
            row("room_size", 0.0, 1.0, 0.5),
            row("damping", 0.0, 1.0, 0.4),
            row("width", 0.0, 1.0, 0.7),
        ]
    );
    assert_eq!(
        table(EFFECT_GATE),
        vec![row("period_div", 0.0, 3.0, 1.0), row("duty", 0.0, 1.0, 0.5)]
    );
    assert!(table(0).is_empty());
}

#[test]
fn descriptors_can_be_looked_up_one_by_one() {
    for effect in [EFFECT_NONE, EFFECT_FILTER, EFFECT_ECHO, EFFECT_REVERB, EFFECT_GATE, 99] {
        let all = descriptors(effect);
        for (i, d) in all.iter().enumerate() {
            let one = descriptor(effect, i).unwrap();
            assert_eq!(one.name, d.name);
            assert_eq!((one.min, one.max, one.default), (d.min, d.max, d.default));
        }
        assert!(descriptor(effect, all.len()).is_none());
    }
    let cutoff = descriptor(EFFECT_FILTER, 0).unwrap();
    assert_eq!(cutoff.name, "cutoff_hz");
    assert_eq!((g(cutoff.min), g(cutoff.max), g(cutoff.default)), (20.0, 20_000.0, 500.0));
}
